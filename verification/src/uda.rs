//! User-defined attributes (UDA): the open part of a task's schema.
//!
//! Every JSON object key that is not one of the fixed task field names is
//! carried here, as a tagged scalar. The map iterates in key-sorted order so
//! that re-exported JSON is diff-stable.

use vstd::prelude::*;

use crate::strutil::{lemma_lex_connex, lemma_lex_trans, lex_lt, str_eq, str_lt};

verus! {

/// The name of a UDA is just a string.
pub type UDAName = String;

/// A UDA value: a string, a non-negative integer, or a float. The float is
/// carried as its decimal text; the codec never computes with it. Which
/// variant a wire value decodes to is decided by the literal's shape, not
/// its range: a bare non-negative integer literal is `U64`, a literal with
/// a fractional part or exponent is `F64`.
#[derive(Clone, Debug, PartialEq)]
pub enum UDAValue {
    /// A string value.
    Str(String),
    /// A non-negative integer value.
    U64(u64),
    /// A float value, as its decimal text.
    F64(String),
}

/// The mathematical shape of a [`UDAValue`].
#[verifier::ext_equal]
pub ghost enum UDAV {
    /// A string value.
    Str(Seq<char>),
    /// A non-negative integer value.
    U64(u64),
    /// A float value, as its decimal text.
    F64(Seq<char>),
}

impl View for UDAValue {
    type V = UDAV;

    open spec fn view(&self) -> UDAV {
        match self {
            UDAValue::Str(s) => UDAV::Str(s@),
            UDAValue::U64(u) => UDAV::U64(*u),
            UDAValue::F64(t) => UDAV::F64(t@),
        }
    }
}

/// Whether the keys of `m` are strictly increasing (and hence unique).
pub open spec fn keys_sorted(m: Seq<(Seq<char>, UDAV)>) -> bool {
    forall|i: int, j: int| 0 <= i < j < m.len() ==> lex_lt(#[trigger] m[i].0, #[trigger] m[j].0)
}

/// The entry list of `m` after binding `k` to `v`: an existing binding of
/// `k` is replaced, and a new key lands at its sorted position.
pub open spec fn uda_insert(m: Seq<(Seq<char>, UDAV)>, k: Seq<char>, v: UDAV) -> Seq<
    (Seq<char>, UDAV),
>
    decreases m.len(),
{
    if m.len() == 0 {
        seq![(k, v)]
    } else if lex_lt(k, m[0].0) {
        seq![(k, v)] + m
    } else if k == m[0].0 {
        seq![(k, v)] + m.drop_first()
    } else {
        seq![m[0]] + uda_insert(m.drop_first(), k, v)
    }
}

/// The value bound to `k` in `m`, scanning from index `i`.
pub open spec fn uda_lookup_from(m: Seq<(Seq<char>, UDAV)>, k: Seq<char>, i: int) -> Option<UDAV>
    decreases m.len() - i,
{
    if i < 0 || i >= m.len() {
        None
    } else if m[i].0 == k {
        Some(m[i].1)
    } else {
        uda_lookup_from(m, k, i + 1)
    }
}

/// The value bound to `k` in `m`.
pub open spec fn uda_lookup(m: Seq<(Seq<char>, UDAV)>, k: Seq<char>) -> Option<UDAV> {
    uda_lookup_from(m, k, 0)
}

/// The map of user-defined attributes, iterated in key-sorted order.
#[derive(Clone, Debug, PartialEq)]
pub struct UDA {
    entries: Vec<(UDAName, UDAValue)>,
}

impl View for UDA {
    type V = Seq<(Seq<char>, UDAV)>;

    closed spec fn view(&self) -> Seq<(Seq<char>, UDAV)> {
        Seq::new(self.entries@.len(), |i: int| (self.entries@[i].0@, self.entries@[i].1@))
    }
}

impl UDA {
    /// Whether the entry keys are strictly sorted; constructors establish
    /// this and `insert` preserves it.
    pub open spec fn wf(self) -> bool {
        keys_sorted(self@)
    }

    /// Creates an empty map.
    pub fn new() -> (r: UDA)
        ensures
            r@ == Seq::<(Seq<char>, UDAV)>::empty(),
            r.wf(),
    {
        let r = UDA { entries: Vec::new() };
        proof {
            assert(r@ =~= Seq::<(Seq<char>, UDAV)>::empty());
        }
        r
    }

    /// Whether the map holds no entry.
    pub fn is_empty(&self) -> (r: bool)
        ensures
            r == (self@.len() == 0),
    {
        self.entries.len() == 0
    }

    /// The number of entries.
    pub fn len(&self) -> (r: usize)
        ensures
            r == self@.len(),
    {
        self.entries.len()
    }

    /// The entries, in key-sorted order.
    pub fn entries(&self) -> (r: &Vec<(UDAName, UDAValue)>)
        ensures
            r@.len() == self@.len(),
            forall|i: int|
                0 <= i < self@.len() ==> (#[trigger] r@[i].0)@ == self@[i].0 && r@[i].1@
                    == self@[i].1,
    {
        &self.entries
    }

    /// The value bound to `key`.
    pub fn get(&self, key: &String) -> (r: Option<&UDAValue>)
        ensures
            match r {
                Some(v) => uda_lookup(self@, key@) == Some(v@),
                None => uda_lookup(self@, key@) is None,
            },
    {
        let n = self.entries.len();
        let mut i: usize = 0;
        while i < n
            invariant
                n == self.entries@.len(),
                0 <= i <= n,
                uda_lookup(self@, key@) == uda_lookup_from(self@, key@, i as int),
            decreases n - i,
        {
            if str_eq(self.entries[i].0.as_str(), key.as_str()) {
                return Some(&self.entries[i].1);
            }
            i += 1;
        }
        None
    }

    /// The first index whose key is not below `key`; a helper for `insert`.
    fn lower_bound(&self, key: &String) -> (i: usize)
        ensures
            i <= self@.len(),
            forall|j: int| 0 <= j < i ==> lex_lt((#[trigger] self@[j]).0, key@),
            i < self@.len() ==> !lex_lt(self@[i as int].0, key@),
    {
        let n = self.entries.len();
        let mut i: usize = 0;
        loop
            invariant
                n == self.entries@.len(),
                0 <= i <= n,
                forall|j: int| 0 <= j < i ==> lex_lt((#[trigger] self@[j]).0, key@),
            decreases n - i,
        {
            if i == n {
                return i;
            }
            if str_lt(self.entries[i].0.as_str(), key.as_str()) {
                i += 1;
            } else {
                return i;
            }
        }
    }

    /// Binds `key` to `value`, replacing any existing binding.
    pub fn insert(&mut self, key: UDAName, value: UDAValue)
        ensures
            final(self)@ == uda_insert(old(self)@, key@, value@),
            old(self).wf() ==> final(self).wf(),
    {
        let n = self.entries.len();
        let i = self.lower_bound(&key);
        let ghost m = self@;
        let ghost kk = key@;
        let ghost vv = value@;
        if i < n && str_eq(self.entries[i].0.as_str(), key.as_str()) {
            self.entries.set(i, (key, value));
            proof {
                lemma_uda_insert_at(m, kk, vv, i as int);
                assert(final(self)@ =~= m.update(i as int, (kk, vv)));
            }
        } else {
            proof {
                if i < n {
                    lemma_lex_connex_not_eq(m[i as int].0, kk);
                }
            }
            self.entries.insert(i, (key, value));
            proof {
                lemma_uda_insert_at(m, kk, vv, i as int);
                assert(final(self)@ =~= m.insert(i as int, (kk, vv)));
            }
        }
        proof {
            if keys_sorted(m) {
                lemma_uda_insert_sorted(m, kk, vv);
            }
        }
    }
}

/// Two keys neither below the other, and unequal, cannot both exist.
proof fn lemma_lex_connex_not_eq(a: Seq<char>, b: Seq<char>)
    requires
        !lex_lt(a, b),
        a != b,
    ensures
        lex_lt(b, a),
{
    if !lex_lt(b, a) {
        lemma_lex_connex(a, b);
    }
}

/// Where the scan stopped determines the inserted shape: a binding at `i`
/// with the same key is replaced in place; otherwise the new binding lands
/// at index `i`.
proof fn lemma_uda_insert_at(m: Seq<(Seq<char>, UDAV)>, k: Seq<char>, v: UDAV, i: int)
    requires
        0 <= i <= m.len(),
        forall|j: int| 0 <= j < i ==> lex_lt((#[trigger] m[j]).0, k),
        i < m.len() ==> !lex_lt(m[i].0, k),
    ensures
        i < m.len() && m[i].0 == k ==> uda_insert(m, k, v) == m.update(i, (k, v)),
        i < m.len() && m[i].0 != k ==> uda_insert(m, k, v) == m.insert(i, (k, v)),
        i == m.len() ==> uda_insert(m, k, v) == m.insert(i, (k, v)),
    decreases i,
{
    if i == 0 {
        if m.len() == 0 {
            assert(uda_insert(m, k, v) =~= m.insert(0, (k, v)));
        } else if m[0].0 == k {
            assert(!lex_lt(k, m[0].0)) by {
                crate::strutil::lemma_lex_irrefl(k);
            }
            assert(uda_insert(m, k, v) == seq![(k, v)] + m.drop_first());
            assert(uda_insert(m, k, v) =~= m.update(0, (k, v)));
        } else {
            lemma_lex_connex_not_eq(m[0].0, k);
            assert(uda_insert(m, k, v) == seq![(k, v)] + m);
            assert(uda_insert(m, k, v) =~= m.insert(0, (k, v)));
        }
    } else {
        let rest = m.drop_first();
        assert(lex_lt(m[0].0, k));
        assert(!lex_lt(k, m[0].0)) by {
            if lex_lt(k, m[0].0) {
                lemma_lex_trans(k, m[0].0, k);
                crate::strutil::lemma_lex_irrefl(k);
            }
        }
        assert(k != m[0].0) by {
            crate::strutil::lemma_lex_irrefl(k);
        }
        assert(uda_insert(m, k, v) == seq![m[0]] + uda_insert(rest, k, v));
        assert(forall|j: int| 0 <= j < i - 1 ==> lex_lt((#[trigger] rest[j]).0, k)) by {
            assert(forall|j: int| 0 <= j < i - 1 ==> rest[j] == m[j + 1]);
        }
        lemma_uda_insert_at(rest, k, v, i - 1);
        if i < m.len() && m[i].0 == k {
            assert(rest[i - 1].0 == k);
            assert(uda_insert(m, k, v) =~= m.update(i, (k, v)));
        } else if i < m.len() {
            assert(uda_insert(m, k, v) =~= m.insert(i, (k, v)));
        } else {
            assert(uda_insert(m, k, v) =~= m.insert(i, (k, v)));
        }
    }
}

/// Inserting into a sorted entry list keeps it sorted.
pub proof fn lemma_uda_insert_sorted(m: Seq<(Seq<char>, UDAV)>, k: Seq<char>, v: UDAV)
    requires
        keys_sorted(m),
    ensures
        keys_sorted(uda_insert(m, k, v)),
    decreases m.len(),
{
    let r = uda_insert(m, k, v);
    if m.len() == 0 {
    } else if lex_lt(k, m[0].0) {
        assert(forall|j: int| 1 <= j < r.len() ==> r[j] == m[j - 1]);
        assert forall|i: int, j: int| 0 <= i < j < r.len() implies lex_lt(r[i].0, r[j].0) by {
            if i == 0 {
                if j > 1 {
                    lemma_lex_trans(k, m[0].0, m[j - 1].0);
                }
            }
        }
    } else if k == m[0].0 {
        assert(forall|j: int| 1 <= j < r.len() ==> r[j] == m[j]);
        assert forall|i: int, j: int| 0 <= i < j < r.len() implies lex_lt(r[i].0, r[j].0) by {}
    } else {
        lemma_lex_connex_not_eq(k, m[0].0);
        let rest = m.drop_first();
        assert(keys_sorted(rest)) by {
            assert(forall|j: int| 0 <= j < rest.len() ==> rest[j] == m[j + 1]);
        }
        lemma_uda_insert_sorted(rest, k, v);
        let rr = uda_insert(rest, k, v);
        assert(r == seq![m[0]] + rr);
        assert(forall|j: int| 0 <= j < rr.len() ==> r[j + 1] == rr[j]);
        assert forall|j: int| 0 <= j < rr.len() implies lex_lt(m[0].0, rr[j].0) by {
            lemma_insert_key_bound(rest, k, v, m[0].0, j);
        }
        assert forall|i: int, j: int| 0 <= i < j < r.len() implies lex_lt(r[i].0, r[j].0) by {
            if i > 0 {
                assert(r[i] == rr[i - 1] && r[j] == rr[j - 1]);
            }
        }
    }
}

/// A lower bound below an entry list's keys, and below the inserted key,
/// bounds the keys after insertion.
proof fn lemma_insert_key_bound(
    m: Seq<(Seq<char>, UDAV)>,
    k: Seq<char>,
    v: UDAV,
    lo: Seq<char>,
    j: int,
)
    requires
        lex_lt(lo, k),
        forall|i: int| 0 <= i < m.len() ==> lex_lt(lo, (#[trigger] m[i]).0),
        0 <= j < uda_insert(m, k, v).len(),
    ensures
        lex_lt(lo, uda_insert(m, k, v)[j].0),
    decreases m.len(),
{
    let r = uda_insert(m, k, v);
    if m.len() == 0 {
    } else if lex_lt(k, m[0].0) {
        assert(forall|i: int| 1 <= i < r.len() ==> r[i] == m[i - 1]);
    } else if k == m[0].0 {
        assert(forall|i: int| 1 <= i < r.len() ==> r[i] == m.drop_first()[i - 1]);
        assert(forall|i: int| 0 <= i < m.drop_first().len() ==> m.drop_first()[i] == m[i + 1]);
    } else {
        let rest = m.drop_first();
        assert(forall|i: int| 0 <= i < rest.len() ==> rest[i] == m[i + 1]);
        if j > 0 {
            lemma_insert_key_bound(rest, k, v, lo, j - 1);
            assert(r[j] == uda_insert(rest, k, v)[j - 1]);
        }
    }
}

/// Lookup scans can start one entry further in when the head is dropped.
proof fn lemma_lookup_shift(m: Seq<(Seq<char>, UDAV)>, k: Seq<char>, i: int)
    requires
        0 <= i,
        m.len() > 0,
    ensures
        uda_lookup_from(m, k, i + 1) == uda_lookup_from(m.drop_first(), k, i),
    decreases m.len() - i,
{
    if i + 1 < m.len() {
        assert(m.drop_first()[i] == m[i + 1]);
        lemma_lookup_shift(m, k, i + 1);
    }
}

/// Lookup steps through the head entry.
proof fn lemma_lookup_head(m: Seq<(Seq<char>, UDAV)>, k: Seq<char>)
    ensures
        uda_lookup(m, k) == (if m.len() == 0 {
            None
        } else if m[0].0 == k {
            Some(m[0].1)
        } else {
            uda_lookup(m.drop_first(), k)
        }),
{
    if m.len() > 0 && m[0].0 != k {
        lemma_lookup_shift(m, k, 0);
    }
}

/// After binding `k` to `v`, looking `k` up gives `v`.
pub proof fn lemma_lookup_insert_same(m: Seq<(Seq<char>, UDAV)>, k: Seq<char>, v: UDAV)
    ensures
        uda_lookup(uda_insert(m, k, v), k) == Some(v),
    decreases m.len(),
{
    let r = uda_insert(m, k, v);
    if m.len() == 0 {
        lemma_lookup_head(r, k);
    } else if lex_lt(k, m[0].0) || k == m[0].0 {
        lemma_lookup_head(r, k);
        assert(r[0] == (k, v));
    } else {
        lemma_lookup_head(r, k);
        assert(r[0] == m[0]);
        assert(k != m[0].0);
        assert(r.drop_first() =~= uda_insert(m.drop_first(), k, v));
        lemma_lookup_insert_same(m.drop_first(), k, v);
    }
}

/// Binding `k` leaves every other key's binding unchanged.
pub proof fn lemma_lookup_insert_other(
    m: Seq<(Seq<char>, UDAV)>,
    k: Seq<char>,
    v: UDAV,
    k2: Seq<char>,
)
    requires
        k2 != k,
    ensures
        uda_lookup(uda_insert(m, k, v), k2) == uda_lookup(m, k2),
    decreases m.len(),
{
    let r = uda_insert(m, k, v);
    if m.len() == 0 {
        lemma_lookup_head(r, k2);
        lemma_lookup_head(m, k2);
    } else if lex_lt(k, m[0].0) {
        lemma_lookup_head(r, k2);
        assert(r[0] == (k, v));
        assert(r.drop_first() =~= m);
    } else if k == m[0].0 {
        lemma_lookup_head(r, k2);
        lemma_lookup_head(m, k2);
        assert(r[0] == (k, v));
        assert(r.drop_first() =~= m.drop_first());
    } else {
        lemma_lookup_head(r, k2);
        lemma_lookup_head(m, k2);
        assert(r[0] == m[0]);
        assert(r.drop_first() =~= uda_insert(m.drop_first(), k, v));
        lemma_lookup_insert_other(m.drop_first(), k, v, k2);
    }
}

/// Inserting a key above every existing key appends the binding.
pub proof fn lemma_uda_insert_append(m: Seq<(Seq<char>, UDAV)>, k: Seq<char>, v: UDAV)
    requires
        forall|i: int| 0 <= i < m.len() ==> lex_lt((#[trigger] m[i]).0, k),
    ensures
        uda_insert(m, k, v) == m.push((k, v)),
    decreases m.len(),
{
    if m.len() == 0 {
        assert(uda_insert(m, k, v) =~= m.push((k, v)));
    } else {
        assert(!lex_lt(k, m[0].0)) by {
            if lex_lt(k, m[0].0) {
                lemma_lex_trans(m[0].0, k, m[0].0);
                crate::strutil::lemma_lex_irrefl(m[0].0);
            }
        }
        assert(k != m[0].0) by {
            crate::strutil::lemma_lex_irrefl(k);
        }
        let rest = m.drop_first();
        assert(forall|i: int| 0 <= i < rest.len() ==> rest[i] == m[i + 1]);
        lemma_uda_insert_append(rest, k, v);
        assert(uda_insert(m, k, v) =~= m.push((k, v)));
    }
}

} // verus!
