//! The laws of the codec: encoding is inverted by decoding, and absent
//! fields stay absent.

use vstd::prelude::*;

use crate::annotation::AnnotationV;
use crate::codec::{
    comma_from, dec_annotation, dec_annotations_seq, dec_opt_annotations, dec_opt_date,
    dec_opt_num, dec_opt_priority, dec_opt_status, dec_opt_string, dec_opt_tags, dec_opt_u64,
    dec_opt_uuid, dec_depends, dec_strings, dec_uuid_texts, decode_obj, decode_value, encode_head,
    encode_opts1, encode_opts2, encode_task, encode_value, find_from, find_key, is_fixed_key,
    join_commas, jv_ann, jv_anns, jv_date, jv_depends, jv_num, jv_tags, jv_uuid,
    lemma_dec_annotations_char, lemma_dec_strings_char, lemma_dec_uuid_texts_char, opt_entry,
    split_commas, split_from, uda_entries, uda_jv, uda_scan, uda_scan_at, uuid_texts,
    lemma_comma_from_bounds, sniff_uda,
};
use crate::date::{date_text, Date};
use crate::error::TaskErrorV;
use crate::json::JsonV;
use crate::priority::lemma_priority_token_round_trip;
use crate::status::lemma_status_token_round_trip;
use crate::strutil::lex_lt;
use crate::task::TaskV;
use crate::uda::{keys_sorted, lemma_uda_insert_append, uda_lookup, UDAV};
use crate::uuid::{lemma_uuid_round_trip, uuid_of_text, uuid_text, Uuid};

verus! {

/// Looking past the first `a.len()` entries of a concatenation looks into
/// the second part.
proof fn lemma_find_from_offset(
    a: Seq<(Seq<char>, JsonV)>,
    b: Seq<(Seq<char>, JsonV)>,
    k: Seq<char>,
    j: int,
)
    requires
        0 <= j <= b.len(),
    ensures
        find_from(a + b, k, a.len() + j) == find_from(b, k, j),
    decreases b.len() - j,
{
    if j < b.len() {
        assert((a + b)[a.len() + j] == b[j]);
        lemma_find_from_offset(a, b, k, j + 1);
    }
}

/// Lookup distributes over concatenation: the first part wins when it has
/// the key.
pub proof fn lemma_find_concat(a: Seq<(Seq<char>, JsonV)>, b: Seq<(Seq<char>, JsonV)>, k: Seq<char>)
    ensures
        find_key(a + b, k) == match find_key(a, k) {
            Some(v) => Some(v),
            None => find_key(b, k),
        },
{
    lemma_find_concat_from(a, b, k, 0);
}

proof fn lemma_find_concat_from(
    a: Seq<(Seq<char>, JsonV)>,
    b: Seq<(Seq<char>, JsonV)>,
    k: Seq<char>,
    i: int,
)
    requires
        0 <= i <= a.len(),
    ensures
        find_from(a + b, k, i) == match find_from(a, k, i) {
            Some(v) => Some(v),
            None => find_key(b, k),
        },
    decreases a.len() - i,
{
    if i == a.len() {
        lemma_find_from_offset(a, b, k, 0);
    } else {
        assert((a + b)[i] == a[i]);
        lemma_find_concat_from(a, b, k, i + 1);
    }
}

/// Lookup in a one-or-zero-entry piece: the piece's own name hits, any
/// other name misses.
proof fn lemma_find_opt_entry(name: Seq<char>, v: Option<JsonV>, k: Seq<char>)
    ensures
        find_key(opt_entry(name, v), k) == (if k == name {
            v
        } else {
            None
        }),
{
    match v {
        Some(j) => {
            let s = opt_entry(name, v);
            assert(s.len() == 1 && s[0] == (name, j));
            assert(find_from(s, k, 1) is None);
        },
        None => {
            assert(opt_entry(name, v).len() == 0);
        },
    }
}

/// A name that no entry carries is not found.
proof fn lemma_find_none(es: Seq<(Seq<char>, JsonV)>, k: Seq<char>, i: int)
    requires
        0 <= i <= es.len(),
        forall|j: int| 0 <= j < es.len() ==> (#[trigger] es[j]).0 != k,
    ensures
        find_from(es, k, i) is None,
    decreases es.len() - i,
{
    if i < es.len() {
        lemma_find_none(es, k, i + 1);
    }
}

/// What lookup finds in an encoded task, for each fixed field name.
pub open spec fn enc_lookup(t: TaskV, legacy: bool, k: Seq<char>) -> Option<JsonV> {
    if k == "id"@ {
        match t.id {
            Some(u) => Some(JsonV::U64(u)),
            None => None,
        }
    } else if k == "status"@ {
        Some(JsonV::Str(crate::status::status_token(t.status)))
    } else if k == "uuid"@ {
        Some(JsonV::Str(uuid_text(t.uuid)))
    } else if k == "entry"@ {
        Some(JsonV::Str(date_text(t.entry)))
    } else if k == "description"@ {
        Some(JsonV::Str(t.description))
    } else if k == "annotations"@ {
        match t.annotations {
            Some(ans) => Some(jv_anns(ans)),
            None => None,
        }
    } else if k == "depends"@ {
        match t.depends {
            Some(us) => Some(jv_depends(us, legacy)),
            None => None,
        }
    } else if k == "due"@ {
        match t.due {
            Some(d) => Some(jv_date(d)),
            None => None,
        }
    } else if k == "end"@ {
        match t.end {
            Some(d) => Some(jv_date(d)),
            None => None,
        }
    } else if k == "imask"@ {
        match t.imask {
            Some(n) => Some(jv_num(n)),
            None => None,
        }
    } else if k == "mask"@ {
        match t.mask {
            Some(s) => Some(JsonV::Str(s)),
            None => None,
        }
    } else if k == "modified"@ {
        match t.modified {
            Some(d) => Some(jv_date(d)),
            None => None,
        }
    } else if k == "parent"@ {
        match t.parent {
            Some(u) => Some(jv_uuid(u)),
            None => None,
        }
    } else if k == "priority"@ {
        match t.priority {
            Some(p) => Some(JsonV::Str(crate::priority::priority_token(p))),
            None => None,
        }
    } else if k == "project"@ {
        match t.project {
            Some(s) => Some(JsonV::Str(s)),
            None => None,
        }
    } else if k == "recur"@ {
        match t.recur {
            Some(s) => Some(JsonV::Str(s)),
            None => None,
        }
    } else if k == "scheduled"@ {
        match t.scheduled {
            Some(d) => Some(jv_date(d)),
            None => None,
        }
    } else if k == "start"@ {
        match t.start {
            Some(d) => Some(jv_date(d)),
            None => None,
        }
    } else if k == "tags"@ {
        match t.tags {
            Some(ts) => Some(jv_tags(ts)),
            None => None,
        }
    } else if k == "until"@ {
        match t.until {
            Some(d) => Some(jv_date(d)),
            None => None,
        }
    } else if k == "wait"@ {
        match t.wait {
            Some(d) => Some(jv_date(d)),
            None => None,
        }
    } else if k == "urgency"@ {
        match t.urgency {
            Some(n) => Some(jv_num(n)),
            None => None,
        }
    } else {
        None
    }
}

/// Whether the task's UDA keys stay off the fixed schema names, the
/// precondition for a faithful round trip: a UDA under a fixed name would
/// be reinterpreted as that field.
pub open spec fn uda_keys_open(t: TaskV) -> bool {
    forall|i: int| 0 <= i < t.uda.len() ==> !is_fixed_key((#[trigger] t.uda[i]).0)
}

/// Lookup within the encoded head group.
proof fn lemma_find_head(t: TaskV, k: Seq<char>)
    ensures
        find_key(encode_head(t), k) == (if k == "id"@ {
            match t.id {
                Some(u) => Some(JsonV::U64(u)),
                None => None,
            }
        } else if k == "status"@ {
            Some(JsonV::Str(crate::status::status_token(t.status)))
        } else if k == "uuid"@ {
            Some(JsonV::Str(uuid_text(t.uuid)))
        } else if k == "entry"@ {
            Some(JsonV::Str(date_text(t.entry)))
        } else if k == "description"@ {
            Some(JsonV::Str(t.description))
        } else {
            None
        }),
{
    lemma_distinct_fixed_names();
    let p_id = opt_entry(
        "id"@,
        match t.id {
            Some(x) => Some(JsonV::U64(x)),
            None => None,
        },
    );
    let p_status = seq![("status"@, JsonV::Str(crate::status::status_token(t.status)))];
    let p_uuid = seq![("uuid"@, JsonV::Str(uuid_text(t.uuid)))];
    let p_entry = seq![("entry"@, JsonV::Str(date_text(t.entry)))];
    let p_desc = seq![("description"@, JsonV::Str(t.description))];
    assert(encode_head(t) == p_id + p_status + p_uuid + p_entry + p_desc);
    lemma_find_concat(p_id + p_status + p_uuid + p_entry, p_desc, k);
    lemma_find_concat(p_id + p_status + p_uuid, p_entry, k);
    lemma_find_concat(p_id + p_status, p_uuid, k);
    lemma_find_concat(p_id, p_status, k);
    lemma_find_opt_entry("id"@, match t.id {
        Some(x) => Some(JsonV::U64(x)),
        None => None,
    }, k);
    lemma_find_opt_entry("status"@, Some(JsonV::Str(crate::status::status_token(t.status))), k);
    lemma_find_opt_entry("uuid"@, Some(JsonV::Str(uuid_text(t.uuid))), k);
    lemma_find_opt_entry("entry"@, Some(JsonV::Str(date_text(t.entry))), k);
    lemma_find_opt_entry("description"@, Some(JsonV::Str(t.description)), k);
    assert(p_status == opt_entry("status"@, Some(JsonV::Str(crate::status::status_token(t.status)))));
    assert(p_uuid == opt_entry("uuid"@, Some(JsonV::Str(uuid_text(t.uuid)))));
    assert(p_entry == opt_entry("entry"@, Some(JsonV::Str(date_text(t.entry)))));
    assert(p_desc == opt_entry("description"@, Some(JsonV::Str(t.description))));
}

/// Lookup within the first optional group.
proof fn lemma_find_opts1(t: TaskV, legacy: bool, k: Seq<char>)
    ensures
        find_key(encode_opts1(t, legacy), k) == (if k == "annotations"@ {
            match t.annotations {
                Some(ans) => Some(jv_anns(ans)),
                None => None,
            }
        } else if k == "depends"@ {
            match t.depends {
                Some(us) => Some(jv_depends(us, legacy)),
                None => None,
            }
        } else if k == "due"@ {
            match t.due {
                Some(d) => Some(jv_date(d)),
                None => None,
            }
        } else if k == "end"@ {
            match t.end {
                Some(d) => Some(jv_date(d)),
                None => None,
            }
        } else if k == "imask"@ {
            match t.imask {
                Some(n) => Some(jv_num(n)),
                None => None,
            }
        } else if k == "mask"@ {
            match t.mask {
                Some(s) => Some(JsonV::Str(s)),
                None => None,
            }
        } else if k == "modified"@ {
            match t.modified {
                Some(d) => Some(jv_date(d)),
                None => None,
            }
        } else if k == "parent"@ {
            match t.parent {
                Some(u) => Some(jv_uuid(u)),
                None => None,
            }
        } else {
            None
        }),
{
    lemma_distinct_fixed_names();
    let q1 = opt_entry(
        "annotations"@,
        match t.annotations {
            Some(ans) => Some(jv_anns(ans)),
            None => None,
        },
    );
    let q2 = opt_entry(
        "depends"@,
        match t.depends {
            Some(us) => Some(jv_depends(us, legacy)),
            None => None,
        },
    );
    let q3 = opt_entry(
        "due"@,
        match t.due {
            Some(d) => Some(jv_date(d)),
            None => None,
        },
    );
    let q4 = opt_entry(
        "end"@,
        match t.end {
            Some(d) => Some(jv_date(d)),
            None => None,
        },
    );
    let q5 = opt_entry(
        "imask"@,
        match t.imask {
            Some(n) => Some(jv_num(n)),
            None => None,
        },
    );
    let q6 = opt_entry(
        "mask"@,
        match t.mask {
            Some(s) => Some(JsonV::Str(s)),
            None => None,
        },
    );
    let q7 = opt_entry(
        "modified"@,
        match t.modified {
            Some(d) => Some(jv_date(d)),
            None => None,
        },
    );
    let q8 = opt_entry(
        "parent"@,
        match t.parent {
            Some(x) => Some(jv_uuid(x)),
            None => None,
        },
    );
    assert(encode_opts1(t, legacy) == q1 + q2 + q3 + q4 + q5 + q6 + q7 + q8);
    lemma_find_concat(q1 + q2 + q3 + q4 + q5 + q6 + q7, q8, k);
    lemma_find_concat(q1 + q2 + q3 + q4 + q5 + q6, q7, k);
    lemma_find_concat(q1 + q2 + q3 + q4 + q5, q6, k);
    lemma_find_concat(q1 + q2 + q3 + q4, q5, k);
    lemma_find_concat(q1 + q2 + q3, q4, k);
    lemma_find_concat(q1 + q2, q3, k);
    lemma_find_concat(q1, q2, k);
    lemma_find_opt_entry("annotations"@, match t.annotations {
        Some(ans) => Some(jv_anns(ans)),
        None => None,
    }, k);
    lemma_find_opt_entry("depends"@, match t.depends {
        Some(us) => Some(jv_depends(us, legacy)),
        None => None,
    }, k);
    lemma_find_opt_entry("due"@, match t.due {
        Some(d) => Some(jv_date(d)),
        None => None,
    }, k);
    lemma_find_opt_entry("end"@, match t.end {
        Some(d) => Some(jv_date(d)),
        None => None,
    }, k);
    lemma_find_opt_entry("imask"@, match t.imask {
        Some(n) => Some(jv_num(n)),
        None => None,
    }, k);
    lemma_find_opt_entry("mask"@, match t.mask {
        Some(s) => Some(JsonV::Str(s)),
        None => None,
    }, k);
    lemma_find_opt_entry("modified"@, match t.modified {
        Some(d) => Some(jv_date(d)),
        None => None,
    }, k);
    lemma_find_opt_entry("parent"@, match t.parent {
        Some(x) => Some(jv_uuid(x)),
        None => None,
    }, k);
}

/// Lookup within the second optional group.
proof fn lemma_find_opts2(t: TaskV, k: Seq<char>)
    ensures
        find_key(encode_opts2(t), k) == (if k == "priority"@ {
            match t.priority {
                Some(p) => Some(JsonV::Str(crate::priority::priority_token(p))),
                None => None,
            }
        } else if k == "project"@ {
            match t.project {
                Some(s) => Some(JsonV::Str(s)),
                None => None,
            }
        } else if k == "recur"@ {
            match t.recur {
                Some(s) => Some(JsonV::Str(s)),
                None => None,
            }
        } else if k == "scheduled"@ {
            match t.scheduled {
                Some(d) => Some(jv_date(d)),
                None => None,
            }
        } else if k == "start"@ {
            match t.start {
                Some(d) => Some(jv_date(d)),
                None => None,
            }
        } else if k == "tags"@ {
            match t.tags {
                Some(ts) => Some(jv_tags(ts)),
                None => None,
            }
        } else if k == "until"@ {
            match t.until {
                Some(d) => Some(jv_date(d)),
                None => None,
            }
        } else if k == "wait"@ {
            match t.wait {
                Some(d) => Some(jv_date(d)),
                None => None,
            }
        } else if k == "urgency"@ {
            match t.urgency {
                Some(n) => Some(jv_num(n)),
                None => None,
            }
        } else {
            None
        }),
{
    lemma_distinct_fixed_names();
    let r1 = opt_entry(
        "priority"@,
        match t.priority {
            Some(p) => Some(JsonV::Str(crate::priority::priority_token(p))),
            None => None,
        },
    );
    let r2 = opt_entry(
        "project"@,
        match t.project {
            Some(s) => Some(JsonV::Str(s)),
            None => None,
        },
    );
    let r3 = opt_entry(
        "recur"@,
        match t.recur {
            Some(s) => Some(JsonV::Str(s)),
            None => None,
        },
    );
    let r4 = opt_entry(
        "scheduled"@,
        match t.scheduled {
            Some(d) => Some(jv_date(d)),
            None => None,
        },
    );
    let r5 = opt_entry(
        "start"@,
        match t.start {
            Some(d) => Some(jv_date(d)),
            None => None,
        },
    );
    let r6 = opt_entry(
        "tags"@,
        match t.tags {
            Some(ts) => Some(jv_tags(ts)),
            None => None,
        },
    );
    let r7 = opt_entry(
        "until"@,
        match t.until {
            Some(d) => Some(jv_date(d)),
            None => None,
        },
    );
    let r8 = opt_entry(
        "wait"@,
        match t.wait {
            Some(d) => Some(jv_date(d)),
            None => None,
        },
    );
    let r9 = opt_entry(
        "urgency"@,
        match t.urgency {
            Some(n) => Some(jv_num(n)),
            None => None,
        },
    );
    assert(encode_opts2(t) == r1 + r2 + r3 + r4 + r5 + r6 + r7 + r8 + r9);
    lemma_find_concat(r1 + r2 + r3 + r4 + r5 + r6 + r7 + r8, r9, k);
    lemma_find_concat(r1 + r2 + r3 + r4 + r5 + r6 + r7, r8, k);
    lemma_find_concat(r1 + r2 + r3 + r4 + r5 + r6, r7, k);
    lemma_find_concat(r1 + r2 + r3 + r4 + r5, r6, k);
    lemma_find_concat(r1 + r2 + r3 + r4, r5, k);
    lemma_find_concat(r1 + r2 + r3, r4, k);
    lemma_find_concat(r1 + r2, r3, k);
    lemma_find_concat(r1, r2, k);
    lemma_find_opt_entry("priority"@, match t.priority {
        Some(p) => Some(JsonV::Str(crate::priority::priority_token(p))),
        None => None,
    }, k);
    lemma_find_opt_entry("project"@, match t.project {
        Some(s) => Some(JsonV::Str(s)),
        None => None,
    }, k);
    lemma_find_opt_entry("recur"@, match t.recur {
        Some(s) => Some(JsonV::Str(s)),
        None => None,
    }, k);
    lemma_find_opt_entry("scheduled"@, match t.scheduled {
        Some(d) => Some(jv_date(d)),
        None => None,
    }, k);
    lemma_find_opt_entry("start"@, match t.start {
        Some(d) => Some(jv_date(d)),
        None => None,
    }, k);
    lemma_find_opt_entry("tags"@, match t.tags {
        Some(ts) => Some(jv_tags(ts)),
        None => None,
    }, k);
    lemma_find_opt_entry("until"@, match t.until {
        Some(d) => Some(jv_date(d)),
        None => None,
    }, k);
    lemma_find_opt_entry("wait"@, match t.wait {
        Some(d) => Some(jv_date(d)),
        None => None,
    }, k);
    lemma_find_opt_entry("urgency"@, match t.urgency {
        Some(n) => Some(jv_num(n)),
        None => None,
    }, k);
}

/// Lookup in a fixed field name within an encoded task finds exactly the
/// encoded field.
#[verifier::rlimit(100)]
pub proof fn lemma_find_enc(t: TaskV, legacy: bool, k: Seq<char>)
    requires
        uda_keys_open(t),
        is_fixed_key(k),
    ensures
        find_key(encode_task(t, legacy), k) == enc_lookup(t, legacy, k),
{
    lemma_distinct_fixed_names();
    let h = encode_head(t);
    let o1 = encode_opts1(t, legacy);
    let o2 = encode_opts2(t);
    let u = uda_entries(t.uda);
    assert(encode_task(t, legacy) == h + o1 + o2 + u);
    lemma_find_concat(h + o1 + o2, u, k);
    lemma_find_concat(h + o1, o2, k);
    lemma_find_concat(h, o1, k);
    assert(find_key(u, k) is None) by {
        assert(forall|j: int| 0 <= j < u.len() ==> (#[trigger] u[j]).0 == t.uda[j].0);
        lemma_find_none(u, k, 0);
    }
    lemma_find_head(t, k);
    lemma_find_opts1(t, legacy, k);
    lemma_find_opts2(t, k);
}

/// Scanning past the first part of a concatenation scans the second part.
proof fn lemma_scan_offset(
    m: Seq<(Seq<char>, UDAV)>,
    a: Seq<(Seq<char>, JsonV)>,
    b: Seq<(Seq<char>, JsonV)>,
    j: int,
)
    requires
        0 <= j <= b.len(),
    ensures
        uda_scan_at(m, a + b, a.len() + j) == uda_scan_at(m, b, j),
    decreases b.len() - j,
{
    if j < b.len() {
        assert((a + b)[a.len() + j] == b[j]);
        if !is_fixed_key(b[j].0) {
            match sniff_uda(b[j].1) {
                Some(u) => {
                    lemma_scan_offset(crate::uda::uda_insert(m, b[j].0, u), a, b, j + 1);
                },
                None => {
                },
            }
        } else {
            lemma_scan_offset(m, a, b, j + 1);
        }
    }
}

/// The UDA scan distributes over concatenation.
proof fn lemma_scan_concat_from(
    m: Seq<(Seq<char>, UDAV)>,
    a: Seq<(Seq<char>, JsonV)>,
    b: Seq<(Seq<char>, JsonV)>,
    i: int,
)
    requires
        0 <= i <= a.len(),
    ensures
        uda_scan_at(m, a + b, i) == match uda_scan_at(m, a, i) {
            Ok(m2) => uda_scan_at(m2, b, 0),
            Err(e) => Err(e),
        },
    decreases a.len() - i,
{
    if i == a.len() {
        lemma_scan_offset(m, a, b, 0);
    } else {
        assert((a + b)[i] == a[i]);
        if !is_fixed_key(a[i].0) {
            match sniff_uda(a[i].1) {
                Some(u) => {
                    lemma_scan_concat_from(crate::uda::uda_insert(m, a[i].0, u), a, b, i + 1);
                },
                None => {
                },
            }
        } else {
            lemma_scan_concat_from(m, a, b, i + 1);
        }
    }
}

/// Entries under fixed names contribute nothing to the UDA scan.
proof fn lemma_scan_fixed(m: Seq<(Seq<char>, UDAV)>, es: Seq<(Seq<char>, JsonV)>, i: int)
    requires
        0 <= i <= es.len(),
        all_keys_fixed(es),
    ensures
        uda_scan_at(m, es, i) == Ok::<_, Seq<char>>(m),
    decreases es.len() - i,
{
    if i < es.len() {
        lemma_scan_fixed(m, es, i + 1);
    }
}

/// Scanning the encoded UDA entries of a sorted map, having already
/// rebuilt the part before `i`, rebuilds the whole map.
proof fn lemma_scan_uda(all: Seq<(Seq<char>, UDAV)>, i: int)
    requires
        0 <= i <= all.len(),
        keys_sorted(all),
        forall|j: int| 0 <= j < all.len() ==> !is_fixed_key((#[trigger] all[j]).0),
    ensures
        uda_scan_at(all.subrange(0, i), uda_entries(all), i) == Ok::<_, Seq<char>>(all),
    decreases all.len() - i,
{
    let u = uda_entries(all);
    if i == all.len() {
        assert(all.subrange(0, i) =~= all);
    } else {
        assert(u[i] == (all[i].0, uda_jv(all[i].1)));
        assert(sniff_uda(uda_jv(all[i].1)) == Some(all[i].1));
        let m = all.subrange(0, i);
        assert(forall|j: int| 0 <= j < m.len() ==> lex_lt((#[trigger] m[j]).0, all[i].0));
        lemma_uda_insert_append(m, all[i].0, all[i].1);
        assert(m.push((all[i].0, all[i].1)) =~= all.subrange(0, i + 1));
        lemma_scan_uda(all, i + 1);
    }
}

/// Whether every entry's key is a fixed schema name.
pub open spec fn all_keys_fixed(es: Seq<(Seq<char>, JsonV)>) -> bool {
    forall|i: int| 0 <= i < es.len() ==> is_fixed_key((#[trigger] es[i]).0)
}

/// Concatenation keeps keys fixed.
proof fn lemma_all_fixed_concat(a: Seq<(Seq<char>, JsonV)>, b: Seq<(Seq<char>, JsonV)>)
    requires
        all_keys_fixed(a),
        all_keys_fixed(b),
    ensures
        all_keys_fixed(a + b),
{
    assert forall|i: int| 0 <= i < (a + b).len() implies is_fixed_key((#[trigger] (a + b)[i]).0) by {
        if i < a.len() {
            assert((a + b)[i] == a[i]);
        } else {
            assert((a + b)[i] == b[i - a.len()]);
        }
    }
}

/// A one-or-zero-entry piece under a fixed name has only fixed keys.
proof fn lemma_all_fixed_opt(name: Seq<char>, v: Option<JsonV>)
    requires
        is_fixed_key(name),
    ensures
        all_keys_fixed(opt_entry(name, v)),
{
}

/// Every key of the encoded head is a fixed name.
#[verifier::rlimit(100)]
proof fn lemma_head_keys_fixed(t: TaskV)
    ensures
        all_keys_fixed(encode_head(t)),
{
    let p_id = opt_entry(
        "id"@,
        match t.id {
            Some(x) => Some(JsonV::U64(x)),
            None => None,
        },
    );
    let p_status = opt_entry("status"@, Some(JsonV::Str(crate::status::status_token(t.status))));
    let p_uuid = opt_entry("uuid"@, Some(JsonV::Str(uuid_text(t.uuid))));
    let p_entry = opt_entry("entry"@, Some(JsonV::Str(date_text(t.entry))));
    let p_desc = opt_entry("description"@, Some(JsonV::Str(t.description)));
    lemma_all_fixed_opt("id"@, match t.id {
        Some(x) => Some(JsonV::U64(x)),
        None => None,
    });
    lemma_all_fixed_opt("status"@, Some(JsonV::Str(crate::status::status_token(t.status))));
    lemma_all_fixed_opt("uuid"@, Some(JsonV::Str(uuid_text(t.uuid))));
    lemma_all_fixed_opt("entry"@, Some(JsonV::Str(date_text(t.entry))));
    lemma_all_fixed_opt("description"@, Some(JsonV::Str(t.description)));
    lemma_all_fixed_concat(p_id, p_status);
    lemma_all_fixed_concat(p_id + p_status, p_uuid);
    lemma_all_fixed_concat(p_id + p_status + p_uuid, p_entry);
    lemma_all_fixed_concat(p_id + p_status + p_uuid + p_entry, p_desc);
    assert(p_status == seq![("status"@, JsonV::Str(crate::status::status_token(t.status)))]);
    assert(p_uuid == seq![("uuid"@, JsonV::Str(uuid_text(t.uuid)))]);
    assert(p_entry == seq![("entry"@, JsonV::Str(date_text(t.entry)))]);
    assert(p_desc == seq![("description"@, JsonV::Str(t.description))]);
    assert(encode_head(t) == p_id + p_status + p_uuid + p_entry + p_desc);
}

/// Every key of the first optional group is a fixed name.
#[verifier::rlimit(100)]
proof fn lemma_opts1_keys_fixed(t: TaskV, legacy: bool)
    ensures
        all_keys_fixed(encode_opts1(t, legacy)),
{
    let q1 = opt_entry(
        "annotations"@,
        match t.annotations {
            Some(ans) => Some(jv_anns(ans)),
            None => None,
        },
    );
    let q2 = opt_entry(
        "depends"@,
        match t.depends {
            Some(us) => Some(jv_depends(us, legacy)),
            None => None,
        },
    );
    let q3 = opt_entry(
        "due"@,
        match t.due {
            Some(d) => Some(jv_date(d)),
            None => None,
        },
    );
    let q4 = opt_entry(
        "end"@,
        match t.end {
            Some(d) => Some(jv_date(d)),
            None => None,
        },
    );
    let q5 = opt_entry(
        "imask"@,
        match t.imask {
            Some(n) => Some(jv_num(n)),
            None => None,
        },
    );
    let q6 = opt_entry(
        "mask"@,
        match t.mask {
            Some(s) => Some(JsonV::Str(s)),
            None => None,
        },
    );
    let q7 = opt_entry(
        "modified"@,
        match t.modified {
            Some(d) => Some(jv_date(d)),
            None => None,
        },
    );
    let q8 = opt_entry(
        "parent"@,
        match t.parent {
            Some(x) => Some(jv_uuid(x)),
            None => None,
        },
    );
    assert(all_keys_fixed(q1) && all_keys_fixed(q2) && all_keys_fixed(q3) && all_keys_fixed(q4)
        && all_keys_fixed(q5) && all_keys_fixed(q6) && all_keys_fixed(q7) && all_keys_fixed(q8))
        by {
        lemma_all_fixed_opt("annotations"@, match t.annotations {
            Some(ans) => Some(jv_anns(ans)),
            None => None,
        });
        lemma_all_fixed_opt("depends"@, match t.depends {
            Some(us) => Some(jv_depends(us, legacy)),
            None => None,
        });
        lemma_all_fixed_opt("due"@, match t.due {
            Some(d) => Some(jv_date(d)),
            None => None,
        });
        lemma_all_fixed_opt("end"@, match t.end {
            Some(d) => Some(jv_date(d)),
            None => None,
        });
        lemma_all_fixed_opt("imask"@, match t.imask {
            Some(n) => Some(jv_num(n)),
            None => None,
        });
        lemma_all_fixed_opt("mask"@, match t.mask {
            Some(s) => Some(JsonV::Str(s)),
            None => None,
        });
        lemma_all_fixed_opt("modified"@, match t.modified {
            Some(d) => Some(jv_date(d)),
            None => None,
        });
        lemma_all_fixed_opt("parent"@, match t.parent {
            Some(x) => Some(jv_uuid(x)),
            None => None,
        });
    }
    lemma_all_fixed_concat(q1, q2);
    lemma_all_fixed_concat(q1 + q2, q3);
    lemma_all_fixed_concat(q1 + q2 + q3, q4);
    lemma_all_fixed_concat(q1 + q2 + q3 + q4, q5);
    lemma_all_fixed_concat(q1 + q2 + q3 + q4 + q5, q6);
    lemma_all_fixed_concat(q1 + q2 + q3 + q4 + q5 + q6, q7);
    lemma_all_fixed_concat(q1 + q2 + q3 + q4 + q5 + q6 + q7, q8);
    assert(encode_opts1(t, legacy) == q1 + q2 + q3 + q4 + q5 + q6 + q7 + q8);
}

/// Every key of the second optional group is a fixed name.
#[verifier::rlimit(100)]
proof fn lemma_opts2_keys_fixed(t: TaskV)
    ensures
        all_keys_fixed(encode_opts2(t)),
{
    let r1 = opt_entry(
        "priority"@,
        match t.priority {
            Some(p) => Some(JsonV::Str(crate::priority::priority_token(p))),
            None => None,
        },
    );
    let r2 = opt_entry(
        "project"@,
        match t.project {
            Some(s) => Some(JsonV::Str(s)),
            None => None,
        },
    );
    let r3 = opt_entry(
        "recur"@,
        match t.recur {
            Some(s) => Some(JsonV::Str(s)),
            None => None,
        },
    );
    let r4 = opt_entry(
        "scheduled"@,
        match t.scheduled {
            Some(d) => Some(jv_date(d)),
            None => None,
        },
    );
    let r5 = opt_entry(
        "start"@,
        match t.start {
            Some(d) => Some(jv_date(d)),
            None => None,
        },
    );
    let r6 = opt_entry(
        "tags"@,
        match t.tags {
            Some(ts) => Some(jv_tags(ts)),
            None => None,
        },
    );
    let r7 = opt_entry(
        "until"@,
        match t.until {
            Some(d) => Some(jv_date(d)),
            None => None,
        },
    );
    let r8 = opt_entry(
        "wait"@,
        match t.wait {
            Some(d) => Some(jv_date(d)),
            None => None,
        },
    );
    let r9 = opt_entry(
        "urgency"@,
        match t.urgency {
            Some(n) => Some(jv_num(n)),
            None => None,
        },
    );
    assert(all_keys_fixed(r1) && all_keys_fixed(r2) && all_keys_fixed(r3) && all_keys_fixed(r4)
        && all_keys_fixed(r5) && all_keys_fixed(r6) && all_keys_fixed(r7) && all_keys_fixed(r8)
        && all_keys_fixed(r9)) by {
        lemma_all_fixed_opt("priority"@, match t.priority {
            Some(p) => Some(JsonV::Str(crate::priority::priority_token(p))),
            None => None,
        });
        lemma_all_fixed_opt("project"@, match t.project {
            Some(s) => Some(JsonV::Str(s)),
            None => None,
        });
        lemma_all_fixed_opt("recur"@, match t.recur {
            Some(s) => Some(JsonV::Str(s)),
            None => None,
        });
        lemma_all_fixed_opt("scheduled"@, match t.scheduled {
            Some(d) => Some(jv_date(d)),
            None => None,
        });
        lemma_all_fixed_opt("start"@, match t.start {
            Some(d) => Some(jv_date(d)),
            None => None,
        });
        lemma_all_fixed_opt("tags"@, match t.tags {
            Some(ts) => Some(jv_tags(ts)),
            None => None,
        });
        lemma_all_fixed_opt("until"@, match t.until {
            Some(d) => Some(jv_date(d)),
            None => None,
        });
        lemma_all_fixed_opt("wait"@, match t.wait {
            Some(d) => Some(jv_date(d)),
            None => None,
        });
        lemma_all_fixed_opt("urgency"@, match t.urgency {
            Some(n) => Some(jv_num(n)),
            None => None,
        });
    }
    lemma_all_fixed_concat(r1, r2);
    lemma_all_fixed_concat(r1 + r2, r3);
    lemma_all_fixed_concat(r1 + r2 + r3, r4);
    lemma_all_fixed_concat(r1 + r2 + r3 + r4, r5);
    lemma_all_fixed_concat(r1 + r2 + r3 + r4 + r5, r6);
    lemma_all_fixed_concat(r1 + r2 + r3 + r4 + r5 + r6, r7);
    lemma_all_fixed_concat(r1 + r2 + r3 + r4 + r5 + r6 + r7, r8);
    lemma_all_fixed_concat(r1 + r2 + r3 + r4 + r5 + r6 + r7 + r8, r9);
    assert(encode_opts2(t) == r1 + r2 + r3 + r4 + r5 + r6 + r7 + r8 + r9);
}

/// Every key of an encoded task's fixed part is a fixed name.
proof fn lemma_enc_keys_fixed(t: TaskV, legacy: bool)
    ensures
        all_keys_fixed(encode_head(t)),
        all_keys_fixed(encode_opts1(t, legacy)),
        all_keys_fixed(encode_opts2(t)),
{
    lemma_head_keys_fixed(t);
    lemma_opts1_keys_fixed(t, legacy);
    lemma_opts2_keys_fixed(t);
}

/// The UDA scan of an encoded task rebuilds exactly the task's UDA map.
proof fn lemma_scan_enc(t: TaskV, legacy: bool)
    requires
        keys_sorted(t.uda),
        uda_keys_open(t),
    ensures
        uda_scan(encode_task(t, legacy)) == Ok::<_, Seq<char>>(t.uda),
{
    let h = encode_head(t);
    let o1 = encode_opts1(t, legacy);
    let o2 = encode_opts2(t);
    let u = uda_entries(t.uda);
    let empty = Seq::<(Seq<char>, UDAV)>::empty();
    lemma_enc_keys_fixed(t, legacy);
    lemma_scan_concat_from(empty, h + o1 + o2, u, 0);
    lemma_scan_concat_from(empty, h + o1, o2, 0);
    lemma_scan_concat_from(empty, h, o1, 0);
    lemma_scan_fixed(empty, h, 0);
    lemma_scan_fixed(empty, o1, 0);
    lemma_scan_fixed(empty, o2, 0);
    assert(t.uda.subrange(0, 0) =~= empty);
    lemma_scan_uda(t.uda, 0);
}

/// The first comma at or after `i` is exactly at `m` when nothing before
/// `m` is a comma and `m` is a comma or the end.
proof fn lemma_comma_at(s: Seq<char>, i: int, m: int)
    requires
        0 <= i <= m <= s.len(),
        forall|j: int| i <= j < m ==> s[j] != ',',
        m == s.len() || s[m] == ',',
    ensures
        comma_from(s, i) == m,
    decreases m - i,
{
    if i < m {
        lemma_comma_at(s, i + 1, m);
    }
}

/// Finding a comma commutes with taking a suffix.
proof fn lemma_comma_shift(s: Seq<char>, base: int, x: int)
    requires
        0 <= base <= s.len(),
        0 <= x <= s.len() - base,
    ensures
        comma_from(s, base + x) == base + comma_from(s.subrange(base, s.len() as int), x),
    decreases s.len() - base - x,
{
    let suf = s.subrange(base, s.len() as int);
    if base + x < s.len() {
        assert(s[base + x] == suf[x]);
        if s[base + x] != ',' {
            lemma_comma_shift(s, base, x + 1);
        }
    }
}

/// Splitting from an index splits the suffix.
proof fn lemma_split_from_suffix(s: Seq<char>, i: int)
    requires
        0 <= i <= s.len(),
    ensures
        split_from(s, i) == split_commas(s.subrange(i, s.len() as int)),
    decreases s.len() - i,
{
    let suf = s.subrange(i, s.len() as int);
    lemma_comma_shift(s, i, 0);
    let j = comma_from(s, i);
    lemma_comma_from_bounds(s, i);
    assert(comma_from(suf, 0) == j - i);
    assert(s.subrange(i, j) =~= suf.subrange(0, j - i));
    if j == s.len() {
        assert(split_from(s, i) =~= seq![suf.subrange(0, j - i)]);
        assert(split_commas(suf) =~= seq![suf.subrange(0, j - i)]);
    } else {
        lemma_split_from_suffix(s, j + 1);
        assert(s.subrange(j + 1, s.len() as int) =~= suf.subrange(j - i + 1, suf.len() as int));
        lemma_split_from_suffix(suf, j - i + 1);
    }
}

/// Joining two or more segments starts with the first segment and a comma.
proof fn lemma_join_head(ts: Seq<Seq<char>>)
    requires
        ts.len() >= 2,
    ensures
        join_commas(ts) == ts[0] + seq![','] + join_commas(ts.drop_first()),
    decreases ts.len(),
{
    if ts.len() == 2 {
        assert(ts.drop_last() =~= seq![ts[0]]);
        assert(ts.drop_first() =~= seq![ts[1]]);
        assert(join_commas(seq![ts[0]]) == ts[0]);
        assert(join_commas(seq![ts[1]]) == ts[1]);
        assert(join_commas(ts) == join_commas(ts.drop_last()) + seq![','] + ts.last());
        assert(ts.last() == ts[1]);
    } else {
        let front = ts.drop_last();
        let rest = ts.drop_first();
        lemma_join_head(front);
        assert(join_commas(ts) == join_commas(front) + seq![','] + ts.last());
        assert(front[0] == ts[0]);
        assert(join_commas(front) == ts[0] + seq![','] + join_commas(front.drop_first()));
        assert(rest.drop_last() =~= front.drop_first());
        assert(rest.last() == ts.last());
        assert(rest.len() >= 2);
        assert(join_commas(rest) == join_commas(rest.drop_last()) + seq![','] + rest.last());
        assert(join_commas(rest) == join_commas(front.drop_first()) + seq![','] + ts.last());
        assert((ts[0] + seq![','] + join_commas(front.drop_first())) + seq![','] + ts.last()
            =~= ts[0] + seq![','] + (join_commas(front.drop_first()) + seq![','] + ts.last()));
    }
}

/// Splitting a comma-joined list of comma-free segments gives the segments
/// back.
pub proof fn lemma_split_join(ts: Seq<Seq<char>>)
    requires
        ts.len() >= 1,
        forall|i: int, j: int|
            0 <= i < ts.len() && 0 <= j < ts[i].len() ==> #[trigger] ts[i][j] != ',',
    ensures
        split_commas(join_commas(ts)) == ts,
    decreases ts.len(),
{
    let s = join_commas(ts);
    if ts.len() == 1 {
        assert(s == ts[0]);
        lemma_comma_at(s, 0, s.len() as int);
        assert(split_commas(s) =~= seq![s.subrange(0, s.len() as int)]);
        assert(s.subrange(0, s.len() as int) =~= ts[0]);
        assert(split_commas(s) =~= ts);
    } else {
        let head = ts[0];
        let rest = ts.drop_first();
        lemma_join_head(ts);
        assert(s == head + seq![','] + join_commas(rest));
        let hl = head.len() as int;
        assert(forall|j: int| 0 <= j < hl ==> s[j] != ',') by {
            assert(forall|j: int| 0 <= j < hl ==> s[j] == head[j]);
        }
        assert(s[hl] == ',');
        lemma_comma_at(s, 0, hl);
        assert(split_commas(s) == seq![s.subrange(0, hl)] + split_from(s, hl + 1));
        assert(s.subrange(0, hl) =~= head);
        lemma_split_from_suffix(s, hl + 1);
        assert(s.subrange(hl + 1, s.len() as int) =~= join_commas(rest));
        assert forall|i: int, j: int|
            0 <= i < rest.len() && 0 <= j < rest[i].len() implies #[trigger] rest[i][j] != ',' by {
            assert(rest[i] == ts[i + 1]);
        }
        lemma_split_join(rest);
        assert(split_commas(s) =~= ts);
    }
}

/// No character of a UUID's wire text is a comma.
proof fn lemma_uuid_text_no_comma(u: Uuid)
    ensures
        forall|j: int| 0 <= j < uuid_text(u).len() ==> uuid_text(u)[j] != ',',
{
    crate::strutil::lemma_pow16_small();
    crate::strutil::lemma_fmt_hex(u.0 as int, 32);
    let f = crate::strutil::fmt_hex(u.0 as int, 32);
    let s = uuid_text(u);
    assert forall|j: int| 0 <= j < s.len() implies s[j] != ',' by {
        if s[j] == '-' {
            assert(('-' as u32) != (',' as u32));
        } else {
            assert(s.len() == 36);
            let c = s[j];
            assert(crate::strutil::is_hex(c) || c == '-') by {
                if j < 8 {
                    assert(s[j] == f[j]);
                } else if j == 8 {
                } else if j < 13 {
                    assert(s[j] == f[j - 1]);
                } else if j == 13 {
                } else if j < 18 {
                    assert(s[j] == f[j - 2]);
                } else if j == 18 {
                } else if j < 23 {
                    assert(s[j] == f[j - 3]);
                } else if j == 23 {
                } else {
                    assert(s[j] == f[j - 4]);
                }
            }
            if crate::strutil::is_hex(c) {
                assert((c as u32) != (',' as u32));
            }
        }
    }
}

/// One annotation round-trips through its wire object.
proof fn lemma_ann_round_trip(a: AnnotationV)
    requires
        a.entry.wf(),
    ensures
        dec_annotation(jv_ann(a)) == Some(a),
{
    lemma_distinct_fixed_names();
    let es = seq![("entry"@, jv_date(a.entry)), ("description"@, JsonV::Str(a.description))];
    assert(es.len() == 2);
    assert(es[0] == ("entry"@, jv_date(a.entry)));
    assert(es[1] == ("description"@, JsonV::Str(a.description)));
    assert(find_key(es, "entry"@) == Some(jv_date(a.entry))) by {
        reveal_with_fuel(find_from, 3);
    }
    assert(find_key(es, "description"@) == Some(JsonV::Str(a.description))) by {
        reveal_with_fuel(find_from, 3);
        assert(es[0].0 != "description"@);
    }
    crate::date::lemma_date_round_trip(a.entry);
    assert(jv_ann(a) == JsonV::Obj(es));
    assert(dec_opt_date(find_key(es, "entry"@)) == Ok::<_, ()>(Some(a.entry)));
    assert(dec_opt_string(find_key(es, "description"@)) == Ok::<_, ()>(Some(a.description)));
}

/// Whether every component of the task can be carried by the wire format:
/// its dates (the entry date, each optional date, and each annotation's
/// date) lie in the template's ranges, and its UDA keys are strictly
/// sorted.
pub open spec fn wf_task(t: TaskV) -> bool {
    &&& t.entry.wf()
    &&& (t.due matches Some(d) ==> d.wf())
    &&& (t.end matches Some(d) ==> d.wf())
    &&& (t.modified matches Some(d) ==> d.wf())
    &&& (t.scheduled matches Some(d) ==> d.wf())
    &&& (t.start matches Some(d) ==> d.wf())
    &&& (t.until matches Some(d) ==> d.wf())
    &&& (t.wait matches Some(d) ==> d.wf())
    &&& (t.annotations matches Some(ans) ==> forall|i: int|
        0 <= i < ans.len() ==> (#[trigger] ans[i]).entry.wf())
    &&& keys_sorted(t.uda)
}

/// Whether the wire format can carry the task's dependency list: the
/// legacy comma-joined string cannot carry an empty one, since splitting
/// the empty string yields one empty, unparseable segment.
pub open spec fn depends_carriable(t: TaskV, legacy: bool) -> bool {
    legacy ==> match t.depends {
        Some(us) => us.len() >= 1,
        None => true,
    }
}

/// The value decoders invert the value encoders for annotations.
proof fn lemma_dec_annotations_enc(ans: Seq<AnnotationV>)
    requires
        forall|i: int| 0 <= i < ans.len() ==> (#[trigger] ans[i]).entry.wf(),
    ensures
        dec_opt_annotations(Some(jv_anns(ans))) == Ok::<Option<Seq<AnnotationV>>, ()>(Some(ans)),
{
    let a = Seq::new(ans.len(), |i: int| jv_ann(ans[i]));
    assert forall|i: int| 0 <= i < a.len() implies #[trigger] dec_annotation(a[i]) is Some by {
        lemma_ann_round_trip(ans[i]);
    }
    lemma_dec_annotations_char(a);
    assert(dec_annotations_seq(a)->0 =~= ans) by {
        assert forall|i: int| 0 <= i < a.len() implies dec_annotation(#[trigger] a[i])->0
            == ans[i] by {
            lemma_ann_round_trip(ans[i]);
        }
    }
}

/// The value decoders invert the value encoders for tags.
proof fn lemma_dec_tags_enc(ts: Seq<Seq<char>>)
    ensures
        dec_opt_tags(Some(jv_tags(ts))) == Ok::<Option<Seq<Seq<char>>>, ()>(Some(ts)),
{
    let a = Seq::new(ts.len(), |i: int| JsonV::Str(ts[i]));
    lemma_dec_strings_char(a);
    assert(dec_strings(a) is Some);
    assert(dec_strings(a)->0 =~= ts);
}

/// **Depends format duality.** A dependency list encodes under the legacy
/// format as one comma-joined string and under the current format as an
/// array of UUID strings, and either encoding decodes back to the same
/// list; the legacy format needs a nonempty list, since its encoding of an
/// empty one — the empty string — splits into one empty, unparseable
/// segment.
pub proof fn lemma_dec_depends_enc(us: Seq<Uuid>, legacy: bool)
    requires
        legacy ==> us.len() >= 1,
    ensures
        dec_depends(Some(jv_depends(us, legacy)), legacy) == Ok::<Option<Seq<Uuid>>, ()>(Some(us)),
{
    let texts = uuid_texts(us);
    assert forall|i: int| 0 <= i < texts.len() implies #[trigger] uuid_of_text(texts[i]) == Some(
        us[i],
    ) by {
        lemma_uuid_round_trip(us[i]);
    }
    if legacy {
        assert forall|i: int, j: int|
            0 <= i < texts.len() && 0 <= j < texts[i].len() implies #[trigger] texts[i][j]
            != ',' by {
            lemma_uuid_text_no_comma(us[i]);
            assert(texts[i] == uuid_text(us[i]));
        }
        lemma_split_join(texts);
        lemma_dec_uuid_texts_char(texts);
        assert(dec_uuid_texts(texts)->0 =~= us);
    } else {
        let a = Seq::new(us.len(), |i: int| JsonV::Str(uuid_text(us[i])));
        lemma_dec_strings_char(a);
        assert(dec_strings(a) is Some);
        assert(dec_strings(a)->0 =~= texts);
        lemma_dec_uuid_texts_char(texts);
        assert(dec_uuid_texts(texts)->0 =~= us);
    }
}

/// The head field decoders invert the encoders on an encoded task.
#[verifier::rlimit(100)]
proof fn lemma_dec_fields_head(t: TaskV, legacy: bool)
    requires
        wf_task(t),
        depends_carriable(t, legacy),
        uda_keys_open(t),
    ensures
        dec_opt_u64(find_key(encode_task(t, legacy), "id"@)) == Ok::<Option<u64>, ()>(t.id),
        dec_opt_status(find_key(encode_task(t, legacy), "status"@)) == Ok::<
            Option<crate::status::TaskStatus>,
            (),
        >(Some(t.status)),
        dec_opt_uuid(find_key(encode_task(t, legacy), "uuid"@)) == Ok::<Option<Uuid>, ()>(
            Some(t.uuid),
        ),
        dec_opt_date(find_key(encode_task(t, legacy), "entry"@)) == Ok::<Option<Date>, ()>(
            Some(t.entry),
        ),
        dec_opt_string(find_key(encode_task(t, legacy), "description"@)) == Ok::<
            Option<Seq<char>>,
            (),
        >(Some(t.description)),
{
    lemma_distinct_fixed_names();
    lemma_find_enc(t, legacy, "id"@);
    lemma_find_enc(t, legacy, "status"@);
    lemma_find_enc(t, legacy, "uuid"@);
    lemma_find_enc(t, legacy, "entry"@);
    lemma_find_enc(t, legacy, "description"@);
    lemma_status_token_round_trip(t.status);
    lemma_uuid_round_trip(t.uuid);
    crate::date::lemma_date_round_trip(t.entry);
}

/// The first optional group's decoders invert the encoders.
#[verifier::rlimit(100)]
proof fn lemma_dec_fields_opts1(t: TaskV, legacy: bool)
    requires
        wf_task(t),
        depends_carriable(t, legacy),
        uda_keys_open(t),
    ensures
        dec_opt_annotations(find_key(encode_task(t, legacy), "annotations"@)) == Ok::<
            Option<Seq<AnnotationV>>,
            (),
        >(t.annotations),
        dec_depends(find_key(encode_task(t, legacy), "depends"@), legacy) == Ok::<
            Option<Seq<Uuid>>,
            (),
        >(t.depends),
        dec_opt_date(find_key(encode_task(t, legacy), "due"@)) == Ok::<Option<Date>, ()>(t.due),
        dec_opt_date(find_key(encode_task(t, legacy), "end"@)) == Ok::<Option<Date>, ()>(t.end),
        dec_opt_num(find_key(encode_task(t, legacy), "imask"@)) == Ok::<
            Option<crate::json::NumV>,
            (),
        >(t.imask),
        dec_opt_string(find_key(encode_task(t, legacy), "mask"@)) == Ok::<Option<Seq<char>>, ()>(
            t.mask,
        ),
        dec_opt_date(find_key(encode_task(t, legacy), "modified"@)) == Ok::<Option<Date>, ()>(
            t.modified,
        ),
        dec_opt_uuid(find_key(encode_task(t, legacy), "parent"@)) == Ok::<Option<Uuid>, ()>(
            t.parent,
        ),
{
    lemma_distinct_fixed_names();
    lemma_find_enc(t, legacy, "annotations"@);
    lemma_find_enc(t, legacy, "depends"@);
    lemma_find_enc(t, legacy, "due"@);
    lemma_find_enc(t, legacy, "end"@);
    lemma_find_enc(t, legacy, "imask"@);
    lemma_find_enc(t, legacy, "mask"@);
    lemma_find_enc(t, legacy, "modified"@);
    lemma_find_enc(t, legacy, "parent"@);
    match t.parent {
        Some(u) => lemma_uuid_round_trip(u),
        None => {},
    }
    match t.due {
        Some(d) => crate::date::lemma_date_round_trip(d),
        None => {},
    }
    match t.end {
        Some(d) => crate::date::lemma_date_round_trip(d),
        None => {},
    }
    match t.modified {
        Some(d) => crate::date::lemma_date_round_trip(d),
        None => {},
    }
    match t.annotations {
        Some(ans) => lemma_dec_annotations_enc(ans),
        None => {},
    }
    match t.depends {
        Some(us) => lemma_dec_depends_enc(us, legacy),
        None => {},
    }
}

/// The second optional group's decoders invert the encoders, and the UDA
/// scan rebuilds the UDA map.
#[verifier::rlimit(100)]
proof fn lemma_dec_fields_opts2(t: TaskV, legacy: bool)
    requires
        wf_task(t),
        depends_carriable(t, legacy),
        uda_keys_open(t),
    ensures
        dec_opt_priority(find_key(encode_task(t, legacy), "priority"@)) == Ok::<
            Option<crate::priority::TaskPriority>,
            (),
        >(t.priority),
        dec_opt_string(find_key(encode_task(t, legacy), "project"@)) == Ok::<
            Option<Seq<char>>,
            (),
        >(t.project),
        dec_opt_string(find_key(encode_task(t, legacy), "recur"@)) == Ok::<Option<Seq<char>>, ()>(
            t.recur,
        ),
        dec_opt_date(find_key(encode_task(t, legacy), "scheduled"@)) == Ok::<Option<Date>, ()>(
            t.scheduled,
        ),
        dec_opt_date(find_key(encode_task(t, legacy), "start"@)) == Ok::<Option<Date>, ()>(
            t.start,
        ),
        dec_opt_tags(find_key(encode_task(t, legacy), "tags"@)) == Ok::<
            Option<Seq<Seq<char>>>,
            (),
        >(t.tags),
        dec_opt_date(find_key(encode_task(t, legacy), "until"@)) == Ok::<Option<Date>, ()>(
            t.until,
        ),
        dec_opt_date(find_key(encode_task(t, legacy), "wait"@)) == Ok::<Option<Date>, ()>(t.wait),
        dec_opt_num(find_key(encode_task(t, legacy), "urgency"@)) == Ok::<
            Option<crate::json::NumV>,
            (),
        >(t.urgency),
        uda_scan(encode_task(t, legacy)) == Ok::<_, Seq<char>>(t.uda),
{
    lemma_distinct_fixed_names();
    lemma_find_enc(t, legacy, "priority"@);
    lemma_find_enc(t, legacy, "project"@);
    lemma_find_enc(t, legacy, "recur"@);
    lemma_find_enc(t, legacy, "scheduled"@);
    lemma_find_enc(t, legacy, "start"@);
    lemma_find_enc(t, legacy, "tags"@);
    lemma_find_enc(t, legacy, "until"@);
    lemma_find_enc(t, legacy, "wait"@);
    lemma_find_enc(t, legacy, "urgency"@);
    lemma_scan_enc(t, legacy);
    match t.scheduled {
        Some(d) => crate::date::lemma_date_round_trip(d),
        None => {},
    }
    match t.start {
        Some(d) => crate::date::lemma_date_round_trip(d),
        None => {},
    }
    match t.until {
        Some(d) => crate::date::lemma_date_round_trip(d),
        None => {},
    }
    match t.wait {
        Some(d) => crate::date::lemma_date_round_trip(d),
        None => {},
    }
    match t.priority {
        Some(p) => lemma_priority_token_round_trip(p),
        None => {},
    }
    match t.tags {
        Some(ts) => lemma_dec_tags_enc(ts),
        None => {},
    }
}

/// **Round trip.** Decoding an encoded task gives the task back, fieldwise,
/// under either wire format: nothing is lost, defaulted or reinterpreted.
/// The task must be well formed ([`wf_task`]) and its UDA names must stay
/// off the fixed schema names ([`uda_keys_open`]); a UDA bound to a fixed
/// name would come back as that field.
#[verifier::rlimit(100)]
pub proof fn lemma_round_trip(t: TaskV, legacy: bool)
    requires
        wf_task(t),
        depends_carriable(t, legacy),
        uda_keys_open(t),
    ensures
        decode_value(encode_value(t, legacy), legacy) == Ok::<TaskV, TaskErrorV>(t),
{
    let enc = encode_task(t, legacy);
    lemma_dec_fields_head(t, legacy);
    lemma_dec_fields_opts1(t, legacy);
    lemma_dec_fields_opts2(t, legacy);
    assert(decode_obj(enc, legacy) is Ok);
    let r = decode_obj(enc, legacy)->Ok_0;
    assert(r =~= t);
    assert(decode_value(encode_value(t, legacy), legacy) == decode_obj(enc, legacy));
}

/// **Absence preservation.** Encoding a task whose optional fields are all
/// absent and whose UDA map is empty yields an object holding only the
/// four required fields — and `id` ahead of them when present. No other
/// key appears, and nothing is emitted as `null`.
pub proof fn lemma_absence(t: TaskV, legacy: bool)
    requires
        t.annotations is None,
        t.depends is None,
        t.due is None,
        t.end is None,
        t.imask is None,
        t.mask is None,
        t.modified is None,
        t.parent is None,
        t.priority is None,
        t.project is None,
        t.recur is None,
        t.scheduled is None,
        t.start is None,
        t.tags is None,
        t.until is None,
        t.wait is None,
        t.urgency is None,
        t.uda.len() == 0,
    ensures
        encode_task(t, legacy) == opt_entry(
            "id"@,
            match t.id {
                Some(u) => Some(JsonV::U64(u)),
                None => None,
            },
        ) + seq![
            ("status"@, JsonV::Str(crate::status::status_token(t.status))),
            ("uuid"@, JsonV::Str(uuid_text(t.uuid))),
            ("entry"@, JsonV::Str(date_text(t.entry))),
            ("description"@, JsonV::Str(t.description)),
        ],
{
    assert(encode_task(t, legacy) =~= opt_entry(
        "id"@,
        match t.id {
            Some(u) => Some(JsonV::U64(u)),
            None => None,
        },
    ) + seq![
        ("status"@, JsonV::Str(crate::status::status_token(t.status))),
        ("uuid"@, JsonV::Str(uuid_text(t.uuid))),
        ("entry"@, JsonV::Str(date_text(t.entry))),
        ("description"@, JsonV::Str(t.description)),
    ]);
}

/// A key that no remaining entry carries keeps its binding through the
/// rest of the UDA scan.
proof fn lemma_scan_preserves(
    m: Seq<(Seq<char>, UDAV)>,
    es: Seq<(Seq<char>, JsonV)>,
    i: int,
    k: Seq<char>,
)
    requires
        0 <= i <= es.len(),
        forall|l: int| i <= l < es.len() ==> (#[trigger] es[l]).0 != k,
        uda_scan_at(m, es, i) is Ok,
    ensures
        uda_lookup(uda_scan_at(m, es, i)->Ok_0, k) == uda_lookup(m, k),
    decreases es.len() - i,
{
    if i < es.len() {
        if is_fixed_key(es[i].0) {
            lemma_scan_preserves(m, es, i + 1, k);
        } else {
            match sniff_uda(es[i].1) {
                Some(u) => {
                    let m2 = crate::uda::uda_insert(m, es[i].0, u);
                    lemma_scan_preserves(m2, es, i + 1, k);
                    crate::uda::lemma_lookup_insert_other(m, es[i].0, u, k);
                },
                None => {
                },
            }
        }
    }
}

/// A unique unknown key's sniffed value lands in the scanned UDA map.
proof fn lemma_scan_tracks(
    m: Seq<(Seq<char>, UDAV)>,
    es: Seq<(Seq<char>, JsonV)>,
    i: int,
    j: int,
)
    requires
        0 <= i <= j < es.len(),
        !is_fixed_key(es[j].0),
        forall|l: int| i <= l < es.len() && l != j ==> (#[trigger] es[l]).0 != es[j].0,
        uda_scan_at(m, es, i) is Ok,
    ensures
        sniff_uda(es[j].1) is Some,
        uda_lookup(uda_scan_at(m, es, i)->Ok_0, es[j].0) == sniff_uda(es[j].1),
    decreases j - i,
{
    let k = es[j].0;
    if i == j {
        match sniff_uda(es[j].1) {
            Some(u) => {
                let m2 = crate::uda::uda_insert(m, k, u);
                lemma_scan_preserves(m2, es, j + 1, k);
                crate::uda::lemma_lookup_insert_same(m, k, u);
            },
            None => {
            },
        }
    } else {
        if is_fixed_key(es[i].0) {
            lemma_scan_tracks(m, es, i + 1, j);
        } else {
            match sniff_uda(es[i].1) {
                Some(u) => {
                    let m2 = crate::uda::uda_insert(m, es[i].0, u);
                    lemma_scan_tracks(m2, es, i + 1, j);
                },
                None => {
                },
            }
        }
    }
}

/// **Unknown-field forward compatibility.** An unrecognized key never
/// fails a decode that otherwise succeeds: when an object decodes and
/// carries, under a key `es[j].0` outside the fixed schema that no other
/// entry repeats, a supported scalar, the decoded task's UDA map binds
/// that key to exactly that scalar.
#[verifier::rlimit(100)]
pub proof fn lemma_unknown_field_kept(
    es: Seq<(Seq<char>, JsonV)>,
    legacy: bool,
    j: int,
    t: TaskV,
)
    requires
        decode_obj(es, legacy) == Ok::<TaskV, TaskErrorV>(t),
        0 <= j < es.len(),
        !is_fixed_key(es[j].0),
        forall|l: int| 0 <= l < es.len() && l != j ==> (#[trigger] es[l]).0 != es[j].0,
    ensures
        sniff_uda(es[j].1) is Some,
        crate::uda::uda_lookup(t.uda, es[j].0) == sniff_uda(es[j].1),
{
    assert(uda_scan(es) is Ok);
    assert(t.uda == uda_scan(es)->Ok_0);
    lemma_scan_tracks(Seq::empty(), es, 0, j);
}

/// The fixed field names are pairwise distinct.
pub proof fn lemma_distinct_fixed_names()
    ensures
        "id"@ != "status"@,
        "id"@ != "uuid"@,
        "id"@ != "entry"@,
        "id"@ != "description"@,
        "id"@ != "annotations"@,
        "id"@ != "depends"@,
        "id"@ != "due"@,
        "id"@ != "end"@,
        "id"@ != "imask"@,
        "id"@ != "mask"@,
        "id"@ != "modified"@,
        "id"@ != "parent"@,
        "id"@ != "priority"@,
        "id"@ != "project"@,
        "id"@ != "recur"@,
        "id"@ != "scheduled"@,
        "id"@ != "start"@,
        "id"@ != "tags"@,
        "id"@ != "until"@,
        "id"@ != "wait"@,
        "id"@ != "urgency"@,
        "status"@ != "uuid"@,
        "status"@ != "entry"@,
        "status"@ != "description"@,
        "status"@ != "annotations"@,
        "status"@ != "depends"@,
        "status"@ != "due"@,
        "status"@ != "end"@,
        "status"@ != "imask"@,
        "status"@ != "mask"@,
        "status"@ != "modified"@,
        "status"@ != "parent"@,
        "status"@ != "priority"@,
        "status"@ != "project"@,
        "status"@ != "recur"@,
        "status"@ != "scheduled"@,
        "status"@ != "start"@,
        "status"@ != "tags"@,
        "status"@ != "until"@,
        "status"@ != "wait"@,
        "status"@ != "urgency"@,
        "uuid"@ != "entry"@,
        "uuid"@ != "description"@,
        "uuid"@ != "annotations"@,
        "uuid"@ != "depends"@,
        "uuid"@ != "due"@,
        "uuid"@ != "end"@,
        "uuid"@ != "imask"@,
        "uuid"@ != "mask"@,
        "uuid"@ != "modified"@,
        "uuid"@ != "parent"@,
        "uuid"@ != "priority"@,
        "uuid"@ != "project"@,
        "uuid"@ != "recur"@,
        "uuid"@ != "scheduled"@,
        "uuid"@ != "start"@,
        "uuid"@ != "tags"@,
        "uuid"@ != "until"@,
        "uuid"@ != "wait"@,
        "uuid"@ != "urgency"@,
        "entry"@ != "description"@,
        "entry"@ != "annotations"@,
        "entry"@ != "depends"@,
        "entry"@ != "due"@,
        "entry"@ != "end"@,
        "entry"@ != "imask"@,
        "entry"@ != "mask"@,
        "entry"@ != "modified"@,
        "entry"@ != "parent"@,
        "entry"@ != "priority"@,
        "entry"@ != "project"@,
        "entry"@ != "recur"@,
        "entry"@ != "scheduled"@,
        "entry"@ != "start"@,
        "entry"@ != "tags"@,
        "entry"@ != "until"@,
        "entry"@ != "wait"@,
        "entry"@ != "urgency"@,
        "description"@ != "annotations"@,
        "description"@ != "depends"@,
        "description"@ != "due"@,
        "description"@ != "end"@,
        "description"@ != "imask"@,
        "description"@ != "mask"@,
        "description"@ != "modified"@,
        "description"@ != "parent"@,
        "description"@ != "priority"@,
        "description"@ != "project"@,
        "description"@ != "recur"@,
        "description"@ != "scheduled"@,
        "description"@ != "start"@,
        "description"@ != "tags"@,
        "description"@ != "until"@,
        "description"@ != "wait"@,
        "description"@ != "urgency"@,
        "annotations"@ != "depends"@,
        "annotations"@ != "due"@,
        "annotations"@ != "end"@,
        "annotations"@ != "imask"@,
        "annotations"@ != "mask"@,
        "annotations"@ != "modified"@,
        "annotations"@ != "parent"@,
        "annotations"@ != "priority"@,
        "annotations"@ != "project"@,
        "annotations"@ != "recur"@,
        "annotations"@ != "scheduled"@,
        "annotations"@ != "start"@,
        "annotations"@ != "tags"@,
        "annotations"@ != "until"@,
        "annotations"@ != "wait"@,
        "annotations"@ != "urgency"@,
        "depends"@ != "due"@,
        "depends"@ != "end"@,
        "depends"@ != "imask"@,
        "depends"@ != "mask"@,
        "depends"@ != "modified"@,
        "depends"@ != "parent"@,
        "depends"@ != "priority"@,
        "depends"@ != "project"@,
        "depends"@ != "recur"@,
        "depends"@ != "scheduled"@,
        "depends"@ != "start"@,
        "depends"@ != "tags"@,
        "depends"@ != "until"@,
        "depends"@ != "wait"@,
        "depends"@ != "urgency"@,
        "due"@ != "end"@,
        "due"@ != "imask"@,
        "due"@ != "mask"@,
        "due"@ != "modified"@,
        "due"@ != "parent"@,
        "due"@ != "priority"@,
        "due"@ != "project"@,
        "due"@ != "recur"@,
        "due"@ != "scheduled"@,
        "due"@ != "start"@,
        "due"@ != "tags"@,
        "due"@ != "until"@,
        "due"@ != "wait"@,
        "due"@ != "urgency"@,
        "end"@ != "imask"@,
        "end"@ != "mask"@,
        "end"@ != "modified"@,
        "end"@ != "parent"@,
        "end"@ != "priority"@,
        "end"@ != "project"@,
        "end"@ != "recur"@,
        "end"@ != "scheduled"@,
        "end"@ != "start"@,
        "end"@ != "tags"@,
        "end"@ != "until"@,
        "end"@ != "wait"@,
        "end"@ != "urgency"@,
        "imask"@ != "mask"@,
        "imask"@ != "modified"@,
        "imask"@ != "parent"@,
        "imask"@ != "priority"@,
        "imask"@ != "project"@,
        "imask"@ != "recur"@,
        "imask"@ != "scheduled"@,
        "imask"@ != "start"@,
        "imask"@ != "tags"@,
        "imask"@ != "until"@,
        "imask"@ != "wait"@,
        "imask"@ != "urgency"@,
        "mask"@ != "modified"@,
        "mask"@ != "parent"@,
        "mask"@ != "priority"@,
        "mask"@ != "project"@,
        "mask"@ != "recur"@,
        "mask"@ != "scheduled"@,
        "mask"@ != "start"@,
        "mask"@ != "tags"@,
        "mask"@ != "until"@,
        "mask"@ != "wait"@,
        "mask"@ != "urgency"@,
        "modified"@ != "parent"@,
        "modified"@ != "priority"@,
        "modified"@ != "project"@,
        "modified"@ != "recur"@,
        "modified"@ != "scheduled"@,
        "modified"@ != "start"@,
        "modified"@ != "tags"@,
        "modified"@ != "until"@,
        "modified"@ != "wait"@,
        "modified"@ != "urgency"@,
        "parent"@ != "priority"@,
        "parent"@ != "project"@,
        "parent"@ != "recur"@,
        "parent"@ != "scheduled"@,
        "parent"@ != "start"@,
        "parent"@ != "tags"@,
        "parent"@ != "until"@,
        "parent"@ != "wait"@,
        "parent"@ != "urgency"@,
        "priority"@ != "project"@,
        "priority"@ != "recur"@,
        "priority"@ != "scheduled"@,
        "priority"@ != "start"@,
        "priority"@ != "tags"@,
        "priority"@ != "until"@,
        "priority"@ != "wait"@,
        "priority"@ != "urgency"@,
        "project"@ != "recur"@,
        "project"@ != "scheduled"@,
        "project"@ != "start"@,
        "project"@ != "tags"@,
        "project"@ != "until"@,
        "project"@ != "wait"@,
        "project"@ != "urgency"@,
        "recur"@ != "scheduled"@,
        "recur"@ != "start"@,
        "recur"@ != "tags"@,
        "recur"@ != "until"@,
        "recur"@ != "wait"@,
        "recur"@ != "urgency"@,
        "scheduled"@ != "start"@,
        "scheduled"@ != "tags"@,
        "scheduled"@ != "until"@,
        "scheduled"@ != "wait"@,
        "scheduled"@ != "urgency"@,
        "start"@ != "tags"@,
        "start"@ != "until"@,
        "start"@ != "wait"@,
        "start"@ != "urgency"@,
        "tags"@ != "until"@,
        "tags"@ != "wait"@,
        "tags"@ != "urgency"@,
        "until"@ != "wait"@,
        "until"@ != "urgency"@,
        "wait"@ != "urgency"@,
{
    reveal_strlit("id");
    reveal_strlit("status");
    reveal_strlit("uuid");
    reveal_strlit("entry");
    reveal_strlit("description");
    reveal_strlit("annotations");
    reveal_strlit("depends");
    reveal_strlit("due");
    reveal_strlit("end");
    reveal_strlit("imask");
    reveal_strlit("mask");
    reveal_strlit("modified");
    reveal_strlit("parent");
    reveal_strlit("priority");
    reveal_strlit("project");
    reveal_strlit("recur");
    reveal_strlit("scheduled");
    reveal_strlit("start");
    reveal_strlit("tags");
    reveal_strlit("until");
    reveal_strlit("wait");
    reveal_strlit("urgency");
    assert("id"@.len() != "status"@.len());
    assert("id"@.len() != "uuid"@.len());
    assert("id"@.len() != "entry"@.len());
    assert("id"@.len() != "description"@.len());
    assert("id"@.len() != "annotations"@.len());
    assert("id"@.len() != "depends"@.len());
    assert("id"@.len() != "due"@.len());
    assert("id"@.len() != "end"@.len());
    assert("id"@.len() != "imask"@.len());
    assert("id"@.len() != "mask"@.len());
    assert("id"@.len() != "modified"@.len());
    assert("id"@.len() != "parent"@.len());
    assert("id"@.len() != "priority"@.len());
    assert("id"@.len() != "project"@.len());
    assert("id"@.len() != "recur"@.len());
    assert("id"@.len() != "scheduled"@.len());
    assert("id"@.len() != "start"@.len());
    assert("id"@.len() != "tags"@.len());
    assert("id"@.len() != "until"@.len());
    assert("id"@.len() != "wait"@.len());
    assert("id"@.len() != "urgency"@.len());
    assert("status"@.len() != "uuid"@.len());
    assert("status"@.len() != "entry"@.len());
    assert("status"@.len() != "description"@.len());
    assert("status"@.len() != "annotations"@.len());
    assert("status"@.len() != "depends"@.len());
    assert("status"@.len() != "due"@.len());
    assert("status"@.len() != "end"@.len());
    assert("status"@.len() != "imask"@.len());
    assert("status"@.len() != "mask"@.len());
    assert("status"@.len() != "modified"@.len());
    assert("status"@[0] != "parent"@[0]);
    assert("status"@.len() != "priority"@.len());
    assert("status"@.len() != "project"@.len());
    assert("status"@.len() != "recur"@.len());
    assert("status"@.len() != "scheduled"@.len());
    assert("status"@.len() != "start"@.len());
    assert("status"@.len() != "tags"@.len());
    assert("status"@.len() != "until"@.len());
    assert("status"@.len() != "wait"@.len());
    assert("status"@.len() != "urgency"@.len());
    assert("uuid"@.len() != "entry"@.len());
    assert("uuid"@.len() != "description"@.len());
    assert("uuid"@.len() != "annotations"@.len());
    assert("uuid"@.len() != "depends"@.len());
    assert("uuid"@.len() != "due"@.len());
    assert("uuid"@.len() != "end"@.len());
    assert("uuid"@.len() != "imask"@.len());
    assert("uuid"@[0] != "mask"@[0]);
    assert("uuid"@.len() != "modified"@.len());
    assert("uuid"@.len() != "parent"@.len());
    assert("uuid"@.len() != "priority"@.len());
    assert("uuid"@.len() != "project"@.len());
    assert("uuid"@.len() != "recur"@.len());
    assert("uuid"@.len() != "scheduled"@.len());
    assert("uuid"@.len() != "start"@.len());
    assert("uuid"@[0] != "tags"@[0]);
    assert("uuid"@.len() != "until"@.len());
    assert("uuid"@[0] != "wait"@[0]);
    assert("uuid"@.len() != "urgency"@.len());
    assert("entry"@.len() != "description"@.len());
    assert("entry"@.len() != "annotations"@.len());
    assert("entry"@.len() != "depends"@.len());
    assert("entry"@.len() != "due"@.len());
    assert("entry"@.len() != "end"@.len());
    assert("entry"@[0] != "imask"@[0]);
    assert("entry"@.len() != "mask"@.len());
    assert("entry"@.len() != "modified"@.len());
    assert("entry"@.len() != "parent"@.len());
    assert("entry"@.len() != "priority"@.len());
    assert("entry"@.len() != "project"@.len());
    assert("entry"@[0] != "recur"@[0]);
    assert("entry"@.len() != "scheduled"@.len());
    assert("entry"@[0] != "start"@[0]);
    assert("entry"@.len() != "tags"@.len());
    assert("entry"@[0] != "until"@[0]);
    assert("entry"@.len() != "wait"@.len());
    assert("entry"@.len() != "urgency"@.len());
    assert("description"@[0] != "annotations"@[0]);
    assert("description"@.len() != "depends"@.len());
    assert("description"@.len() != "due"@.len());
    assert("description"@.len() != "end"@.len());
    assert("description"@.len() != "imask"@.len());
    assert("description"@.len() != "mask"@.len());
    assert("description"@.len() != "modified"@.len());
    assert("description"@.len() != "parent"@.len());
    assert("description"@.len() != "priority"@.len());
    assert("description"@.len() != "project"@.len());
    assert("description"@.len() != "recur"@.len());
    assert("description"@.len() != "scheduled"@.len());
    assert("description"@.len() != "start"@.len());
    assert("description"@.len() != "tags"@.len());
    assert("description"@.len() != "until"@.len());
    assert("description"@.len() != "wait"@.len());
    assert("description"@.len() != "urgency"@.len());
    assert("annotations"@.len() != "depends"@.len());
    assert("annotations"@.len() != "due"@.len());
    assert("annotations"@.len() != "end"@.len());
    assert("annotations"@.len() != "imask"@.len());
    assert("annotations"@.len() != "mask"@.len());
    assert("annotations"@.len() != "modified"@.len());
    assert("annotations"@.len() != "parent"@.len());
    assert("annotations"@.len() != "priority"@.len());
    assert("annotations"@.len() != "project"@.len());
    assert("annotations"@.len() != "recur"@.len());
    assert("annotations"@.len() != "scheduled"@.len());
    assert("annotations"@.len() != "start"@.len());
    assert("annotations"@.len() != "tags"@.len());
    assert("annotations"@.len() != "until"@.len());
    assert("annotations"@.len() != "wait"@.len());
    assert("annotations"@.len() != "urgency"@.len());
    assert("depends"@.len() != "due"@.len());
    assert("depends"@.len() != "end"@.len());
    assert("depends"@.len() != "imask"@.len());
    assert("depends"@.len() != "mask"@.len());
    assert("depends"@.len() != "modified"@.len());
    assert("depends"@.len() != "parent"@.len());
    assert("depends"@.len() != "priority"@.len());
    assert("depends"@[0] != "project"@[0]);
    assert("depends"@.len() != "recur"@.len());
    assert("depends"@.len() != "scheduled"@.len());
    assert("depends"@.len() != "start"@.len());
    assert("depends"@.len() != "tags"@.len());
    assert("depends"@.len() != "until"@.len());
    assert("depends"@.len() != "wait"@.len());
    assert("depends"@[0] != "urgency"@[0]);
    assert("due"@[0] != "end"@[0]);
    assert("due"@.len() != "imask"@.len());
    assert("due"@.len() != "mask"@.len());
    assert("due"@.len() != "modified"@.len());
    assert("due"@.len() != "parent"@.len());
    assert("due"@.len() != "priority"@.len());
    assert("due"@.len() != "project"@.len());
    assert("due"@.len() != "recur"@.len());
    assert("due"@.len() != "scheduled"@.len());
    assert("due"@.len() != "start"@.len());
    assert("due"@.len() != "tags"@.len());
    assert("due"@.len() != "until"@.len());
    assert("due"@.len() != "wait"@.len());
    assert("due"@.len() != "urgency"@.len());
    assert("end"@.len() != "imask"@.len());
    assert("end"@.len() != "mask"@.len());
    assert("end"@.len() != "modified"@.len());
    assert("end"@.len() != "parent"@.len());
    assert("end"@.len() != "priority"@.len());
    assert("end"@.len() != "project"@.len());
    assert("end"@.len() != "recur"@.len());
    assert("end"@.len() != "scheduled"@.len());
    assert("end"@.len() != "start"@.len());
    assert("end"@.len() != "tags"@.len());
    assert("end"@.len() != "until"@.len());
    assert("end"@.len() != "wait"@.len());
    assert("end"@.len() != "urgency"@.len());
    assert("imask"@.len() != "mask"@.len());
    assert("imask"@.len() != "modified"@.len());
    assert("imask"@.len() != "parent"@.len());
    assert("imask"@.len() != "priority"@.len());
    assert("imask"@.len() != "project"@.len());
    assert("imask"@[0] != "recur"@[0]);
    assert("imask"@.len() != "scheduled"@.len());
    assert("imask"@[0] != "start"@[0]);
    assert("imask"@.len() != "tags"@.len());
    assert("imask"@[0] != "until"@[0]);
    assert("imask"@.len() != "wait"@.len());
    assert("imask"@.len() != "urgency"@.len());
    assert("mask"@.len() != "modified"@.len());
    assert("mask"@.len() != "parent"@.len());
    assert("mask"@.len() != "priority"@.len());
    assert("mask"@.len() != "project"@.len());
    assert("mask"@.len() != "recur"@.len());
    assert("mask"@.len() != "scheduled"@.len());
    assert("mask"@.len() != "start"@.len());
    assert("mask"@[0] != "tags"@[0]);
    assert("mask"@.len() != "until"@.len());
    assert("mask"@[0] != "wait"@[0]);
    assert("mask"@.len() != "urgency"@.len());
    assert("modified"@.len() != "parent"@.len());
    assert("modified"@[0] != "priority"@[0]);
    assert("modified"@.len() != "project"@.len());
    assert("modified"@.len() != "recur"@.len());
    assert("modified"@.len() != "scheduled"@.len());
    assert("modified"@.len() != "start"@.len());
    assert("modified"@.len() != "tags"@.len());
    assert("modified"@.len() != "until"@.len());
    assert("modified"@.len() != "wait"@.len());
    assert("modified"@.len() != "urgency"@.len());
    assert("parent"@.len() != "priority"@.len());
    assert("parent"@.len() != "project"@.len());
    assert("parent"@.len() != "recur"@.len());
    assert("parent"@.len() != "scheduled"@.len());
    assert("parent"@.len() != "start"@.len());
    assert("parent"@.len() != "tags"@.len());
    assert("parent"@.len() != "until"@.len());
    assert("parent"@.len() != "wait"@.len());
    assert("parent"@.len() != "urgency"@.len());
    assert("priority"@.len() != "project"@.len());
    assert("priority"@.len() != "recur"@.len());
    assert("priority"@.len() != "scheduled"@.len());
    assert("priority"@.len() != "start"@.len());
    assert("priority"@.len() != "tags"@.len());
    assert("priority"@.len() != "until"@.len());
    assert("priority"@.len() != "wait"@.len());
    assert("priority"@.len() != "urgency"@.len());
    assert("project"@.len() != "recur"@.len());
    assert("project"@.len() != "scheduled"@.len());
    assert("project"@.len() != "start"@.len());
    assert("project"@.len() != "tags"@.len());
    assert("project"@.len() != "until"@.len());
    assert("project"@.len() != "wait"@.len());
    assert("project"@[0] != "urgency"@[0]);
    assert("recur"@.len() != "scheduled"@.len());
    assert("recur"@[0] != "start"@[0]);
    assert("recur"@.len() != "tags"@.len());
    assert("recur"@[0] != "until"@[0]);
    assert("recur"@.len() != "wait"@.len());
    assert("recur"@.len() != "urgency"@.len());
    assert("scheduled"@.len() != "start"@.len());
    assert("scheduled"@.len() != "tags"@.len());
    assert("scheduled"@.len() != "until"@.len());
    assert("scheduled"@.len() != "wait"@.len());
    assert("scheduled"@.len() != "urgency"@.len());
    assert("start"@.len() != "tags"@.len());
    assert("start"@[0] != "until"@[0]);
    assert("start"@.len() != "wait"@.len());
    assert("start"@.len() != "urgency"@.len());
    assert("tags"@.len() != "until"@.len());
    assert("tags"@[0] != "wait"@[0]);
    assert("tags"@.len() != "urgency"@.len());
    assert("until"@.len() != "wait"@.len());
    assert("until"@.len() != "urgency"@.len());
    assert("wait"@.len() != "urgency"@.len());
}

} // verus!
