//! Task identifiers: 128-bit UUIDs and their 36-character hyphenated
//! wire text (8-4-4-4-12 hexadecimal groups).
//!
//! Parsing accepts hex digits of either case; formatting emits lowercase.

use vstd::prelude::*;
use vstd::string::*;

use crate::strutil::{
    all_hex, fmt_hex, fmt_hex_exec, hex_val, lemma_fmt_hex, lemma_hex_val_bound,
    lemma_hex_val_concat, lemma_pow16_mono, lemma_pow16_small, pow16,
};

verus! {

/// A 128-bit task identifier.
#[derive(Clone, Copy, Debug, Hash, PartialEq, Eq, Structural)]
pub struct Uuid(pub u128);

/// The wire text of a UUID: 32 lowercase hex digits in groups of
/// 8-4-4-4-12, separated by hyphens.
pub open spec fn uuid_text(u: Uuid) -> Seq<char> {
    let f = fmt_hex(u.0 as int, 32);
    f.subrange(0, 8) + seq!['-'] + f.subrange(8, 12) + seq!['-'] + f.subrange(12, 16) + seq!['-']
        + f.subrange(16, 20) + seq!['-'] + f.subrange(20, 32)
}

/// The UUID encoded by wire text `s`, or `None` when `s` is not of the
/// hyphenated 8-4-4-4-12 form.
pub open spec fn uuid_of_text(s: Seq<char>) -> Option<Uuid> {
    if s.len() == 36 && s[8] == '-' && s[13] == '-' && s[18] == '-' && s[23] == '-' && all_hex(
        s.subrange(0, 8),
    ) && all_hex(s.subrange(9, 13)) && all_hex(s.subrange(14, 18)) && all_hex(s.subrange(19, 23))
        && all_hex(s.subrange(24, 36)) {
        Some(
            Uuid(
                hex_val(
                    s.subrange(0, 8) + s.subrange(9, 13) + s.subrange(14, 18) + s.subrange(19, 23)
                        + s.subrange(24, 36),
                ) as u128,
            ),
        )
    } else {
        None
    }
}

/// Every UUID round-trips through its wire text.
pub proof fn lemma_uuid_round_trip(u: Uuid)
    ensures
        uuid_of_text(uuid_text(u)) == Some(u),
{
    lemma_pow16_small();
    lemma_fmt_hex(u.0 as int, 32);
    let f = fmt_hex(u.0 as int, 32);
    let s = uuid_text(u);
    assert(s.len() == 36);
    assert(s[8] == '-' && s[13] == '-' && s[18] == '-' && s[23] == '-');
    assert(s.subrange(0, 8) =~= f.subrange(0, 8));
    assert(s.subrange(9, 13) =~= f.subrange(8, 12));
    assert(s.subrange(14, 18) =~= f.subrange(12, 16));
    assert(s.subrange(19, 23) =~= f.subrange(16, 20));
    assert(s.subrange(24, 36) =~= f.subrange(20, 32));
    assert(f.subrange(0, 8) + f.subrange(8, 12) + f.subrange(12, 16) + f.subrange(16, 20)
        + f.subrange(20, 32) =~= f);
    assert(all_hex(f.subrange(0, 8)) && all_hex(f.subrange(8, 12)) && all_hex(f.subrange(12, 16))
        && all_hex(f.subrange(16, 20)) && all_hex(f.subrange(20, 32))) by {
        assert(forall|i: int| 0 <= i < 8 ==> f.subrange(0, 8)[i] == f[i]);
        assert(forall|i: int| 0 <= i < 4 ==> f.subrange(8, 12)[i] == f[i + 8]);
        assert(forall|i: int| 0 <= i < 4 ==> f.subrange(12, 16)[i] == f[i + 12]);
        assert(forall|i: int| 0 <= i < 4 ==> f.subrange(16, 20)[i] == f[i + 16]);
        assert(forall|i: int| 0 <= i < 12 ==> f.subrange(20, 32)[i] == f[i + 20]);
    }
}

/// Parses the hexadecimal digit group of `s` from character `from`
/// (inclusive) to `to` (exclusive).
fn parse_hex_group(s: &str, from: usize, to: usize) -> (r: Option<u64>)
    requires
        from <= to <= s@.len(),
        to - from <= 12,
    ensures
        match r {
            Some(v) => all_hex(s@.subrange(from as int, to as int)) && v == hex_val(
                s@.subrange(from as int, to as int),
            ),
            None => !all_hex(s@.subrange(from as int, to as int)),
        },
{
    let mut acc: u64 = 0;
    let mut i: usize = from;
    proof {
        assert(s@.subrange(from as int, from as int) =~= Seq::<char>::empty());
        lemma_pow16_small();
    }
    while i < to
        invariant
            from <= i <= to <= s@.len(),
            to - from <= 12,
            all_hex(s@.subrange(from as int, i as int)),
            acc == hex_val(s@.subrange(from as int, i as int)),
            acc < pow16((i - from) as nat),
        decreases to - i,
    {
        let c = s.get_char(i);
        let code = c as u32;
        let d: u32 = if 48 <= code && code <= 57 {
            code - 48
        } else if 97 <= code && code <= 102 {
            code - 87
        } else if 65 <= code && code <= 70 {
            code - 55
        } else {
            proof {
                assert(s@.subrange(from as int, to as int)[i - from] == s@[i as int]);
            }
            return None;
        };
        proof {
            lemma_pow16_small();
            let g = s@.subrange(from as int, i as int + 1);
            assert(g.drop_last() =~= s@.subrange(from as int, i as int));
            assert(g.last() == s@[i as int]);
            lemma_pow16_mono((i - from) as nat, 11);
            lemma_pow16_mono((i + 1 - from) as nat, 12);
        }
        acc = acc * 16 + (d as u64);
        i += 1;
    }
    proof {
        assert(s@.subrange(from as int, i as int) =~= s@.subrange(from as int, to as int));
    }
    Some(acc)
}

impl Uuid {
    /// Parses the standard 36-character hyphenated textual form.
    pub fn parse_str(s: &str) -> (r: Option<Uuid>)
        ensures
            r == uuid_of_text(s@),
    {
        if s.unicode_len() != 36 {
            return None;
        }
        if s.get_char(8) != '-' || s.get_char(13) != '-' || s.get_char(18) != '-' || s.get_char(23)
            != '-' {
            return None;
        }
        let v1 = match parse_hex_group(s, 0, 8) {
            Some(v) => v,
            None => {
                return None;
            },
        };
        let v2 = match parse_hex_group(s, 9, 13) {
            Some(v) => v,
            None => {
                return None;
            },
        };
        let v3 = match parse_hex_group(s, 14, 18) {
            Some(v) => v,
            None => {
                return None;
            },
        };
        let v4 = match parse_hex_group(s, 19, 23) {
            Some(v) => v,
            None => {
                return None;
            },
        };
        let v5 = match parse_hex_group(s, 24, 36) {
            Some(v) => v,
            None => {
                return None;
            },
        };
        let ghost h1 = s@.subrange(0, 8);
        let ghost h2 = s@.subrange(9, 13);
        let ghost h3 = s@.subrange(14, 18);
        let ghost h4 = s@.subrange(19, 23);
        let ghost h5 = s@.subrange(24, 36);
        proof {
            lemma_pow16_small();
            lemma_hex_val_bound(h1);
            lemma_hex_val_bound(h2);
            lemma_hex_val_bound(h3);
            lemma_hex_val_bound(h4);
            lemma_hex_val_bound(h5);
            lemma_hex_val_concat(h1, h2);
            lemma_hex_val_concat(h1 + h2, h3);
            lemma_hex_val_concat(h1 + h2 + h3, h4);
            lemma_hex_val_concat(h1 + h2 + h3 + h4, h5);
            assert(hex_val(h1) * pow16(4) + hex_val(h2) < pow16(12)) by (nonlinear_arith)
                requires
                    0 <= hex_val(h1) < pow16(8),
                    0 <= hex_val(h2) < pow16(4),
                    pow16(12) == pow16(8) * pow16(4),
            ;
            assert(hex_val(h1 + h2) * pow16(4) + hex_val(h3) < pow16(16)) by (nonlinear_arith)
                requires
                    0 <= hex_val(h1 + h2) < pow16(12),
                    0 <= hex_val(h3) < pow16(4),
                    pow16(16) == pow16(12) * pow16(4),
            ;
            assert(hex_val(h1 + h2 + h3) * pow16(4) + hex_val(h4) < pow16(20)) by (nonlinear_arith)
                requires
                    0 <= hex_val(h1 + h2 + h3) < pow16(16),
                    0 <= hex_val(h4) < pow16(4),
                    pow16(20) == pow16(16) * pow16(4),
            ;
            assert(hex_val(h1 + h2 + h3 + h4) * pow16(12) + hex_val(h5) < pow16(32))
                by (nonlinear_arith)
                requires
                    0 <= hex_val(h1 + h2 + h3 + h4) < pow16(20),
                    0 <= hex_val(h5) < pow16(12),
                    pow16(32) == pow16(20) * pow16(12),
            ;
            assert(pow16(12) == pow16(8) * pow16(4) && pow16(16) == pow16(12) * pow16(4) && pow16(
                20,
            ) == pow16(16) * pow16(4) && pow16(32) == pow16(20) * pow16(12)) by {
                crate::strutil::lemma_pow16_add(8, 4);
                crate::strutil::lemma_pow16_add(12, 4);
                crate::strutil::lemma_pow16_add(16, 4);
                crate::strutil::lemma_pow16_add(20, 12);
            }
        }
        let a2: u128 = (v1 as u128) * 0x10000 + (v2 as u128);
        let a3: u128 = a2 * 0x10000 + (v3 as u128);
        let a4: u128 = a3 * 0x10000 + (v4 as u128);
        let a5: u128 = a4 * 0x1_0000_0000_0000 + (v5 as u128);
        Some(Uuid(a5))
    }

    /// Formats this UUID as its 36-character lowercase hyphenated form.
    pub fn format(&self) -> (r: String)
        ensures
            r@ == uuid_text(*self),
    {
        proof {
            lemma_pow16_small();
            lemma_fmt_hex(self.0 as int, 32);
        }
        let f = fmt_hex_exec(self.0, 32);
        let fs = f.as_str();
        let mut out = String::new();
        out.append(fs.substring_char(0, 8));
        out.append("-");
        out.append(fs.substring_char(8, 12));
        out.append("-");
        out.append(fs.substring_char(12, 16));
        out.append("-");
        out.append(fs.substring_char(16, 20));
        out.append("-");
        out.append(fs.substring_char(20, 32));
        proof {
            reveal_strlit("-");
            assert("-"@ =~= seq!['-']);
            assert(out@ =~= uuid_text(*self));
        }
        out
    }

    /// A freshly generated random (version 4) UUID.
    pub fn new_v4() -> (r: Uuid)
        ensures
            (r.0 >> 76) & 0xf == 4,
            (r.0 >> 62) & 0x3 == 2,
    {
        random_uuid_v4()
    }
}

/// Relies on `uuid::Uuid::new_v4` and `uuid::Uuid::as_u128`: a freshly
/// generated random UUID, read out as its 128-bit big-endian value. The
/// generator promises the version-4 and RFC 4122 variant bits and nothing
/// else; the value is random, so no two calls need agree.
#[verifier::external_body]
fn random_uuid_v4() -> (r: Uuid)
    ensures
        (r.0 >> 76) & 0xf == 4,
        (r.0 >> 62) & 0x3 == 2,
{
    Uuid(::uuid::Uuid::new_v4().as_u128())
}

} // verus!
