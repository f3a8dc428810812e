//! String helpers: character-wise equality, lexicographic order, and
//! fixed-width decimal and hexadecimal digit codecs.

use vstd::prelude::*;
use vstd::string::*;

verus! {

/// Character-wise equality of two string slices.
pub fn str_eq(a: &str, b: &str) -> (r: bool)
    ensures
        r == (a@ == b@),
{
    let alen = a.unicode_len();
    let blen = b.unicode_len();
    if alen != blen {
        return false;
    }
    let mut i: usize = 0;
    while i < alen
        invariant
            alen == a@.len(),
            blen == b@.len(),
            alen == blen,
            i <= alen,
            forall|j: int| 0 <= j < i ==> a@[j] == b@[j],
        decreases alen - i,
    {
        if a.get_char(i) != b.get_char(i) {
            return false;
        }
        i += 1;
    }
    proof {
        assert(a@ =~= b@);
    }
    true
}

/// Strict lexicographic order on character sequences, by code point.
pub open spec fn lex_lt(a: Seq<char>, b: Seq<char>) -> bool
    decreases a.len(),
{
    if b.len() == 0 {
        false
    } else if a.len() == 0 {
        true
    } else if a[0] != b[0] {
        a[0] < b[0]
    } else {
        lex_lt(a.drop_first(), b.drop_first())
    }
}

/// Strict lexicographic comparison of two string slices.
pub fn str_lt(a: &str, b: &str) -> (r: bool)
    ensures
        r == lex_lt(a@, b@),
{
    let alen = a.unicode_len();
    let blen = b.unicode_len();
    let mut i: usize = 0;
    proof {
        assert(a@.skip(0) =~= a@);
        assert(b@.skip(0) =~= b@);
    }
    loop
        invariant
            alen == a@.len(),
            blen == b@.len(),
            i <= alen,
            i <= blen,
            lex_lt(a@, b@) == lex_lt(a@.skip(i as int), b@.skip(i as int)),
        decreases alen - i,
    {
        if i == blen {
            return false;
        }
        if i == alen {
            return true;
        }
        let ca = a.get_char(i);
        let cb = b.get_char(i);
        proof {
            assert(a@.skip(i as int)[0] == a@[i as int]);
            assert(b@.skip(i as int)[0] == b@[i as int]);
        }
        if ca != cb {
            return ca < cb;
        }
        proof {
            assert(a@.skip(i as int).drop_first() =~= a@.skip(i as int + 1));
            assert(b@.skip(i as int).drop_first() =~= b@.skip(i as int + 1));
        }
        i += 1;
    }
}

/// Lexicographic order is irreflexive.
pub proof fn lemma_lex_irrefl(a: Seq<char>)
    ensures
        !lex_lt(a, a),
    decreases a.len(),
{
    if a.len() > 0 {
        lemma_lex_irrefl(a.drop_first());
    }
}

/// Two sequences neither of which is below the other are equal.
pub proof fn lemma_lex_connex(a: Seq<char>, b: Seq<char>)
    requires
        !lex_lt(a, b),
        !lex_lt(b, a),
    ensures
        a == b,
    decreases a.len(),
{
    if a.len() == 0 || b.len() == 0 {
        assert(a =~= b);
    } else {
        if a[0] != b[0] {
            assert(a[0] == b[0]);
        } else {
            lemma_lex_connex(a.drop_first(), b.drop_first());
            assert(a =~= seq![a[0]] + a.drop_first());
            assert(b =~= seq![b[0]] + b.drop_first());
        }
    }
}

/// Lexicographic order is transitive.
pub proof fn lemma_lex_trans(a: Seq<char>, b: Seq<char>, c: Seq<char>)
    requires
        lex_lt(a, b),
        lex_lt(b, c),
    ensures
        lex_lt(a, c),
    decreases a.len(),
{
    if a.len() == 0 {
        // b is nonempty, hence c is nonempty, hence lex_lt(a, c)
    } else if b.len() == 0 {
        // contradiction with lex_lt(a, b)
    } else if c.len() == 0 {
        // contradiction with lex_lt(b, c)
    } else {
        if a[0] == b[0] && b[0] == c[0] {
            lemma_lex_trans(a.drop_first(), b.drop_first(), c.drop_first());
        }
    }
}

/// Whether `c` is an ASCII decimal digit.
pub open spec fn is_digit(c: char) -> bool {
    48 <= c as u32 <= 57
}

/// Numeric value of a decimal digit character.
pub open spec fn digit_val(c: char) -> int {
    c as u32 - 48
}

/// Whether every character of `s` is a decimal digit.
pub open spec fn all_digits(s: Seq<char>) -> bool {
    forall|i: int| 0 <= i < s.len() ==> is_digit(#[trigger] s[i])
}

/// Value of a sequence of decimal digits, most significant first.
pub open spec fn dec_val(s: Seq<char>) -> int
    decreases s.len(),
{
    if s.len() == 0 {
        0
    } else {
        dec_val(s.drop_last()) * 10 + digit_val(s.last())
    }
}

/// Ten to the `n`.
pub open spec fn pow10(n: nat) -> int
    decreases n,
{
    if n == 0 {
        1
    } else {
        10 * pow10((n - 1) as nat)
    }
}

/// The digit character for value `d`.
pub open spec fn digit_char(d: int) -> char {
    ((48 + d) as u8) as char
}

/// Fixed-width, zero-padded decimal representation of `v`.
pub open spec fn fmt_dec(v: int, n: nat) -> Seq<char>
    decreases n,
{
    if n == 0 {
        Seq::empty()
    } else {
        fmt_dec(v / 10, (n - 1) as nat).push(digit_char(v % 10))
    }
}

/// Fixed-width decimal formatting is made of digits, has width `n`, and
/// parses back to the formatted value.
pub proof fn lemma_fmt_dec(v: int, n: nat)
    requires
        0 <= v < pow10(n),
    ensures
        fmt_dec(v, n).len() == n,
        all_digits(fmt_dec(v, n)),
        dec_val(fmt_dec(v, n)) == v,
    decreases n,
{
    if n == 0 {
    } else {
        let q = v / 10;
        let r = v % 10;
        assert(v == q * 10 + r && 0 <= r < 10 && 0 <= q);
        assert(q < pow10((n - 1) as nat)) by {
            if q >= pow10((n - 1) as nat) {
                assert(v >= q * 10) by (nonlinear_arith)
                    requires
                        v == q * 10 + r,
                        r >= 0,
                ;
                assert(q * 10 >= pow10((n - 1) as nat) * 10) by (nonlinear_arith)
                    requires
                        q >= pow10((n - 1) as nat),
                ;
            }
        }
        lemma_fmt_dec(q, (n - 1) as nat);
        let s = fmt_dec(v, n);
        assert(s == fmt_dec(q, (n - 1) as nat).push(digit_char(r)));
        assert(is_digit(digit_char(r)) && digit_val(digit_char(r)) == r);
        assert(all_digits(s)) by {
            assert(forall|i: int|
                0 <= i < s.len() - 1 ==> #[trigger] s[i] == fmt_dec(q, (n - 1) as nat)[i]);
        }
        assert(s.drop_last() =~= fmt_dec(q, (n - 1) as nat));
    }
}

/// Values of digit sequences are bounded by the width.
pub proof fn lemma_dec_val_bound(s: Seq<char>)
    requires
        all_digits(s),
    ensures
        0 <= dec_val(s) < pow10(s.len()),
    decreases s.len(),
{
    if s.len() == 0 {
    } else {
        let p = s.drop_last();
        assert(all_digits(p));
        lemma_dec_val_bound(p);
        assert(dec_val(p) * 10 + digit_val(s.last()) < pow10(s.len())) by (nonlinear_arith)
            requires
                0 <= dec_val(p) < pow10((s.len() - 1) as nat),
                pow10(s.len() as nat) == 10 * pow10((s.len() - 1) as nat),
                digit_val(s.last()) < 10,
        ;
        assert(dec_val(p) * 10 >= 0) by (nonlinear_arith)
            requires
                dec_val(p) >= 0,
        ;
    }
}

/// Whether `c` is an ASCII hexadecimal digit, of either case.
pub open spec fn is_hex(c: char) -> bool {
    (48 <= c as u32 <= 57) || (97 <= c as u32 <= 102) || (65 <= c as u32 <= 70)
}

/// Numeric value of a hexadecimal digit character.
pub open spec fn hex_digit_val(c: char) -> int {
    if 48 <= c as u32 <= 57 {
        c as u32 - 48
    } else if 97 <= c as u32 <= 102 {
        c as u32 - 87
    } else {
        c as u32 - 55
    }
}

/// Whether every character of `s` is a hexadecimal digit.
pub open spec fn all_hex(s: Seq<char>) -> bool {
    forall|i: int| 0 <= i < s.len() ==> is_hex(#[trigger] s[i])
}

/// Value of a sequence of hexadecimal digits, most significant first.
pub open spec fn hex_val(s: Seq<char>) -> int
    decreases s.len(),
{
    if s.len() == 0 {
        0
    } else {
        hex_val(s.drop_last()) * 16 + hex_digit_val(s.last())
    }
}

/// Sixteen to the `n`.
pub open spec fn pow16(n: nat) -> int
    decreases n,
{
    if n == 0 {
        1
    } else {
        16 * pow16((n - 1) as nat)
    }
}

/// The lowercase hexadecimal digit character for value `d`.
pub open spec fn hex_char(d: int) -> char {
    if d < 10 {
        ((48 + d) as u8) as char
    } else {
        ((87 + d) as u8) as char
    }
}

/// Fixed-width lowercase hexadecimal representation of `v`.
pub open spec fn fmt_hex(v: int, n: nat) -> Seq<char>
    decreases n,
{
    if n == 0 {
        Seq::empty()
    } else {
        fmt_hex(v / 16, (n - 1) as nat).push(hex_char(v % 16))
    }
}

/// Fixed-width hexadecimal formatting is made of hex digits, has width `n`,
/// and parses back to the formatted value.
pub proof fn lemma_fmt_hex(v: int, n: nat)
    requires
        0 <= v < pow16(n),
    ensures
        fmt_hex(v, n).len() == n,
        all_hex(fmt_hex(v, n)),
        hex_val(fmt_hex(v, n)) == v,
    decreases n,
{
    if n == 0 {
    } else {
        let q = v / 16;
        let r = v % 16;
        assert(v == q * 16 + r && 0 <= r < 16 && 0 <= q);
        assert(q < pow16((n - 1) as nat)) by {
            if q >= pow16((n - 1) as nat) {
                assert(v >= q * 16) by (nonlinear_arith)
                    requires
                        v == q * 16 + r,
                        r >= 0,
                ;
                assert(q * 16 >= pow16((n - 1) as nat) * 16) by (nonlinear_arith)
                    requires
                        q >= pow16((n - 1) as nat),
                ;
            }
        }
        lemma_fmt_hex(q, (n - 1) as nat);
        let s = fmt_hex(v, n);
        assert(is_hex(hex_char(r)) && hex_digit_val(hex_char(r)) == r);
        assert(all_hex(s)) by {
            assert(forall|i: int|
                0 <= i < s.len() - 1 ==> #[trigger] s[i] == fmt_hex(q, (n - 1) as nat)[i]);
        }
        assert(s.drop_last() =~= fmt_hex(q, (n - 1) as nat));
    }
}

/// Values of hex digit sequences are bounded by the width.
pub proof fn lemma_hex_val_bound(s: Seq<char>)
    requires
        all_hex(s),
    ensures
        0 <= hex_val(s) < pow16(s.len()),
    decreases s.len(),
{
    if s.len() == 0 {
    } else {
        let p = s.drop_last();
        assert(all_hex(p));
        lemma_hex_val_bound(p);
        assert(hex_val(p) * 16 + hex_digit_val(s.last()) < pow16(s.len())) by (nonlinear_arith)
            requires
                0 <= hex_val(p) < pow16((s.len() - 1) as nat),
                pow16(s.len() as nat) == 16 * pow16((s.len() - 1) as nat),
                hex_digit_val(s.last()) < 16,
        ;
        assert(hex_val(p) * 16 >= 0) by (nonlinear_arith)
            requires
                hex_val(p) >= 0,
        ;
    }
}

/// Powers of sixteen multiply across addition of exponents.
pub proof fn lemma_pow16_add(a: nat, b: nat)
    ensures
        pow16(a + b) == pow16(a) * pow16(b),
    decreases a,
{
    if a == 0 {
        assert(pow16(b) == 1 * pow16(b)) by (nonlinear_arith);
    } else {
        lemma_pow16_add((a - 1) as nat, b);
        assert(pow16(a + b) == 16 * pow16((a + b - 1) as nat));
        assert((a + b - 1) as nat == (a - 1) as nat + b);
        assert(16 * (pow16((a - 1) as nat) * pow16(b)) == (16 * pow16((a - 1) as nat)) * pow16(
            b,
        )) by (nonlinear_arith);
    }
}

/// Powers of sixteen are positive.
pub proof fn lemma_pow16_pos(n: nat)
    ensures
        pow16(n) >= 1,
    decreases n,
{
    if n > 0 {
        lemma_pow16_pos((n - 1) as nat);
    }
}

/// Powers of sixteen grow with the exponent.
pub proof fn lemma_pow16_mono(a: nat, b: nat)
    requires
        a <= b,
    ensures
        pow16(a) <= pow16(b),
    decreases b,
{
    if a < b {
        lemma_pow16_mono(a, (b - 1) as nat);
        lemma_pow16_pos((b - 1) as nat);
    }
}

/// Powers of sixteen at the widths the UUID codec uses.
pub proof fn lemma_pow16_small()
    ensures
        pow16(0) == 1,
        pow16(4) == 0x10000,
        pow16(8) == 0x1_0000_0000,
        pow16(12) == 0x1_0000_0000_0000,
        pow16(16) == 0x1_0000_0000_0000_0000,
        pow16(20) == 0x1_0000_0000_0000_0000_0000,
        pow16(24) == 0x1_0000_0000_0000_0000_0000_0000,
        pow16(28) == 0x1_0000_0000_0000_0000_0000_0000_0000,
        pow16(32) == 0x1_0000_0000_0000_0000_0000_0000_0000_0000,
{
    assert(pow16(0) == 1);
    assert(pow16(1) == 16);
    assert(pow16(2) == 0x100);
    assert(pow16(3) == 0x1000);
    assert(pow16(4) == 0x10000);
    lemma_pow16_add(4, 4);
    lemma_pow16_add(8, 4);
    lemma_pow16_add(12, 4);
    lemma_pow16_add(16, 4);
    lemma_pow16_add(20, 4);
    lemma_pow16_add(24, 4);
    lemma_pow16_add(28, 4);
}

/// The value of concatenated hex digit groups.
pub proof fn lemma_hex_val_concat(a: Seq<char>, b: Seq<char>)
    ensures
        hex_val(a + b) == hex_val(a) * pow16(b.len()) + hex_val(b),
    decreases b.len(),
{
    if b.len() == 0 {
        assert(a + b =~= a);
        assert(pow16(0) == 1);
    } else {
        lemma_hex_val_concat(a, b.drop_last());
        assert((a + b).drop_last() =~= a + b.drop_last());
        assert((a + b).last() == b.last());
        let x = hex_val(a);
        let p = pow16((b.len() - 1) as nat);
        assert((x * p + hex_val(b.drop_last())) * 16 + hex_digit_val(b.last()) == x * (16 * p)
            + hex_val(b)) by (nonlinear_arith)
            requires
                hex_val(b) == hex_val(b.drop_last()) * 16 + hex_digit_val(b.last()),
        ;
        assert(pow16(b.len()) == 16 * p);
        assert(x * (16 * p) == x * pow16(b.len()));
    }
}

/// Fixed-width, zero-padded decimal formatting of `v`.
pub fn fmt_dec_exec(v: u32, n: usize) -> (r: String)
    ensures
        r@ == fmt_dec(v as int, n as nat),
    decreases n,
{
    if n == 0 {
        let r = String::new();
        proof {
            assert(r@ =~= fmt_dec(v as int, 0));
        }
        r
    } else {
        let mut s = fmt_dec_exec(v / 10, n - 1);
        s.append(digit_str((v % 10) as u8));
        proof {
            assert((v as int) / 10 == (v / 10) as int);
            assert((v as int) % 10 == (v % 10) as int);
            assert(s@ =~= fmt_dec(v as int, n as nat));
        }
        s
    }
}

/// Fixed-width lowercase hexadecimal formatting of `v`.
pub fn fmt_hex_exec(v: u128, n: usize) -> (r: String)
    ensures
        r@ == fmt_hex(v as int, n as nat),
    decreases n,
{
    if n == 0 {
        let r = String::new();
        proof {
            assert(r@ =~= fmt_hex(v as int, 0));
        }
        r
    } else {
        let mut s = fmt_hex_exec(v / 16, n - 1);
        s.append(hex_digit_str((v % 16) as u8));
        proof {
            assert((v as int) / 16 == (v / 16) as int);
            assert((v as int) % 16 == (v % 16) as int);
            assert(s@ =~= fmt_hex(v as int, n as nat));
        }
        s
    }
}

/// A one-character string slice holding the decimal digit `d`.
pub fn digit_str(d: u8) -> (r: &'static str)
    requires
        d < 10,
    ensures
        r@ =~= seq![digit_char(d as int)],
{
    proof {
        reveal_strlit("0");
        reveal_strlit("1");
        reveal_strlit("2");
        reveal_strlit("3");
        reveal_strlit("4");
        reveal_strlit("5");
        reveal_strlit("6");
        reveal_strlit("7");
        reveal_strlit("8");
        reveal_strlit("9");
    }
    match d {
        0 => "0",
        1 => "1",
        2 => "2",
        3 => "3",
        4 => "4",
        5 => "5",
        6 => "6",
        7 => "7",
        8 => "8",
        _ => "9",
    }
}

/// A one-character string slice holding the lowercase hex digit `d`.
pub fn hex_digit_str(d: u8) -> (r: &'static str)
    requires
        d < 16,
    ensures
        r@ =~= seq![hex_char(d as int)],
{
    proof {
        reveal_strlit("a");
        reveal_strlit("b");
        reveal_strlit("c");
        reveal_strlit("d");
        reveal_strlit("e");
        reveal_strlit("f");
    }
    if d < 10 {
        digit_str(d)
    } else {
        match d {
            10 => "a",
            11 => "b",
            12 => "c",
            13 => "d",
            14 => "e",
            _ => "f",
        }
    }
}

} // verus!
