//! Naive (timezone-free) date-times and their fixed wire template.
//!
//! The wire format is the literal template `YYYYMMDDTHHMMSSZ`: a 4-digit
//! year, 2-digit month, day, hour, minute and second, with a literal `T`
//! between date and time and a literal trailing `Z`. The `Z` does not denote
//! an offset; values are naive wall-clock components. Parsing is strict: any
//! deviation from the template fails.

use vstd::prelude::*;
use vstd::string::*;

use crate::strutil::{
    all_digits, dec_val, digit_str, fmt_dec, fmt_dec_exec, is_digit, lemma_dec_val_bound,
    lemma_fmt_dec, pow10,
};

verus! {

/// A naive date-time, stored as its calendar and clock components.
#[derive(Clone, Copy, Debug, Hash, PartialEq, Eq, Structural)]
pub struct Date {
    /// Year, `0..=9999`.
    pub year: u32,
    /// Month, `1..=12`.
    pub month: u32,
    /// Day of month, `1..=days_in_month(year, month)`.
    pub day: u32,
    /// Hour, `0..=23`.
    pub hour: u32,
    /// Minute, `0..=59`.
    pub minute: u32,
    /// Second, `0..=59`.
    pub second: u32,
}

/// Whether `y` is a leap year in the proleptic Gregorian calendar.
pub open spec fn is_leap_year(y: int) -> bool {
    y % 4 == 0 && (y % 100 != 0 || y % 400 == 0)
}

/// Number of days of month `m` of year `y`.
pub open spec fn days_in_month(y: int, m: int) -> int {
    if m == 2 {
        if is_leap_year(y) {
            29
        } else {
            28
        }
    } else if m == 4 || m == 6 || m == 9 || m == 11 {
        30
    } else {
        31
    }
}

impl Date {
    /// Whether the components form a real calendar date and clock time
    /// representable in the wire template.
    pub open spec fn wf(self) -> bool {
        self.year <= 9999 && 1 <= self.month <= 12 && 1 <= self.day <= days_in_month(
            self.year as int,
            self.month as int,
        ) && self.hour <= 23 && self.minute <= 59 && self.second <= 59
    }
}

/// The wire text of a date: the template `YYYYMMDDTHHMMSSZ`.
pub open spec fn date_text(d: Date) -> Seq<char> {
    fmt_dec(d.year as int, 4) + fmt_dec(d.month as int, 2) + fmt_dec(d.day as int, 2) + seq!['T']
        + fmt_dec(d.hour as int, 2) + fmt_dec(d.minute as int, 2) + fmt_dec(d.second as int, 2)
        + seq!['Z']
}

/// The date encoded by wire text `s`, or `None` when `s` deviates from the
/// template or names no real calendar date or clock time.
pub open spec fn date_of_text(s: Seq<char>) -> Option<Date> {
    if s.len() == 16 && s[8] == 'T' && s[15] == 'Z' && all_digits(s.subrange(0, 8)) && all_digits(
        s.subrange(9, 15),
    ) {
        let d = Date {
            year: dec_val(s.subrange(0, 4)) as u32,
            month: dec_val(s.subrange(4, 6)) as u32,
            day: dec_val(s.subrange(6, 8)) as u32,
            hour: dec_val(s.subrange(9, 11)) as u32,
            minute: dec_val(s.subrange(11, 13)) as u32,
            second: dec_val(s.subrange(13, 15)) as u32,
        };
        if d.wf() {
            Some(d)
        } else {
            None
        }
    } else {
        None
    }
}

/// Every well-formed date round-trips through its wire text.
pub proof fn lemma_date_round_trip(d: Date)
    requires
        d.wf(),
    ensures
        date_of_text(date_text(d)) == Some(d),
{
    lemma_pow10_small();
    lemma_fmt_dec(d.year as int, 4);
    lemma_fmt_dec(d.month as int, 2);
    lemma_fmt_dec(d.day as int, 2);
    lemma_fmt_dec(d.hour as int, 2);
    lemma_fmt_dec(d.minute as int, 2);
    lemma_fmt_dec(d.second as int, 2);
    let s = date_text(d);
    assert(s.subrange(0, 4) =~= fmt_dec(d.year as int, 4));
    assert(s.subrange(4, 6) =~= fmt_dec(d.month as int, 2));
    assert(s.subrange(6, 8) =~= fmt_dec(d.day as int, 2));
    assert(s.subrange(9, 11) =~= fmt_dec(d.hour as int, 2));
    assert(s.subrange(11, 13) =~= fmt_dec(d.minute as int, 2));
    assert(s.subrange(13, 15) =~= fmt_dec(d.second as int, 2));
    assert(all_digits(s.subrange(0, 8))) by {
        let t = s.subrange(0, 8);
        assert(forall|i: int| 0 <= i < 4 ==> t[i] == fmt_dec(d.year as int, 4)[i]);
        assert(forall|i: int| 4 <= i < 6 ==> t[i] == fmt_dec(d.month as int, 2)[i - 4]);
        assert(forall|i: int| 6 <= i < 8 ==> t[i] == fmt_dec(d.day as int, 2)[i - 6]);
    }
    assert(all_digits(s.subrange(9, 15))) by {
        let t = s.subrange(9, 15);
        assert(forall|i: int| 0 <= i < 2 ==> t[i] == fmt_dec(d.hour as int, 2)[i]);
        assert(forall|i: int| 2 <= i < 4 ==> t[i] == fmt_dec(d.minute as int, 2)[i - 2]);
        assert(forall|i: int| 4 <= i < 6 ==> t[i] == fmt_dec(d.second as int, 2)[i - 4]);
    }
}

/// Small powers of ten, spelled out for the parser's overflow bounds.
pub proof fn lemma_pow10_small()
    ensures
        pow10(0) == 1,
        pow10(1) == 10,
        pow10(2) == 100,
        pow10(3) == 1000,
        pow10(4) == 10000,
        pow10(5) == 100000,
        pow10(6) == 1000000,
        pow10(7) == 10000000,
        pow10(8) == 100000000,
        pow10(9) == 1000000000,
{
    assert(pow10(0) == 1);
    assert(pow10(1) == 10);
    assert(pow10(2) == 100);
    assert(pow10(3) == 1000);
    assert(pow10(4) == 10000);
    assert(pow10(5) == 100000);
    assert(pow10(6) == 1000000);
    assert(pow10(7) == 10000000);
    assert(pow10(8) == 100000000);
    assert(pow10(9) == 1000000000);
}

/// Parses the decimal digit group of `s` from character `from` (inclusive)
/// to `to` (exclusive).
fn parse_dec_group(s: &str, from: usize, to: usize) -> (r: Option<u32>)
    requires
        from <= to <= s@.len(),
        to - from <= 9,
    ensures
        match r {
            Some(v) => all_digits(s@.subrange(from as int, to as int)) && v == dec_val(
                s@.subrange(from as int, to as int),
            ),
            None => !all_digits(s@.subrange(from as int, to as int)),
        },
{
    let mut acc: u32 = 0;
    let mut i: usize = from;
    proof {
        assert(s@.subrange(from as int, from as int) =~= Seq::<char>::empty());
        lemma_pow10_small();
    }
    while i < to
        invariant
            from <= i <= to <= s@.len(),
            to - from <= 9,
            all_digits(s@.subrange(from as int, i as int)),
            acc == dec_val(s@.subrange(from as int, i as int)),
            acc < pow10((i - from) as nat),
            pow10(9) == 1000000000,
        decreases to - i,
    {
        let c = s.get_char(i);
        let code = c as u32;
        if code < 48 || code > 57 {
            proof {
                assert(s@.subrange(from as int, to as int)[i - from] == s@[i as int]);
            }
            return None;
        }
        proof {
            lemma_pow10_small();
            lemma_dec_val_bound(s@.subrange(from as int, i as int));
            let g = s@.subrange(from as int, i as int + 1);
            assert(g.drop_last() =~= s@.subrange(from as int, i as int));
            assert(g.last() == s@[i as int]);
            assert(pow10((i - from) as nat) <= pow10(8)) by {
                lemma_pow10_mono((i - from) as nat, 8);
            }
        }
        acc = acc * 10 + (code - 48);
        i += 1;
    }
    proof {
        assert(s@.subrange(from as int, i as int) =~= s@.subrange(from as int, to as int));
    }
    Some(acc)
}

/// Powers of ten grow with the exponent.
pub proof fn lemma_pow10_mono(a: nat, b: nat)
    requires
        a <= b,
    ensures
        pow10(a) <= pow10(b),
    decreases b,
{
    if a < b {
        lemma_pow10_mono(a, (b - 1) as nat);
        assert(pow10(b) == 10 * pow10((b - 1) as nat));
        assert(pow10((b - 1) as nat) >= 1) by {
            lemma_pow10_pos((b - 1) as nat);
        }
    }
}

/// Powers of ten are positive.
pub proof fn lemma_pow10_pos(n: nat)
    ensures
        pow10(n) >= 1,
    decreases n,
{
    if n > 0 {
        lemma_pow10_pos((n - 1) as nat);
    }
}

/// Number of days of month `m` of year `y`.
pub fn days_in_month_of(y: u32, m: u32) -> (r: u32)
    requires
        1 <= m <= 12,
    ensures
        r == days_in_month(y as int, m as int),
{
    if m == 2 {
        if y % 4 == 0 && (y % 100 != 0 || y % 400 == 0) {
            29
        } else {
            28
        }
    } else if m == 4 || m == 6 || m == 9 || m == 11 {
        30
    } else {
        31
    }
}

impl Date {
    /// Builds a date from components, or `None` when they do not form a real
    /// calendar date and clock time of the wire template's range.
    pub fn new(year: u32, month: u32, day: u32, hour: u32, minute: u32, second: u32) -> (r: Option<
        Date,
    >)
        ensures
            ({
                let d = Date { year, month, day, hour, minute, second };
                if d.wf() {
                    r == Some(d)
                } else {
                    r is None
                }
            }),
    {
        if year <= 9999 && 1 <= month && month <= 12 && 1 <= day && hour <= 23 && minute <= 59
            && second <= 59 && day <= days_in_month_of(year, month) {
            Some(Date { year, month, day, hour, minute, second })
        } else {
            None
        }
    }

    /// Formats this date as the wire template `YYYYMMDDTHHMMSSZ`.
    pub fn format(&self) -> (r: String)
        ensures
            r@ == date_text(*self),
    {
        let mut out = fmt_dec_exec(self.year, 4);
        out.append(fmt_dec_exec(self.month, 2).as_str());
        out.append(fmt_dec_exec(self.day, 2).as_str());
        out.append("T");
        out.append(fmt_dec_exec(self.hour, 2).as_str());
        out.append(fmt_dec_exec(self.minute, 2).as_str());
        out.append(fmt_dec_exec(self.second, 2).as_str());
        out.append("Z");
        proof {
            reveal_strlit("T");
            reveal_strlit("Z");
            assert("T"@ =~= seq!['T']);
            assert("Z"@ =~= seq!['Z']);
            assert(out@ =~= date_text(*self));
        }
        out
    }
}

/// Relies on `chrono::Utc::now` and `chrono::NaiveDateTime`'s `Datelike` /
/// `Timelike` accessors: the current UTC wall-clock time, read out as
/// `(year, month, day, hour, minute, second)`. The accessors promise month
/// in `1..=12`, day in `1..=31`, hour below 24, and minute and second below
/// 60; the year and the exact moment depend on the clock, so nothing more
/// is promised.
#[verifier::external_body]
fn clock_now_parts() -> (r: (i32, u32, u32, u32, u32, u32))
    ensures
        1 <= r.1 <= 12,
        1 <= r.2 <= 31,
        r.3 <= 23,
        r.4 <= 59,
        r.5 <= 59,
{
    let n = chrono::Utc::now().naive_utc();
    (
        chrono::Datelike::year(&n),
        chrono::Datelike::month(&n),
        chrono::Datelike::day(&n),
        chrono::Timelike::hour(&n),
        chrono::Timelike::minute(&n),
        chrono::Timelike::second(&n),
    )
}

impl Date {
    /// The current UTC wall-clock time. Falls back to the epoch when the
    /// clock reports components no wire-format date can carry.
    pub fn now() -> (r: Date)
        ensures
            r.wf(),
    {
        let (y, mo, d, h, mi, s) = clock_now_parts();
        if y >= 0 && y <= 9999 {
            match Date::new(y as u32, mo, d, h, mi, s) {
                Some(date) => date,
                None => Date { year: 1970, month: 1, day: 1, hour: 0, minute: 0, second: 0 },
            }
        } else {
            Date { year: 1970, month: 1, day: 1, hour: 0, minute: 0, second: 0 }
        }
    }
}

/// Parses wire text of the template `YYYYMMDDTHHMMSSZ` into a date.
pub fn parse_date(s: &str) -> (r: Option<Date>)
    ensures
        r == date_of_text(s@),
{
    if s.unicode_len() != 16 {
        return None;
    }
    if s.get_char(8) != 'T' || s.get_char(15) != 'Z' {
        return None;
    }
    let year = match parse_dec_group(s, 0, 4) {
        Some(v) => v,
        None => {
            proof {
                lemma_group_digits(s@, 0, 4, 0, 8);
            }
            return None;
        },
    };
    let month = match parse_dec_group(s, 4, 6) {
        Some(v) => v,
        None => {
            proof {
                lemma_group_digits(s@, 4, 6, 0, 8);
            }
            return None;
        },
    };
    let day = match parse_dec_group(s, 6, 8) {
        Some(v) => v,
        None => {
            proof {
                lemma_group_digits(s@, 6, 8, 0, 8);
            }
            return None;
        },
    };
    let hour = match parse_dec_group(s, 9, 11) {
        Some(v) => v,
        None => {
            proof {
                lemma_group_digits(s@, 9, 11, 9, 15);
            }
            return None;
        },
    };
    let minute = match parse_dec_group(s, 11, 13) {
        Some(v) => v,
        None => {
            proof {
                lemma_group_digits(s@, 11, 13, 9, 15);
            }
            return None;
        },
    };
    let second = match parse_dec_group(s, 13, 15) {
        Some(v) => v,
        None => {
            proof {
                lemma_group_digits(s@, 13, 15, 9, 15);
            }
            return None;
        },
    };
    proof {
        assert(all_digits(s@.subrange(0, 8))) by {
            let t = s@.subrange(0, 8);
            assert(forall|i: int| 0 <= i < 4 ==> t[i] == s@.subrange(0, 4)[i]);
            assert(forall|i: int| 4 <= i < 6 ==> t[i] == s@.subrange(4, 6)[i - 4]);
            assert(forall|i: int| 6 <= i < 8 ==> t[i] == s@.subrange(6, 8)[i - 6]);
        }
        assert(all_digits(s@.subrange(9, 15))) by {
            let t = s@.subrange(9, 15);
            assert(forall|i: int| 0 <= i < 2 ==> t[i] == s@.subrange(9, 11)[i]);
            assert(forall|i: int| 2 <= i < 4 ==> t[i] == s@.subrange(11, 13)[i - 2]);
            assert(forall|i: int| 4 <= i < 6 ==> t[i] == s@.subrange(13, 15)[i - 4]);
        }
    }
    Date::new(year, month, day, hour, minute, second)
}

/// If a digit group inside an all-digit span has a non-digit, the span has
/// one too.
proof fn lemma_group_digits(s: Seq<char>, from: int, to: int, lo: int, hi: int)
    requires
        0 <= lo <= from <= to <= hi <= s.len(),
        !all_digits(s.subrange(from, to)),
    ensures
        !all_digits(s.subrange(lo, hi)),
{
    let g = s.subrange(from, to);
    let t = s.subrange(lo, hi);
    assert(exists|i: int| 0 <= i < g.len() && !is_digit(g[i])) by {
        if forall|i: int| 0 <= i < g.len() ==> is_digit(#[trigger] g[i]) {
            assert(all_digits(g));
        }
    }
    let i = choose|i: int| 0 <= i < g.len() && !is_digit(g[i]);
    assert(t[from - lo + i] == g[i]);
}

} // verus!
