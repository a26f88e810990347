//! A calendar-day model for the engine. Rate-table rows are keyed by a day
//! number so that the fallback search can step back one day at a time; dates
//! are parsed from and formatted to `YYYY-MM-DD`.

use crate::text;
use vstd::arithmetic::div_mod::lemma_fundamental_div_mod;
use vstd::arithmetic::div_mod::lemma_fundamental_div_mod_converse;
use vstd::arithmetic::div_mod::lemma_mod_mod;
use vstd::prelude::*;

verus! {

/// A day of the proleptic Gregorian calendar, in the range of years the
/// engine accepts (1 to 9999).
#[derive(Debug, Clone, Copy, PartialEq, Eq, Structural)]
pub struct Date {
    pub year: u32,
    pub month: u32,
    pub day: u32,
}

/// Gregorian leap-year rule.
pub open spec fn is_leap_year(y: int) -> bool {
    y % 4 == 0 && (y % 100 != 0 || y % 400 == 0)
}

/// Days in month `m` of year `y`.
pub open spec fn spec_days_in_month(y: int, m: int) -> int {
    if m == 2 {
        if is_leap_year(y) {
            29
        } else {
            28
        }
    } else if m == 4 || m == 6 || m == 9 || m == 11 {
        30
    } else {
        31
    }
}

/// Days in month `m` of year `y`.
pub fn days_in_month(y: u32, m: u32) -> (r: u32)
    requires
        1 <= m <= 12,
    ensures
        r == spec_days_in_month(y as int, m as int),
{
    if m == 2 {
        if y % 4 == 0 && (y % 100 != 0 || y % 400 == 0) {
            29
        } else {
            28
        }
    } else if m == 4 || m == 6 || m == 9 || m == 11 {
        30
    } else {
        31
    }
}

impl Date {
    /// A well-formed calendar day.
    pub open spec fn valid(self) -> bool {
        &&& 1 <= self.year <= 9999
        &&& 1 <= self.month <= 12
        &&& 1 <= self.day <= spec_days_in_month(self.year as int, self.month as int)
    }

    /// The number of days from 0000-03-01 of the proleptic Gregorian
    /// calendar to this day (the standard civil-day count, shifted so that
    /// every value in range is non-negative).
    pub open spec fn spec_day_number(self) -> int {
        let y: int = if self.month <= 2 {
            self.year - 1
        } else {
            self.year as int
        };
        let era: int = y / 400;
        let yoe: int = y % 400;
        let mp: int = (self.month + 9) % 12;
        let doy: int = (153 * mp + 2) / 5 + self.day - 1;
        let doe: int = yoe * 365 + yoe / 4 - yoe / 100 + doy;
        era * 146097 + doe
    }

    /// Computes the day number used to key the rate table.
    pub fn day_number(&self) -> (r: u64)
        requires
            self.valid(),
        ensures
            r as int == self.spec_day_number(),
    {
        let y: u64 = if self.month <= 2 {
            (self.year - 1) as u64
        } else {
            self.year as u64
        };
        let era: u64 = y / 400;
        let yoe: u64 = y % 400;
        let mp: u64 = ((self.month as u64) + 9) % 12;
        let doy: u64 = (153 * mp + 2) / 5 + (self.day as u64) - 1;
        let doe: u64 = yoe * 365 + yoe / 4 - yoe / 100 + doy;
        era * 146097 + doe
    }

    /// Whether the fields form a well-formed calendar day.
    pub fn check_valid(&self) -> (r: bool)
        ensures
            r == self.valid(),
    {
        1 <= self.year && self.year <= 9999 && 1 <= self.month && self.month <= 12 && 1 <= self.day
            && self.day <= days_in_month(self.year, self.month)
    }
}

/// The calendar day after `d`.
pub open spec fn spec_next_day(d: Date) -> Date {
    if d.day < spec_days_in_month(d.year as int, d.month as int) {
        Date { year: d.year, month: d.month, day: (d.day + 1) as u32 }
    } else if d.month < 12 {
        Date { year: d.year, month: (d.month + 1) as u32, day: 1 }
    } else {
        Date { year: (d.year + 1) as u32, month: 1, day: 1 }
    }
}

/// Stepping the quotient and remainder of `x` by `den` one up.
proof fn lemma_div_mod_step(x: int, den: int)
    requires
        x >= 0,
        den > 0,
    ensures
        x % den < den - 1 ==> (x + 1) / den == x / den && (x + 1) % den == x % den + 1,
        x % den == den - 1 ==> (x + 1) / den == x / den + 1 && (x + 1) % den == 0,
{
    lemma_fundamental_div_mod(x, den);
    vstd::arithmetic::div_mod::lemma_mod_bound(x, den);
    if x % den < den - 1 {
        assert(x + 1 == (x / den) * den + (x % den + 1)) by (nonlinear_arith)
            requires
                x == den * (x / den) + x % den,
        ;
        lemma_fundamental_div_mod_converse(x + 1, den, x / den, x % den + 1);
    } else {
        assert(x + 1 == (x / den + 1) * den + 0) by (nonlinear_arith)
            requires
                x == den * (x / den) + x % den,
                x % den == den - 1,
        ;
        lemma_fundamental_div_mod_converse(x + 1, den, x / den + 1, 0);
    }
}

/// Law: the day number counts calendar days one by one. The day after `d`
/// is well-formed and its day number is exactly one more, for every day the
/// calendar model holds (up to the last day of year 9999, which has no
/// successor in range).
pub proof fn lemma_day_number_of_next(d: Date)
    requires
        d.valid(),
        !(d.year == 9999 && d.month == 12 && d.day == 31),
    ensures
        spec_next_day(d).valid(),
        spec_next_day(d).spec_day_number() == d.spec_day_number() + 1,
{
    let e = spec_next_day(d);
    let dim = spec_days_in_month(d.year as int, d.month as int);
    if d.day < dim {
        // same month: only the day-of-year term moves
    } else if d.month < 12 {
        if d.month == 2 {
            // February into March: the shifted year changes, so the era and
            // year-of-era terms step while the day-of-year resets
            let y = d.year as int;
            let a = y - 1;
            let era = a / 400;
            let yoe = a % 400;
            lemma_fundamental_div_mod(a, 400);
            lemma_mod_mod(a, 4, 100);
            lemma_mod_mod(a, 100, 4);
            lemma_div_mod_step(a, 400);
            lemma_div_mod_step(yoe, 4);
            lemma_div_mod_step(yoe, 100);
            // the remainders mod 4 and 100 agree between the year and its
            // year-of-era
            assert((a % 400) % 4 == a % 4);
            assert((a % 400) % 100 == a % 100);
            lemma_div_mod_step(a, 4);
            lemma_div_mod_step(a, 100);
            if yoe < 399 {
                assert(y / 400 == era && y % 400 == yoe + 1);
                if yoe % 100 == 99 {
                    lemma_mod_mod(yoe, 4, 25);
                    assert((yoe % 100) % 4 == yoe % 4);
                    assert(yoe % 4 == 3);
                }
                assert(is_leap_year(y) <==> (yoe % 4 == 3 && yoe % 100 != 99));
            } else {
                assert(a == 400 * era + 399);
                assert(y == (era + 1) * 400 + 0) by (nonlinear_arith)
                    requires
                        a == 400 * era + 399,
                        y == a + 1,
                ;
                lemma_fundamental_div_mod_converse(y, 400, era + 1, 0);
                assert(is_leap_year(y));
                assert((era + 1) * 146097 == era * 146097 + 146097) by (nonlinear_arith);
            }
        }
        // the remaining month boundaries keep the shifted year, and the
        // day-of-year constants of consecutive months differ by that
        // month's length
    } else {
        // December into January: the shifted year is unchanged
    }
}

/// What `parse_date` accepts: exactly `YYYY-MM-DD`, four, two and two
/// decimal digits, naming a well-formed calendar day.
pub open spec fn spec_parse_date(s: Seq<char>) -> Option<Date> {
    if s.len() == 10 && text::is_digit(s[0]) && text::is_digit(s[1]) && text::is_digit(s[2])
        && text::is_digit(s[3]) && s[4] == '-' && text::is_digit(s[5]) && text::is_digit(s[6])
        && s[7] == '-' && text::is_digit(s[8]) && text::is_digit(s[9]) {
        let y: int = 1000 * text::digit_value(s[0]) + 100 * text::digit_value(s[1]) + 10
            * text::digit_value(s[2]) + text::digit_value(s[3]);
        let m: int = 10 * text::digit_value(s[5]) + text::digit_value(s[6]);
        let d: int = 10 * text::digit_value(s[8]) + text::digit_value(s[9]);
        let dt = Date { year: y as u32, month: m as u32, day: d as u32 };
        if dt.valid() {
            Some(dt)
        } else {
            None
        }
    } else {
        None
    }
}

/// Parses a `YYYY-MM-DD` date, as the rate table's first column holds one.
pub fn parse_date(s: &str) -> (r: Option<Date>)
    ensures
        r == spec_parse_date(s@),
        r is Some ==> r->Some_0.valid(),
{
    if s.unicode_len() != 10 {
        return None;
    }
    let d0: u32 = match text::read_digit(s.get_char(0)) {
        Some(v) => v,
        None => { return None },
    };
    let d1: u32 = match text::read_digit(s.get_char(1)) {
        Some(v) => v,
        None => { return None },
    };
    let d2: u32 = match text::read_digit(s.get_char(2)) {
        Some(v) => v,
        None => { return None },
    };
    let d3: u32 = match text::read_digit(s.get_char(3)) {
        Some(v) => v,
        None => { return None },
    };
    if s.get_char(4) != '-' {
        return None;
    }
    let m0: u32 = match text::read_digit(s.get_char(5)) {
        Some(v) => v,
        None => { return None },
    };
    let m1: u32 = match text::read_digit(s.get_char(6)) {
        Some(v) => v,
        None => { return None },
    };
    if s.get_char(7) != '-' {
        return None;
    }
    let e0: u32 = match text::read_digit(s.get_char(8)) {
        Some(v) => v,
        None => { return None },
    };
    let e1: u32 = match text::read_digit(s.get_char(9)) {
        Some(v) => v,
        None => { return None },
    };
    let dt = Date { year: 1000 * d0 + 100 * d1 + 10 * d2 + d3, month: 10 * m0 + m1, day: 10 * e0 + e1 };
    if dt.check_valid() {
        Some(dt)
    } else {
        None
    }
}

/// The `YYYY-MM-DD` form of `d`, zero padded.
pub open spec fn spec_format_date(d: Date) -> Seq<char> {
    seq![
        text::spec_digit_char(d.year as int / 1000),
        text::spec_digit_char((d.year as int / 100) % 10),
        text::spec_digit_char((d.year as int / 10) % 10),
        text::spec_digit_char(d.year as int % 10),
        '-',
        text::spec_digit_char(d.month as int / 10),
        text::spec_digit_char(d.month as int % 10),
        '-',
        text::spec_digit_char(d.day as int / 10),
        text::spec_digit_char(d.day as int % 10),
    ]
}

/// Formats `d` as `YYYY-MM-DD`, the form the ledger's import call takes.
pub fn format_date(d: &Date) -> (r: String)
    requires
        d.valid(),
    ensures
        r@ =~= spec_format_date(*d),
{
    proof {
        reveal_strlit("-");
    }
    let y: u64 = d.year as u64;
    let m: u64 = d.month as u64;
    let dd: u64 = d.day as u64;
    let mut s: String = String::from_str(text::digit_str(y / 1000));
    s.append(text::digit_str((y / 100) % 10));
    s.append(text::digit_str((y / 10) % 10));
    s.append(text::digit_str(y % 10));
    s.append("-");
    s.append(text::digit_str(m / 10));
    s.append(text::digit_str(m % 10));
    s.append("-");
    s.append(text::digit_str(dd / 10));
    s.append(text::digit_str(dd % 10));
    s
}

} // verus!
