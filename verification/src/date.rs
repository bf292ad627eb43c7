//! Civil dates and their conversion to fractional-year chart coordinates.
//!
//! A timestamp becomes the x-coordinate `year + day_of_year / days_in_year`.
//! The fraction is kept as an exact rational (`num / den`) so that the
//! conversion can be specified and proved without floating point; the
//! binary divides the two fields when it plots.

use vstd::prelude::*;

verus! {

/// A civil (Gregorian) calendar date.
#[derive(Clone, Copy, Debug, PartialEq, Eq, Structural)]
pub struct Date {
    pub year: i32,
    /// 1-based month.
    pub month: u32,
    /// 1-based day of month.
    pub day: u32,
}

/// A fractional year `year + num / den`, the chart x-coordinate of a date.
#[derive(Clone, Copy, Debug, PartialEq, Eq, Structural)]
pub struct FracYear {
    pub year: i32,
    /// Day of year, 1-based: January 1 has `num == 1`.
    pub num: u32,
    /// Days in the year: 366 for leap years, else 365.
    pub den: u32,
}

/// Gregorian leap-year rule: divisible by 4, and not by 100 unless also
/// divisible by 400.
pub open spec fn spec_is_leap_year(year: int) -> bool {
    year % 4 == 0 && (year % 100 != 0 || year % 400 == 0)
}

/// Days in each month; February depends on the leap-year flag.
pub open spec fn spec_month_len(is_leap: bool, month: int) -> int {
    if month == 2 {
        if is_leap {
            29
        } else {
            28
        }
    } else if month == 4 || month == 6 || month == 9 || month == 11 {
        30
    } else {
        31
    }
}

/// Days strictly before the start of `month` within one year.
pub open spec fn spec_month_day(is_leap: bool, month: int) -> int
    decreases month,
{
    if month <= 1 {
        0
    } else {
        spec_month_day(is_leap, month - 1) + spec_month_len(is_leap, month - 1)
    }
}

pub open spec fn spec_days_in_year(year: int) -> int {
    if spec_is_leap_year(year) {
        366
    } else {
        365
    }
}

impl Date {
    /// The month is in range and the day exists in that month of that year.
    pub open spec fn valid(self) -> bool {
        &&& 1 <= self.month <= 12
        &&& 1 <= self.day
        &&& self.day <= spec_month_len(spec_is_leap_year(self.year as int), self.month as int)
    }

    /// Whether this is a real calendar date: `valid`, decided at run time.
    pub fn check_valid(&self) -> (b: bool)
        ensures
            b == self.valid(),
    {
        1 <= self.month && self.month <= 12 && 1 <= self.day && self.day <= month_len(
            is_leap_year(self.year),
            self.month,
        )
    }
}

/// Days in a month of the given length class.
pub fn month_len(is_leap: bool, month: u32) -> (r: u32)
    ensures
        r == spec_month_len(is_leap, month as int),
{
    if month == 2 {
        if is_leap {
            29
        } else {
            28
        }
    } else if month == 4 || month == 6 || month == 9 || month == 11 {
        30
    } else {
        31
    }
}

/// The exact fractional year of a date: the year, the 1-based day of the
/// year as numerator, and the length of the year as denominator.
pub open spec fn spec_time_to_year(d: Date) -> FracYear {
    FracYear {
        year: d.year,
        num: (spec_month_day(spec_is_leap_year(d.year as int), d.month as int) + d.day) as u32,
        den: spec_days_in_year(d.year as int) as u32,
    }
}

pub fn is_leap_year(year: i32) -> (r: bool)
    ensures
        r == spec_is_leap_year(year as int),
{
    match (year % 4, year % 100, year % 400) {
        (0, 0, 0) => true,
        (0, 0, _) => false,
        (0, _, _) => true,
        (_, _, _) => false,
    }
}

pub fn month_day(is_leap: bool, month: u32) -> (r: u32)
    requires
        1 <= month <= 12,
    ensures
        r == spec_month_day(is_leap, month as int),
    decreases month,
{
    proof {
        reveal_with_fuel(spec_month_day, 14);
    }
    match month {
        1 => 0,
        2 => month_day(is_leap, 1) + 31,
        3 => month_day(is_leap, 2) + if is_leap { 29 } else { 28 },
        4 => month_day(is_leap, 3) + 31,
        5 => month_day(is_leap, 4) + 30,
        6 => month_day(is_leap, 5) + 31,
        7 => month_day(is_leap, 6) + 30,
        8 => month_day(is_leap, 7) + 31,
        9 => month_day(is_leap, 8) + 31,
        10 => month_day(is_leap, 9) + 30,
        11 => month_day(is_leap, 10) + 31,
        12 => month_day(is_leap, 11) + 30,
        _ => 0,
    }
}

proof fn lemma_month_day_mono(is_leap: bool, a: int, b: int)
    requires
        1 <= a <= b <= 13,
    ensures
        spec_month_day(is_leap, a) <= spec_month_day(is_leap, b),
    decreases b - a,
{
    if a < b {
        lemma_month_day_mono(is_leap, a, b - 1);
    }
}

/// A month's days all fall within the year: the days before a month plus
/// the month's own length never pass the length of the year.
proof fn lemma_month_day_bound(is_leap: bool, month: int)
    requires
        1 <= month <= 12,
    ensures
        spec_month_day(is_leap, month) + spec_month_len(is_leap, month) <= if is_leap {
            366int
        } else {
            365int
        },
{
    reveal_with_fuel(spec_month_day, 14);
    lemma_month_day_mono(is_leap, month + 1, 13);
}

pub fn time_to_year(d: Date) -> (r: FracYear)
    requires
        d.valid(),
    ensures
        r == spec_time_to_year(d),
        1 <= r.num <= r.den,
        r.den == spec_days_in_year(d.year as int),
{
    let is_leap = is_leap_year(d.year);
    proof {
        lemma_month_day_bound(is_leap, d.month as int);
    }
    let num = month_day(is_leap, d.month) + d.day;
    let den: u32 = if is_leap {
        366
    } else {
        365
    };
    FracYear { year: d.year, num, den }
}

/// The fractional-year coordinate of January 1 of any year `y` lies in
/// `[y, y + 1/365]`, and strictly inside `[y, y + 1/365)` when `y` is a
/// leap year; stated over the exact rational `num / den`.
pub proof fn lemma_jan1_fractional_year(y: i32)
    ensures
        ({
            let f = spec_time_to_year(Date { year: y, month: 1, day: 1 });
            &&& f.year == y
            &&& 0 < f.num
            &&& f.num * 365 <= f.den
            &&& spec_is_leap_year(y as int) ==> f.num * 365 < f.den
        }),
{
}

} // verus!
