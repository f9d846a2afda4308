//! A proleptic Gregorian calendar date, held as plain year/month/day values.
//!
//! The planner only ever reads the number of days between two dates, so each
//! date is mapped to its day number: the count of days since the calendar's
//! first day (year 1, January 1 is day 0). Years 1 through 9999 are supported.

use vstd::prelude::*;

verus! {

/// The largest day number a supported date can have (9999-12-31).
pub const MAX_DAY_NUMBER: u64 = 3652058;

#[derive(Clone, Copy, PartialEq, Eq, Structural, Debug)]
pub struct Date {
    pub year: u64,
    pub month: u64,
    pub day: u64,
}

pub open spec fn spec_is_leap_year(year: int) -> bool {
    (year % 4 == 0 && year % 100 != 0) || year % 400 == 0
}

pub open spec fn spec_days_in_month(year: int, month: int) -> int {
    if month == 2 {
        if spec_is_leap_year(year) {
            29
        } else {
            28
        }
    } else if month == 4 || month == 6 || month == 9 || month == 11 {
        30
    } else {
        31
    }
}

/// Days in the months of `year` that come before `month`.
pub open spec fn spec_days_before_month(year: int, month: int) -> int {
    let base: int = if month == 1 {
        0
    } else if month == 2 {
        31
    } else if month == 3 {
        59
    } else if month == 4 {
        90
    } else if month == 5 {
        120
    } else if month == 6 {
        151
    } else if month == 7 {
        181
    } else if month == 8 {
        212
    } else if month == 9 {
        243
    } else if month == 10 {
        273
    } else if month == 11 {
        304
    } else {
        334
    };
    if month > 2 && spec_is_leap_year(year) {
        base + 1
    } else {
        base
    }
}

/// Days in the years that come before `year`: 365 per year plus one per leap
/// year.
pub open spec fn spec_days_before_year(year: int) -> int {
    365 * (year - 1) + (year - 1) / 4 - (year - 1) / 100 + (year - 1) / 400
}

pub open spec fn spec_day_number(year: int, month: int, day: int) -> int {
    spec_days_before_year(year) + spec_days_before_month(year, month) + (day - 1)
}

impl Date {
    pub open spec fn valid(self) -> bool {
        &&& 1 <= self.year <= 9999
        &&& 1 <= self.month <= 12
        &&& 1 <= self.day <= spec_days_in_month(self.year as int, self.month as int)
    }

    /// The date's day number within the supported calendar.
    pub open spec fn spec_day_number(self) -> int {
        spec_day_number(self.year as int, self.month as int, self.day as int)
    }

    /// Builds a date, rejecting any year/month/day combination that is not a
    /// calendar date of the supported range.
    pub fn new(year: u64, month: u64, day: u64) -> (r: Option<Date>)
        ensures
            match r {
                Some(d) => d.valid() && d.year == year && d.month == month && d.day == day,
                None => !(Date { year, month, day }).valid(),
            },
    {
        if 1 <= year && year <= 9999 && 1 <= month && month <= 12 && 1 <= day && day
            <= days_in_month(year, month) {
            Some(Date { year, month, day })
        } else {
            None
        }
    }

    pub fn day_number(&self) -> (n: u64)
        requires
            self.valid(),
        ensures
            n == self.spec_day_number(),
            n <= MAX_DAY_NUMBER,
    {
        proof {
            lemma_day_number_bounds(*self);
        }
        let y = self.year - 1;
        let before_year = 365 * y + y / 4 - y / 100 + y / 400;
        let before_month = days_before_month(self.year, self.month);
        before_year + before_month + (self.day - 1)
    }

    /// Whether `self` is on or before `other` in calendar order.
    pub fn is_on_or_before(&self, other: &Date) -> (r: bool)
        requires
            self.valid(),
            other.valid(),
        ensures
            r <==> self.spec_day_number() <= other.spec_day_number(),
    {
        self.day_number() <= other.day_number()
    }
}

pub fn is_leap_year(year: u64) -> (r: bool)
    ensures
        r <==> spec_is_leap_year(year as int),
{
    (year % 4 == 0 && year % 100 != 0) || year % 400 == 0
}

pub fn days_in_month(year: u64, month: u64) -> (r: u64)
    requires
        1 <= month <= 12,
    ensures
        r == spec_days_in_month(year as int, month as int),
{
    if month == 2 {
        if is_leap_year(year) {
            29
        } else {
            28
        }
    } else if month == 4 || month == 6 || month == 9 || month == 11 {
        30
    } else {
        31
    }
}

fn days_before_month(year: u64, month: u64) -> (r: u64)
    requires
        1 <= month <= 12,
    ensures
        r == spec_days_before_month(year as int, month as int),
{
    let base: u64 = if month == 1 {
        0
    } else if month == 2 {
        31
    } else if month == 3 {
        59
    } else if month == 4 {
        90
    } else if month == 5 {
        120
    } else if month == 6 {
        151
    } else if month == 7 {
        181
    } else if month == 8 {
        212
    } else if month == 9 {
        243
    } else if month == 10 {
        273
    } else if month == 11 {
        304
    } else {
        334
    };
    if month > 2 && is_leap_year(year) {
        base + 1
    } else {
        base
    }
}

/// A valid date's day number lies between 0 and `MAX_DAY_NUMBER`.
pub proof fn lemma_day_number_bounds(d: Date)
    requires
        d.valid(),
    ensures
        0 <= d.spec_day_number() <= MAX_DAY_NUMBER,
{
    let y = d.year - 1;
    assert(0 <= y <= 9998);
    assert(y / 4 <= 2499 && y / 100 <= 99 && y / 400 <= 24) by (nonlinear_arith)
        requires
            0 <= y <= 9998,
    ;
    assert(y / 100 <= y / 4) by (nonlinear_arith)
        requires
            y >= 0,
    ;
    assert(0 <= y / 4 && 0 <= y / 100 && 0 <= y / 400) by (nonlinear_arith)
        requires
            y >= 0,
    ;
}

} // verus!
