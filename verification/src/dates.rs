//! Calendar dates and wall-clock times of day, as plain values.
//!
//! The sync engine works on proleptic Gregorian calendar dates with
//! four-digit years, which is all the upstream date format can carry.

use vstd::prelude::*;

verus! {

/// A calendar date in the proleptic Gregorian calendar.
#[derive(Clone, Copy, PartialEq, Eq, Structural, Debug)]
pub struct Date {
    pub year: i32,
    pub month: u8,
    pub day: u8,
}

/// A wall-clock time of day with second precision.
#[derive(Clone, Copy, PartialEq, Eq, Structural, Debug)]
pub struct TimeOfDay {
    pub hour: u8,
    pub minute: u8,
    pub second: u8,
}

pub open spec fn spec_is_leap_year(year: int) -> bool {
    year % 4 == 0 && (year % 100 != 0 || year % 400 == 0)
}

pub open spec fn spec_days_in_month(year: int, month: int) -> int {
    if month == 2 {
        if spec_is_leap_year(year) {
            29
        } else {
            28
        }
    } else if month == 4 || month == 6 || month == 9 || month == 11 {
        30
    } else {
        31
    }
}

impl Date {
    /// A genuine calendar date with a four-digit year.
    pub open spec fn wf(self) -> bool {
        &&& 1 <= self.year <= 9999
        &&& 1 <= self.month <= 12
        &&& 1 <= self.day <= spec_days_in_month(self.year as int, self.month as int)
    }

    /// The last date this library can represent.
    pub open spec fn is_max(self) -> bool {
        self.year == 9999 && self.month == 12 && self.day == 31
    }
}

impl TimeOfDay {
    pub open spec fn wf(self) -> bool {
        self.hour < 24 && self.minute < 60 && self.second < 60
    }
}

/// Strict ordering of dates: `a` falls before `b` in the calendar.
pub open spec fn date_lt(a: Date, b: Date) -> bool {
    ||| a.year < b.year
    ||| (a.year == b.year && a.month < b.month)
    ||| (a.year == b.year && a.month == b.month && a.day < b.day)
}

/// `a` falls before `b` in the calendar, or they are the same date.
pub open spec fn date_le(a: Date, b: Date) -> bool {
    date_lt(a, b) || a == b
}

/// The date one day after `d`.
pub open spec fn spec_next_day(d: Date) -> Date {
    if d.day < spec_days_in_month(d.year as int, d.month as int) {
        Date { year: d.year, month: d.month, day: (d.day + 1) as u8 }
    } else if d.month < 12 {
        Date { year: d.year, month: (d.month + 1) as u8, day: 1 }
    } else {
        Date { year: (d.year + 1) as i32, month: 1, day: 1 }
    }
}

pub fn is_leap_year(year: i32) -> (r: bool)
    ensures
        r == spec_is_leap_year(year as int),
{
    year % 4 == 0 && (year % 100 != 0 || year % 400 == 0)
}

pub fn days_in_month(year: i32, month: u8) -> (r: u8)
    ensures
        r as int == spec_days_in_month(year as int, month as int),
{
    if month == 2 {
        if is_leap_year(year) {
            29
        } else {
            28
        }
    } else if month == 4 || month == 6 || month == 9 || month == 11 {
        30
    } else {
        31
    }
}

impl Date {
    /// Builds a date after validating it, as the calendar has it.
    pub fn from_ymd(year: i32, month: u8, day: u8) -> (r: Option<Date>)
        ensures
            match r {
                Some(d) => {
                    &&& d == (Date { year, month, day })
                    &&& d.wf()
                },
                None => !(Date { year, month, day }).wf(),
            },
    {
        if 1 <= year && year <= 9999 && 1 <= month && month <= 12 && 1 <= day && day
            <= days_in_month(year, month) {
            Some(Date { year, month, day })
        } else {
            None
        }
    }

    /// `self` falls strictly before `other` in the calendar.
    pub fn lt(self, other: Date) -> (r: bool)
        ensures
            r == date_lt(self, other),
    {
        self.year < other.year || (self.year == other.year && (self.month < other.month || (
        self.month == other.month && self.day < other.day)))
    }

    /// `self` falls before `other`, or they are the same date.
    pub fn le(self, other: Date) -> (r: bool)
        ensures
            r == date_le(self, other),
    {
        self.lt(other) || (self.year == other.year && self.month == other.month && self.day
            == other.day)
    }

    /// The date one day later; the very last representable date has no successor.
    pub fn next_day(self) -> (r: Date)
        requires
            self.wf(),
            !self.is_max(),
        ensures
            r == spec_next_day(self),
            r.wf(),
            date_lt(self, r),
    {
        if self.day < days_in_month(self.year, self.month) {
            Date { year: self.year, month: self.month, day: self.day + 1 }
        } else if self.month < 12 {
            Date { year: self.year, month: self.month + 1, day: 1 }
        } else {
            Date { year: self.year + 1, month: 1, day: 1 }
        }
    }
}

/// How many leap years fall in [1, year).
pub open spec fn leap_years_before(year: int) -> int {
    let y = year - 1;
    y / 4 - y / 100 + y / 400
}

/// Days from January 1 of year 1 to January 1 of `year`.
pub open spec fn days_before_year(year: int) -> int {
    365 * (year - 1) + leap_years_before(year)
}

/// Days from January 1 to the first of `month`, within `year`.
pub open spec fn days_before_month(year: int, month: int) -> int {
    let leap: int = if spec_is_leap_year(year) {
        1
    } else {
        0
    };
    if month == 1 {
        0
    } else if month == 2 {
        31
    } else if month == 3 {
        59 + leap
    } else if month == 4 {
        90 + leap
    } else if month == 5 {
        120 + leap
    } else if month == 6 {
        151 + leap
    } else if month == 7 {
        181 + leap
    } else if month == 8 {
        212 + leap
    } else if month == 9 {
        243 + leap
    } else if month == 10 {
        273 + leap
    } else if month == 11 {
        304 + leap
    } else {
        334 + leap
    }
}

/// Days between January 1, 1970 and the date: its day number counted from
/// January 1 of year 1, less the epoch's own day number, 719162.
pub open spec fn epoch_days(d: Date) -> int {
    days_before_year(d.year as int) + days_before_month(d.year as int, d.month as int) + d.day - 1
        - 719162
}

/// A well-formed date never falls after December 31, 9999.
pub proof fn lemma_wf_date_le_max(d: Date)
    requires
        d.wf(),
    ensures
        date_le(d, Date { year: 9999, month: 12, day: 31 }),
{
}

/// The inclusive [January 1, December 31] window of one year.
pub fn year_window(year: i32) -> (r: Option<(Date, Date)>)
    ensures
        match r {
            Some(w) => {
                &&& w.0 == (Date { year, month: 1u8, day: 1u8 })
                &&& w.1 == (Date { year, month: 12u8, day: 31u8 })
                &&& w.0.wf()
                &&& w.1.wf()
                &&& date_le(w.0, w.1)
            },
            None => !(1 <= year <= 9999),
        },
{
    if 1 <= year && year <= 9999 {
        Some((Date { year, month: 1, day: 1 }, Date { year, month: 12, day: 31 }))
    } else {
        None
    }
}

} // verus!
