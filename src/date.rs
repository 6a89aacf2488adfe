//! Calendar dates as plain year, month and day values.

use vstd::prelude::*;
use chrono::Datelike;
use crate::calendar::{day_number, month_length, is_leap_year};

verus! {

/// Earliest year that the day counting accepts.
pub const MIN_YEAR: i32 = -262143;

/// Latest year that the day counting accepts.
pub const MAX_YEAR: i32 = 262142;

/// A date of the proleptic Gregorian calendar.
#[derive(Clone, Copy, Debug, PartialEq, Eq, Structural, Hash)]
pub struct Date {
    pub year: i32,
    pub month: u32,
    pub day: u32,
}

impl Date {
    /// The date exists (month 1 to 12, day within the month) and its year lies
    /// in the supported range.
    pub open spec fn wf(&self) -> bool {
        &&& MIN_YEAR <= self.year <= MAX_YEAR
        &&& 1 <= self.month <= 12
        &&& 1 <= self.day <= month_length(self.month as int, self.year as int)
    }

    /// Chronological order: by year, then month, then day.
    pub open spec fn before(&self, other: &Date) -> bool {
        ||| self.year < other.year
        ||| self.year == other.year && self.month < other.month
        ||| self.year == other.year && self.month == other.month && self.day < other.day
    }

    /// Day count of this date, 0001-01-01 being day 1.
    pub open spec fn day_count(&self) -> int {
        day_number(self.year as int, self.month as int, self.day as int)
    }

    /// The date `year`-`month`-`day`, or `None` where it does not exist or
    /// lies outside the supported years.
    pub fn new(year: i32, month: u32, day: u32) -> (r: Option<Date>)
        ensures
            r is Some <==> (Date { year, month, day }).wf(),
            r matches Some(d) ==> d.year == year && d.month == month && d.day == day,
    {
        if year < MIN_YEAR || year > MAX_YEAR || month < 1 || month > 12 || day < 1 {
            return None;
        }
        let last: u32 = if month == 4 || month == 6 || month == 9 || month == 11 {
            30
        } else if month != 2 {
            31
        } else if is_leap_year(year) {
            29
        } else {
            28
        };
        if day > last {
            None
        } else {
            Some(Date { year, month, day })
        }
    }

    /// The year.
    pub fn year(&self) -> (r: i32)
        ensures
            r == self.year,
    {
        self.year
    }

    /// The month, 1 to 12.
    pub fn month(&self) -> (r: u32)
        ensures
            r == self.month,
    {
        self.month
    }

    /// The day of the month, from 1.
    pub fn day(&self) -> (r: u32)
        ensures
            r == self.day,
    {
        self.day
    }

    /// Whether this date comes strictly before `other`.
    pub fn is_before(&self, other: &Date) -> (r: bool)
        ensures
            r == self.before(other),
    {
        self.year < other.year || (self.year == other.year && (self.month < other.month
            || (self.month == other.month && self.day < other.day)))
    }

    /// Day count of this date, 0001-01-01 being day 1.
    pub fn days_from_ce(&self) -> (r: i32)
        requires
            self.wf(),
        ensures
            r == self.day_count(),
    {
        day_count_of(self.year, self.month, self.day)
    }
}

/// Relies on chrono's `NaiveDate::from_ymd_opt`, which accepts every existing
/// date with a year from -262143 to 262142, and on `Datelike::num_days_from_ce`,
/// which counts days with 0001-01-01 as day 1 (365 per year before the date's
/// year, one more per leap year among them, then the day's place in its year).
#[verifier::external_body]
fn day_count_of(year: i32, month: u32, day: u32) -> (r: i32)
    requires
        (Date { year, month, day }).wf(),
    ensures
        r == day_number(year as int, month as int, day as int),
{
    chrono::NaiveDate::from_ymd_opt(year, month, day).unwrap().num_days_from_ce()
}

} // verus!
