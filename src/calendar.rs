//! Gregorian calendar predicates.

use vstd::prelude::*;

verus! {

/// Gregorian leap-year rule: divisible by 4, and either not divisible by 100
/// or divisible by 400.
pub open spec fn leap(year: int) -> bool {
    year % 4 == 0 && (year % 100 != 0 || year % 400 == 0)
}

/// Number of days of `month` (1 to 12) in `year`.
pub open spec fn month_length(month: int, year: int) -> int {
    if month == 1 || month == 3 || month == 5 || month == 7 || month == 8 || month == 10
        || month == 12 {
        31
    } else if month == 4 || month == 6 || month == 9 || month == 11 {
        30
    } else if leap(year) {
        29
    } else {
        28
    }
}

/// Whether `day` is the last day of `month` in `year`; false for a month
/// outside 1 to 12.
pub open spec fn end_of_month(day: int, month: int, year: int) -> bool {
    1 <= month <= 12 && day == month_length(month, year)
}

/// Whether `year` is a leap year of the proleptic Gregorian calendar.
pub fn is_leap_year(year: i32) -> (r: bool)
    ensures
        r == leap(year as int),
{
    if year % 4 != 0 {
        false
    } else if year % 100 != 0 {
        true
    } else {
        year % 400 == 0
    }
}

/// Whether `day` is the last day of `month` in `year`. A month outside 1 to 12
/// has no last day, so the answer there is false.
pub fn is_end_of_month(day: u32, month: u32, year: i32) -> (r: bool)
    ensures
        r == end_of_month(day as int, month as int, year as int),
{
    if month == 1 || month == 3 || month == 5 || month == 7 || month == 8 || month == 10
        || month == 12 {
        day == 31
    } else if month == 4 || month == 6 || month == 9 || month == 11 {
        day == 30
    } else if month != 2 {
        false
    } else if is_leap_year(year) {
        day == 29
    } else {
        day == 28
    }
}

/// Days of the months before `month` (1 to 12) in a common year.
pub open spec fn days_before_month_common(month: int) -> int {
    if month <= 1 {
        0
    } else if month == 2 {
        31
    } else if month == 3 {
        59
    } else if month == 4 {
        90
    } else if month == 5 {
        120
    } else if month == 6 {
        151
    } else if month == 7 {
        181
    } else if month == 8 {
        212
    } else if month == 9 {
        243
    } else if month == 10 {
        273
    } else if month == 11 {
        304
    } else {
        334
    }
}

/// Position of a day within its year, January 1 being 1.
pub open spec fn ordinal(year: int, month: int, day: int) -> int {
    days_before_month_common(month) + (if month > 2 && leap(year) { 1int } else { 0int }) + day
}

/// Days of all years from 1 up to but excluding `year` (negative before
/// year 1): `365` per year plus one per leap year, counted by floor division.
pub open spec fn days_before_year(year: int) -> int {
    365 * (year - 1) + (year - 1) / 4 - (year - 1) / 100 + (year - 1) / 400
}

/// Day count of the proleptic Gregorian calendar, with 0001-01-01 as day 1.
pub open spec fn day_number(year: int, month: int, day: int) -> int {
    days_before_year(year) + ordinal(year, month, day)
}

} // verus!
