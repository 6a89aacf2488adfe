//! Day-count conventions: selection, day differences, bases and year fractions.

use vstd::prelude::*;
use crate::calendar::{end_of_month, is_end_of_month, is_leap_year, leap};
use crate::date::Date;

verus! {

/// The five day-count conventions.
#[derive(Clone, Copy, Debug, PartialEq, Eq, Structural, Hash)]
pub enum DayCountConvention {
    /// 30/360 US (NASD).
    US30360,
    /// Actual/actual.
    ActAct,
    /// Actual/360.
    Act360,
    /// Actual/365.
    Act365,
    /// 30/360 European.
    EU30360,
}

/// Failure to select a convention, carrying the rejected input as text.
#[derive(Debug, PartialEq, Eq)]
pub enum DayCountConventionError {
    InvalidValue { val: String },
}

/// The convention that the integer code `code` selects.
pub open spec fn code_convention(code: int) -> Option<DayCountConvention> {
    if code == 0 {
        Some(DayCountConvention::US30360)
    } else if code == 1 {
        Some(DayCountConvention::ActAct)
    } else if code == 2 {
        Some(DayCountConvention::Act360)
    } else if code == 3 {
        Some(DayCountConvention::Act365)
    } else if code == 4 {
        Some(DayCountConvention::EU30360)
    } else {
        None
    }
}

/// The convention that the exact, case-sensitive name `name` selects.
pub open spec fn name_convention(name: Seq<char>) -> Option<DayCountConvention> {
    if name == "nasd30/360"@ {
        Some(DayCountConvention::US30360)
    } else if name == "act/act"@ {
        Some(DayCountConvention::ActAct)
    } else if name == "act360"@ {
        Some(DayCountConvention::Act360)
    } else if name == "act365"@ {
        Some(DayCountConvention::Act365)
    } else if name == "eur30/360"@ {
        Some(DayCountConvention::EU30360)
    } else {
        None
    }
}

/// The decimal digit for `d` (0 to 9).
pub open spec fn digit_char(d: nat) -> char {
    if d == 0 {
        '0'
    } else if d == 1 {
        '1'
    } else if d == 2 {
        '2'
    } else if d == 3 {
        '3'
    } else if d == 4 {
        '4'
    } else if d == 5 {
        '5'
    } else if d == 6 {
        '6'
    } else if d == 7 {
        '7'
    } else if d == 8 {
        '8'
    } else {
        '9'
    }
}

/// Decimal notation of `n`, without sign or leading zeros.
pub open spec fn decimal(n: nat) -> Seq<char>
    decreases n,
{
    if n < 10 {
        seq![digit_char(n)]
    } else {
        decimal(n / 10).push(digit_char(n % 10))
    }
}

/// Relies on the `ToString` of `u8` (its `Display`), which writes the value in
/// decimal notation.
#[verifier::external_body]
fn code_text(code: u8) -> (r: String)
    ensures
        r@ == decimal(code as nat),
{
    code.to_string()
}

impl DayCountConvention {
    /// Selects a convention by code: 0 US 30/360, 1 actual/actual,
    /// 2 actual/360, 3 actual/365, 4 European 30/360. Any other code is
    /// rejected with the code written in decimal.
    pub fn from_int(day_count_convention: u8) -> (r: Result<Self, DayCountConventionError>)
        ensures
            r is Ok <==> day_count_convention <= 4,
            match r {
                Ok(c) => code_convention(day_count_convention as int) == Some(c),
                Err(DayCountConventionError::InvalidValue { val }) => val@ == decimal(
                    day_count_convention as nat,
                ),
            },
    {
        match day_count_convention {
            0 => Ok(DayCountConvention::US30360),
            1 => Ok(DayCountConvention::ActAct),
            2 => Ok(DayCountConvention::Act360),
            3 => Ok(DayCountConvention::Act365),
            4 => Ok(DayCountConvention::EU30360),
            other => Err(DayCountConventionError::InvalidValue { val: code_text(other) }),
        }
    }

    /// Selects a convention by its exact name: "nasd30/360", "act/act",
    /// "act360", "act365" or "eur30/360". Any other text is rejected and
    /// carried in the error unchanged.
    pub fn from_str(day_count_convention: &str) -> (r: Result<Self, DayCountConventionError>)
        ensures
            r is Ok <==> name_convention(day_count_convention@) is Some,
            match r {
                Ok(c) => name_convention(day_count_convention@) == Some(c),
                Err(DayCountConventionError::InvalidValue { val }) => val@
                    == day_count_convention@,
            },
    {
        let name: String = day_count_convention.to_owned();
        if name == "nasd30/360".to_owned() {
            Ok(DayCountConvention::US30360)
        } else if name == "act/act".to_owned() {
            Ok(DayCountConvention::ActAct)
        } else if name == "act360".to_owned() {
            Ok(DayCountConvention::Act360)
        } else if name == "act365".to_owned() {
            Ok(DayCountConvention::Act365)
        } else if name == "eur30/360".to_owned() {
            Ok(DayCountConvention::EU30360)
        } else {
            Err(DayCountConventionError::InvalidValue { val: name })
        }
    }
}

/// 30/360 day count: twelve months of thirty days to the year.
pub open spec fn days360(
    start_day: int,
    start_month: int,
    start_year: int,
    end_day: int,
    end_month: int,
    end_year: int,
) -> int {
    (end_year - start_year) * 360 + (end_month - start_month) * 30 + (end_day - start_day)
}

/// Day 31 counts as day 30.
pub open spec fn clamp31(day: int) -> int {
    if day == 31 {
        30
    } else {
        day
    }
}

/// European 30/360 days from `start` to `end`.
pub open spec fn euro360_days(start: Date, end: Date) -> int {
    days360(
        clamp31(start.day as int),
        start.month as int,
        start.year as int,
        clamp31(end.day as int),
        end.month as int,
        end.year as int,
    )
}

/// Whether `d` is the last day of February.
pub open spec fn last_of_february(d: Date) -> bool {
    d.month == 2 && end_of_month(d.day as int, 2, d.year as int)
}

/// US (NASD) 30/360 days from `start` to `end`. `method_three` selects the
/// variant that always moves an end on February's last day or on day 31 to
/// day 30; `use_eom` moves a start on February's last day to day 30.
pub open spec fn nasd360_days(start: Date, end: Date, method_three: bool, use_eom: bool) -> int {
    let end_day = if last_of_february(end) && (last_of_february(start) || method_three) {
        30
    } else {
        end.day as int
    };
    let end_day = if end_day == 31 && (start.day >= 30 || method_three) {
        30
    } else {
        end_day
    };
    let start_day = clamp31(start.day as int);
    let start_day = if use_eom && start.month == 2 && end_of_month(start_day, 2, start.year as int) {
        30
    } else {
        start_day
    };
    days360(start_day, start.month as int, start.year as int, end_day, end.month as int, end.year as int)
}

/// Days in `year`.
pub open spec fn year_length(year: int) -> int {
    if leap(year) {
        366
    } else {
        365
    }
}

/// Days of the years from `from` up to but excluding `to`.
pub open spec fn days_of_years(from: int, to: int) -> int
    decreases to - from,
{
    if to <= from {
        0
    } else {
        days_of_years(from, to - 1) + year_length(to - 1)
    }
}

impl DayCountConvention {
    /// Days from `start` to `end` that the convention counts.
    pub open spec fn day_difference(self, start: Date, end: Date) -> int {
        match self {
            DayCountConvention::US30360 => nasd360_days(start, end, false, true),
            DayCountConvention::EU30360 => euro360_days(start, end),
            _ => end.day_count() - start.day_count(),
        }
    }

    /// Year basis of the convention for `start` to `end`, as a number of days
    /// over a number of years (the average year length for actual/actual over
    /// several years).
    pub open spec fn basis_of(self, start: Date, end: Date) -> (int, int) {
        match self {
            DayCountConvention::Act365 => (365, 1),
            DayCountConvention::ActAct => actual_basis(start, end),
            _ => (360, 1),
        }
    }
}

/// Actual/actual year basis from `start` to a later `end`.
pub open spec fn actual_basis(start: Date, end: Date) -> (int, int) {
    if start.year == end.year {
        (year_length(start.year as int), 1)
    } else if end.year == start.year + 1 && (start.month > end.month || (start.month == end.month
        && start.day > end.day)) {
        if leap(start.year as int) {
            if start.month < 2 || (start.month == 2 && start.day <= 29) {
                (366, 1)
            } else {
                (365, 1)
            }
        } else if leap(end.year as int) && (end.month > 2 || (end.month == 2 && end.day == 29)) {
            (366, 1)
        } else {
            (365, 1)
        }
    } else {
        (days_of_years(start.year as int, end.year + 1), end.year - start.year + 1)
    }
}

/// A year fraction as exact integers: `numerator` days over a year basis of
/// `basis_days` days per `basis_years` years, negated where `negative` is set.
/// Its value is `numerator * basis_years / basis_days`, with the sign applied.
#[derive(Clone, Copy, Debug, PartialEq, Eq, Structural, Hash)]
pub struct YearFraction {
    pub numerator: i64,
    pub basis_days: i64,
    pub basis_years: i64,
    pub negative: bool,
}

impl YearFraction {
    /// The numerator with the sign applied.
    pub open spec fn signed_numerator(&self) -> int {
        if self.negative {
            -self.numerator
        } else {
            self.numerator as int
        }
    }
}

/// The pair `(start, end)` in chronological order.
pub open spec fn ordered(start: Date, end: Date) -> (Date, Date) {
    if end.before(&start) {
        (end, start)
    } else {
        (start, end)
    }
}

impl DayCountConvention {
    /// Days that the convention counts between two dates, taken in
    /// chronological order.
    pub open spec fn counted_days(self, start: Date, end: Date) -> int {
        self.day_difference(ordered(start, end).0, ordered(start, end).1)
    }

    /// Year basis of the convention between two dates, taken in chronological
    /// order.
    pub open spec fn year_basis(self, start: Date, end: Date) -> (int, int) {
        self.basis_of(ordered(start, end).0, ordered(start, end).1)
    }

    /// Counted days, negative where `start` comes after `end`.
    pub open spec fn signed_counted_days(self, start: Date, end: Date) -> int {
        if end.before(&start) {
            -self.counted_days(start, end)
        } else {
            self.counted_days(start, end)
        }
    }

    /// 30/360 day count from day, month and year values.
    pub fn days360(
        &self,
        start_day: u32,
        start_month: u32,
        start_year: i32,
        end_day: u32,
        end_month: u32,
        end_year: i32,
    ) -> (r: i64)
        ensures
            r == days360(
                start_day as int,
                start_month as int,
                start_year as int,
                end_day as int,
                end_month as int,
                end_year as int,
            ),
    {
        (end_year as i64 - start_year as i64) * 360 + (end_month as i64 - start_month as i64) * 30
            + (end_day as i64 - start_day as i64)
    }

    /// European 30/360 days from `start` to `end`.
    pub fn euro360(&self, start: Date, end: Date) -> (r: i64)
        ensures
            r == euro360_days(start, end),
    {
        let mut start_day = start.day;
        let mut end_day = end.day;
        if start_day == 31 {
            start_day = 30;
        }
        if end_day == 31 {
            end_day = 30;
        }
        self.days360(start_day, start.month, start.year, end_day, end.month, end.year)
    }

    /// US (NASD) 30/360 days from `start` to `end`; `method` 3 selects the
    /// variant that always moves an end at a month's close to day 30.
    pub fn nasd360(&self, start: Date, end: Date, method: u8, use_eom: bool) -> (r: i64)
        ensures
            r == nasd360_days(start, end, method == 3, use_eom),
    {
        let mut start_day = start.day;
        let mut end_day = end.day;
        if end.month == 2 && is_end_of_month(end_day, end.month, end.year) && ((start.month == 2
            && is_end_of_month(start_day, start.month, start.year)) || method == 3) {
            end_day = 30;
        }
        if end_day == 31 && (start_day >= 30 || method == 3) {
            end_day = 30;
        }
        if start_day == 31 {
            start_day = 30;
        }
        if use_eom && start.month == 2 && is_end_of_month(start_day, start.month, start.year) {
            start_day = 30;
        }
        self.days360(start_day, start.month, start.year, end_day, end.month, end.year)
    }

    /// Days from `start` to `end` under this convention.
    pub fn diff_dts(&self, start: Date, end: Date) -> (r: i64)
        requires
            start.wf(),
            end.wf(),
        ensures
            r == self.day_difference(start, end),
    {
        match self {
            DayCountConvention::US30360 => self.nasd360(start, end, 0, true),
            DayCountConvention::EU30360 => self.euro360(start, end),
            _ => end.days_from_ce() as i64 - start.days_from_ce() as i64,
        }
    }

    /// Year basis from `start` to an `end` not before it, as days over years.
    pub fn basis(&self, start: Date, end: Date) -> (r: (i64, i64))
        requires
            start.wf(),
            end.wf(),
            !end.before(&start),
        ensures
            (r.0 as int, r.1 as int) == self.basis_of(start, end),
    {
        match self {
            DayCountConvention::Act365 => (365, 1),
            DayCountConvention::ActAct => actual_actual_basis(start, end),
            _ => (360, 1),
        }
    }
}

impl DayCountConvention {
    /// Fraction of a year between `start` and `end`, in either order; it is
    /// never negative.
    pub fn yearfrac(&self, start: Date, end: Date) -> (r: YearFraction)
        requires
            start.wf(),
            end.wf(),
        ensures
            r.numerator == self.counted_days(start, end),
            (r.basis_days as int, r.basis_years as int) == self.year_basis(start, end),
            !r.negative,
    {
        let (first, last) = if end.is_before(&start) {
            (end, start)
        } else {
            (start, end)
        };
        let numerator = self.diff_dts(first, last);
        let (basis_days, basis_years) = self.basis(first, last);
        YearFraction { numerator, basis_days, basis_years, negative: false }
    }

    /// Fraction of a year from `start` to `end`, negative where `start`
    /// comes after `end`.
    pub fn yearfrac_signed(&self, start: Date, end: Date) -> (r: YearFraction)
        requires
            start.wf(),
            end.wf(),
        ensures
            r.numerator == self.counted_days(start, end),
            (r.basis_days as int, r.basis_years as int) == self.year_basis(start, end),
            r.negative == end.before(&start),
            r.signed_numerator() == self.signed_counted_days(start, end),
    {
        let unsigned = self.yearfrac(start, end);
        YearFraction { negative: end.is_before(&start), ..unsigned }
    }
}

/// Actual/actual year basis from `start` to an `end` not before it.
fn actual_actual_basis(start: Date, end: Date) -> (r: (i64, i64))
    requires
        start.wf(),
        end.wf(),
        !end.before(&start),
    ensures
        (r.0 as int, r.1 as int) == actual_basis(start, end),
{
    let (start_day, start_month, start_year) = (start.day, start.month, start.year);
    let (end_day, end_month, end_year) = (end.day, end.month, end.year);
    if start_year == end_year {
        if is_leap_year(start_year) {
            (366, 1)
        } else {
            (365, 1)
        }
    } else if end_year - 1 == start_year && (start_month > end_month || (start_month == end_month
        && start_day > end_day)) {
        if is_leap_year(start_year) {
            if start_month < 2 || (start_month == 2 && start_day <= 29) {
                (366, 1)
            } else {
                (365, 1)
            }
        } else if is_leap_year(end_year) {
            if end_month > 2 || (end_month == 2 && end_day == 29) {
                (366, 1)
            } else {
                (365, 1)
            }
        } else {
            (365, 1)
        }
    } else {
        let mut total: i64 = 0;
        let mut year: i32 = start_year;
        while year <= end_year
            invariant
                start.wf(),
                end.wf(),
                start_year == start.year,
                end_year == end.year,
                start_year <= year <= end_year + 1,
                total == days_of_years(start_year as int, year as int),
                total <= 366 * (year - start_year),
            decreases end_year + 1 - year,
        {
            if is_leap_year(year) {
                total = total + 366;
            } else {
                total = total + 365;
            }
            year = year + 1;
        }
        (total, end_year as i64 - start_year as i64 + 1)
    }
}

} // verus!
