//! Properties that relate several calls of the year-fraction functions.

use vstd::prelude::*;
use crate::calendar::{days_before_year, ordinal, month_length};
use crate::convention::{DayCountConvention, code_convention, days_of_years, ordered, year_length};
use crate::date::Date;

verus! {

/// A year's day count grows by the length of that year.
pub proof fn lemma_days_before_next_year(year: int)
    ensures
        days_before_year(year + 1) == days_before_year(year) + year_length(year),
{
    let x = year - 1;
    assert((x + 1) / 4 - x / 4 == if year % 4 == 0 { 1int } else { 0int });
    assert((x + 1) / 100 - x / 100 == if year % 100 == 0 { 1int } else { 0int });
    assert((x + 1) / 400 - x / 400 == if year % 400 == 0 { 1int } else { 0int });
}

/// Counts of days before later years are never smaller.
pub proof fn lemma_days_before_year_monotonic(earlier: int, later: int)
    requires
        earlier <= later,
    ensures
        days_before_year(earlier) <= days_before_year(later),
    decreases later - earlier,
{
    if earlier < later {
        lemma_days_before_year_monotonic(earlier, later - 1);
        lemma_days_before_next_year(later - 1);
    }
}

/// The position of an existing date within its year lies between 1 and the
/// year's length, and it grows with the date.
pub proof fn lemma_ordinal_bounds(year: int, month: int, day: int)
    requires
        1 <= month <= 12,
        1 <= day <= month_length(month, year),
    ensures
        1 <= ordinal(year, month, day) <= year_length(year),
{
}

/// A date that comes before another has a smaller day count.
pub proof fn lemma_day_count_increasing(a: Date, b: Date)
    requires
        a.wf(),
        b.wf(),
        a.before(&b),
    ensures
        a.day_count() < b.day_count(),
{
    lemma_ordinal_bounds(a.year as int, a.month as int, a.day as int);
    lemma_ordinal_bounds(b.year as int, b.month as int, b.day as int);
    if a.year < b.year {
        lemma_days_before_next_year(a.year as int);
        lemma_days_before_year_monotonic(a.year + 1, b.year as int);
    }
}

/// Two dates in the same order or neither before the other are the same date.
proof fn lemma_order_total(a: Date, b: Date)
    requires
        !a.before(&b),
        !b.before(&a),
    ensures
        a == b,
{
}

/// The year fraction does not depend on the order of its dates: swapping
/// them gives the same counted days over the same basis.
pub proof fn lemma_yearfrac_symmetric(c: DayCountConvention, a: Date, b: Date)
    requires
        a.wf(),
        b.wf(),
    ensures
        c.counted_days(a, b) == c.counted_days(b, a),
        c.year_basis(a, b) == c.year_basis(b, a),
{
    if !a.before(&b) && !b.before(&a) {
        lemma_order_total(a, b);
    }
}

/// Every convention's year basis between two dates is a positive number of
/// days over a positive number of years.
pub proof fn lemma_basis_positive(c: DayCountConvention, a: Date, b: Date)
    requires
        a.wf(),
        b.wf(),
    ensures
        c.year_basis(a, b).0 > 0,
        c.year_basis(a, b).1 > 0,
{
    let (first, last) = ordered(a, b);
    if c == DayCountConvention::ActAct && first.year != last.year {
        lemma_days_of_years_positive(first.year as int, last.year + 1);
    }
}

/// Days of a nonempty run of years are positive.
proof fn lemma_days_of_years_positive(from: int, to: int)
    requires
        from < to,
    ensures
        days_of_years(from, to) >= 365 * (to - from),
    decreases to - from,
{
    if from < to - 1 {
        lemma_days_of_years_positive(from, to - 1);
    } else {
        assert(days_of_years(from, to - 1) == 0);
    }
}

/// The year fraction from a date to itself is zero under every convention:
/// no days counted, over a positive basis.
pub proof fn lemma_yearfrac_zero_on_equal(c: DayCountConvention, a: Date)
    requires
        a.wf(),
    ensures
        c.counted_days(a, a) == 0,
        c.year_basis(a, a).0 > 0,
        c.year_basis(a, a).1 > 0,
{
    lemma_basis_positive(c, a, a);
}

/// Swapping the dates of the signed year fraction negates it, over the same
/// basis; where the later date comes first and the convention counts any days
/// between them, the result is negative. The actual-day conventions count
/// days between any two distinct dates.
pub proof fn lemma_yearfrac_signed_antisymmetric(c: DayCountConvention, a: Date, b: Date)
    requires
        a.wf(),
        b.wf(),
        b.before(&a),
    ensures
        c.signed_counted_days(a, b) == -c.signed_counted_days(b, a),
        c.year_basis(a, b) == c.year_basis(b, a),
        c.counted_days(a, b) != 0 ==> c.signed_counted_days(a, b) < 0,
        c != DayCountConvention::US30360 && c != DayCountConvention::EU30360
            ==> c.signed_counted_days(a, b) < 0,
{
    lemma_yearfrac_symmetric(c, a, b);
    lemma_day_count_increasing(b, a);
    assert(!a.before(&b));
}

/// Each code from 0 to 4 selects a convention, and distinct codes select
/// distinct conventions.
pub proof fn lemma_codes_select_distinct(a: u8, b: u8)
    requires
        a <= 4,
        b <= 4,
        a != b,
    ensures
        code_convention(a as int) is Some,
        code_convention(a as int) != code_convention(b as int),
{
}

} // verus!
