//! Fraction of a year between two calendar dates under the common
//! day-count conventions (30/360 US and European, actual/actual,
//! actual/360 and actual/365).

pub mod calendar;
pub mod date;
pub mod convention;
pub mod laws;

pub use calendar::{is_end_of_month, is_leap_year};
pub use convention::{DayCountConvention, DayCountConventionError, YearFraction};
pub use date::Date;
