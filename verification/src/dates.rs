//! Calendar dates.
//!
//! A date is carried as year, month and day.  chrono assigns each existing
//! date a day number in the proleptic Gregorian calendar (1 January of year
//! 1 is day 1); all date arithmetic in this library is exact integer work
//! on such day numbers.

use vstd::prelude::*;

verus! {

/// A calendar date: year, month (1 to 12) and day of month.
#[derive(Clone, Copy, Debug, PartialEq, Eq, Structural)]
pub struct DateYmd {
    pub year: i32,
    pub month: u32,
    pub day: u32,
}

/// The day number chrono assigns to a calendar date, or `None` when the
/// date does not exist or lies outside chrono's range of years.
pub uninterp spec fn day_number_of(year: i32, month: u32, day: u32) -> Option<i64>;

/// Relies on chrono's `NaiveDate::from_ymd_opt`, which returns `None`
/// exactly for nonexistent or out-of-range calendar dates, and on
/// `Datelike::num_days_from_ce`, which counts the days of the proleptic
/// Gregorian calendar as an `i32`, with 1 January of year 1 as day 1.
#[verifier::external_body]
pub(crate) fn day_number(d: DateYmd) -> (r: Option<i64>)
    ensures
        r == day_number_of(d.year, d.month, d.day),
        r is Some ==> i32::MIN <= r.unwrap() <= i32::MAX,
{
    chrono::NaiveDate::from_ymd_opt(d.year, d.month, d.day).map(
        |date| chrono::Datelike::num_days_from_ce(&date) as i64,
    )
}

} // verus!
