//! Dates of the Gregorian calendar.

use vstd::prelude::*;

verus! {

/// `year` has a 29th of February.
pub open spec fn is_leap_year(year: int) -> bool {
    year % 4 == 0 && (year % 100 != 0 || year % 400 == 0)
}

/// Number of days of `month` in `year`, for a month between 1 and 12.
pub open spec fn days_in_month(year: int, month: int) -> int {
    if month == 2 {
        if is_leap_year(year) {
            29
        } else {
            28
        }
    } else if month == 4 || month == 6 || month == 9 || month == 11 {
        30
    } else {
        31
    }
}

/// The day `day` of month `month` of `year` exists in the calendar.
pub open spec fn is_calendar_date(year: int, month: int, day: int) -> bool {
    1 <= month <= 12 && 1 <= day <= days_in_month(year, month)
}

/// Asks `chrono::NaiveDate::from_ymd_opt` whether a date exists.
///
/// Not proved here: that `from_ymd_opt` returns a date exactly for the days
/// that the Gregorian calendar has. Its documentation says that it returns
/// `None` when the day does not exist, when month or day is invalid, or when
/// the year is out of its range; the years admitted here are well inside that
/// range.
#[verifier::external_body]
pub(crate) fn calendar_date_exists(year: i32, month: u32, day: u32) -> (exists: bool)
    requires
        0 <= year <= 9999,
    ensures
        exists == is_calendar_date(year as int, month as int, day as int),
{
    chrono::NaiveDate::from_ymd_opt(year, month, day).is_some()
}

} // verus!
