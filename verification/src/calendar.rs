//! Calendar days as plain numbers, and what the calendar says about them.
//!
//! A day is an `i32` counting days from 1970-01-01 (day 0) in the proleptic
//! Gregorian calendar. Differences and weekdays are plain arithmetic on that
//! number; ISO weeks and months are read from `chrono`.

use vstd::prelude::*;
use chrono::Datelike;
use chrono::NaiveDate;

verus! {

/// The first day `chrono::NaiveDate` can hold: January 1 of the year -262143.
pub const MIN_DAY: i32 = -96_465_292;

/// The last day `chrono::NaiveDate` can hold: December 31 of the year 262142.
pub const MAX_DAY: i32 = 95_026_236;

/// The day before any record: 1970-01-01.
pub const EPOCH_DAY: i32 = 0;

/// Whether `day` lies in the range of dates that the calendar can name.
pub open spec fn in_calendar(day: int) -> bool {
    MIN_DAY <= day <= MAX_DAY
}

/// The weekday of `day`, counted from Sunday = 0 to Saturday = 6.
/// Day 0 is a Thursday.
pub open spec fn weekday_of(day: int) -> int {
    (day + 4) % 7
}

/// The ISO 8601 week number (1 to 53) of a day in the calendar.
pub uninterp spec fn iso_week_of(day: int) -> int;

/// The month number (1 to 12) of a day in the calendar.
pub uninterp spec fn month_of(day: int) -> int;

/// Whole days from `earlier` to `later`; negative when `later` comes first.
pub fn days_between(earlier: i32, later: i32) -> (diff: i64)
    ensures
        diff == later - earlier,
{
    let l: i64 = later as i64;
    let e: i64 = earlier as i64;
    l - e
}

/// The weekday of `day`, counted from Sunday = 0.
pub fn weekday_from_sunday(day: i32) -> (w: i32)
    ensures
        w == weekday_of(day as int),
        0 <= w < 7,
{
    let shifted: i64 = day as i64 + 4;
    let r: i64 = shifted % 7;
    if r < 0 {
        (r + 7) as i32
    } else {
        r as i32
    }
}

/// `chrono::NaiveDate::from_epoch_days`, `Datelike::iso_week` of the date
/// and `IsoWeek::week` of that. Trusted: for a day from `MIN_DAY` to
/// `MAX_DAY` the date exists, and its week number is the one named
/// `iso_week_of`, between 1 and 53.
#[verifier::external_body]
pub(crate) fn week_in_calendar(day: i32) -> (week: u32)
    requires
        in_calendar(day as int),
    ensures
        week == iso_week_of(day as int),
        1 <= week <= 53,
{
    NaiveDate::from_epoch_days(day).unwrap().iso_week().week()
}

/// `chrono::NaiveDate::from_epoch_days` and `Datelike::month` of the date.
/// Trusted: for a day from `MIN_DAY` to `MAX_DAY` the date exists, and its
/// month is the one named `month_of`, between 1 and 12.
#[verifier::external_body]
pub(crate) fn month_in_calendar(day: i32) -> (month: u32)
    requires
        in_calendar(day as int),
    ensures
        month == month_of(day as int),
        1 <= month <= 12,
{
    NaiveDate::from_epoch_days(day).unwrap().month()
}

/// The ISO week number of `day`, or `None` when the calendar cannot name
/// the day.
pub fn iso_week(day: i32) -> (week: Option<u32>)
    ensures
        week is Some <==> in_calendar(day as int),
        week matches Some(w) ==> w == iso_week_of(day as int) && 1 <= w <= 53,
{
    if day < MIN_DAY || day > MAX_DAY {
        None
    } else {
        Some(week_in_calendar(day))
    }
}

/// The month number of `day`, or `None` when the calendar cannot name the
/// day.
pub fn month(day: i32) -> (month: Option<u32>)
    ensures
        month is Some <==> in_calendar(day as int),
        month matches Some(m) ==> m == month_of(day as int) && 1 <= m <= 12,
{
    if day < MIN_DAY || day > MAX_DAY {
        None
    } else {
        Some(month_in_calendar(day))
    }
}

} // verus!
