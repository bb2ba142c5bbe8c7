//! The epoch of the Snowflake timestamps, computed on the proleptic Gregorian calendar.
use vstd::prelude::*;

verus! {

/// A leap year of the proleptic Gregorian calendar.
pub open spec fn is_leap_year(year: int) -> bool {
    (year % 4 == 0 && year % 100 != 0) || year % 400 == 0
}

/// Number of days of a month (1 to 12) of a year.
pub open spec fn days_in_month(year: int, month: int) -> int {
    if month == 2 {
        if is_leap_year(year) {
            29
        } else {
            28
        }
    } else if month == 4 || month == 6 || month == 9 || month == 11 {
        30
    } else {
        31
    }
}

/// A day that exists in the calendar, within the years that a chrono `NaiveDate` can hold.
pub open spec fn valid_calendar_date(year: int, month: int, day: int) -> bool {
    &&& -262143 <= year <= 262142
    &&& 1 <= month <= 12
    &&& 1 <= day <= days_in_month(year, month)
}

/// A time of day without leap second.
pub open spec fn valid_time_of_day(hour: int, minute: int, second: int) -> bool {
    hour < 24 && minute < 60 && second < 60
}

/// A date and time that chrono can represent.
pub open spec fn valid_date_time(year: i32, month: u32, day: u32, hour: u32, min: u32, sec: u32) -> bool {
    valid_calendar_date(year as int, month as int, day as int) && valid_time_of_day(
        hour as int,
        min as int,
        sec as int,
    )
}

/// Leap years in `.. year`, counted from an arbitrary origin (floor division).
pub open spec fn leap_years_through(year: int) -> int {
    year / 4 - year / 100 + year / 400
}

/// Days from 1970-01-01 to January 1 of `year`.
pub open spec fn days_before_year(year: int) -> int {
    365 * (year - 1970) + leap_years_through(year - 1) - leap_years_through(1969)
}

/// Days from January 1 to the first day of `month` (1 to 12) in `year`.
pub open spec fn days_before_month(year: int, month: int) -> int {
    let common: int = if month == 1 {
        0
    } else if month == 2 {
        31
    } else if month == 3 {
        59
    } else if month == 4 {
        90
    } else if month == 5 {
        120
    } else if month == 6 {
        151
    } else if month == 7 {
        181
    } else if month == 8 {
        212
    } else if month == 9 {
        243
    } else if month == 10 {
        273
    } else if month == 11 {
        304
    } else {
        334
    };
    if month > 2 && is_leap_year(year) {
        common + 1
    } else {
        common
    }
}

/// Milliseconds from 1970-01-01 00:00:00 UTC to the given UTC date and time, leap seconds not
/// counted (Unix time).
pub open spec fn utc_timestamp_millis(
    year: int,
    month: int,
    day: int,
    hour: int,
    minute: int,
    second: int,
) -> int {
    let days = days_before_year(year) + days_before_month(year, month) + day - 1;
    (((days * 24 + hour) * 60 + minute) * 60 + second) * 1000
}

/// chrono's `NaiveDate::from_ymd_opt` and `NaiveTime::from_hms_opt`, joined by
/// `NaiveDateTime::new`, read back by `and_utc().timestamp_millis()`.
///
/// Trusted: the result is `Some` exactly for a day that exists in the calendar within chrono's
/// years (-262143 to 262142) and a time of day with hour, minute and second in range; its value
/// is what chrono documents for `timestamp_millis`, the number of non-leap milliseconds since
/// January 1, 1970 UTC, on the proleptic Gregorian calendar.
#[verifier::external_body]
fn utc_millis(year: i32, month: u32, day: u32, hour: u32, min: u32, sec: u32) -> (ms: Option<i64>)
    ensures
        ms is Some <==> valid_date_time(year, month, day, hour, min, sec),
        ms matches Some(v) ==> v == utc_timestamp_millis(
            year as int,
            month as int,
            day as int,
            hour as int,
            min as int,
            sec as int,
        ),
{
    let date = chrono::NaiveDate::from_ymd_opt(year, month, day)?;
    let time = chrono::NaiveTime::from_hms_opt(hour, min, sec)?;
    Some(chrono::NaiveDateTime::new(date, time).and_utc().timestamp_millis())
}

/// Base timestamp for metw.cc.
///
/// 2022 Aug 12, 00:00:00 UTC (`1660262400000`), in milliseconds since the Unix epoch.
pub fn epoch() -> (ms: u64)
    ensures
        ms == 1660262400000,
{
    let ms = utc_millis(2022, 8, 12, 0, 0, 0);
    assert(leap_years_through(2021) == 490 && leap_years_through(1969) == 477);
    assert(days_before_year(2022) == 18993);
    assert(!is_leap_year(2022));
    assert(days_before_month(2022, 8) == 212);
    assert(utc_timestamp_millis(2022, 8, 12, 0, 0, 0) == 1660262400000);
    ms.unwrap() as u64
}

} // verus!
