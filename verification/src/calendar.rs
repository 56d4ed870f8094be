//! Calendar dates and how a date and time is written.

use vstd::prelude::*;
use vstd::string::*;

use crate::number::digits;
use crate::text::characters;

verus! {

/// A day of the calendar.
#[derive(Clone, Copy, Debug, PartialEq, Eq, Structural)]
pub struct Date {
    pub year: i32,
    pub month: u32,
    pub day: u32,
}

/// Whether a year has a 29th of February.
pub open spec fn leap_year(year: int) -> bool {
    year % 4 == 0 && (year % 100 != 0 || year % 400 == 0)
}

/// The number of days of a month.
pub open spec fn month_length(year: int, month: int) -> int {
    if month == 2 {
        if leap_year(year) {
            29
        } else {
            28
        }
    } else if month == 4 || month == 6 || month == 9 || month == 11 {
        30
    } else {
        31
    }
}

/// Whether a date exists, in the years that dates are kept for.
pub open spec fn on_calendar(date: Date) -> bool {
    &&& -262143 <= date.year <= 262142
    &&& 1 <= date.month <= 12
    &&& 1 <= date.day <= month_length(date.year as int, date.month as int)
}

/// Whether a time of day exists.
pub open spec fn on_clock(hour: u32, minute: u32, second: u32) -> bool {
    hour < 24 && minute < 60 && second < 60
}

/// The digits of `n`, filled up with zeros in front to `width` of them.
pub open spec fn padded(n: nat, width: nat) -> Seq<char> {
    let body = digits(n);
    if body.len() < width {
        Seq::new((width - body.len()) as nat, |i: int| '0') + body
    } else {
        body
    }
}

/// A year: four digits, and a sign before those that need more or lie before year zero.
pub open spec fn year_text(year: int) -> Seq<char> {
    if 0 <= year <= 9999 {
        padded(year as nat, 4)
    } else if year < 0 {
        seq!['-'] + padded((-year) as nat, 4)
    } else {
        seq!['+'] + padded(year as nat, 4)
    }
}

/// A date and time in UTC, such as `2010-07-16T00:00:00+00:00`.
pub open spec fn rfc3339_utc(date: Date, hour: u32, minute: u32, second: u32) -> Seq<char> {
    year_text(date.year as int) + seq!['-'] + padded(date.month as nat, 2) + seq!['-'] + padded(
        date.day as nat,
        2,
    ) + seq!['T'] + padded(hour as nat, 2) + seq![':'] + padded(minute as nat, 2) + seq![':']
        + padded(second as nat, 2) + seq!['+', '0', '0', ':', '0', '0']
}

/// How a date and time in UTC is written; only dates and times of day that exist are.
pub open spec fn written_utc(date: Date, hour: u32, minute: u32, second: u32) -> Option<Seq<char>> {
    if on_calendar(date) && on_clock(hour, minute, second) {
        Some(rfc3339_utc(date, hour, minute, second))
    } else {
        None
    }
}

/// Calls `to_rfc3339` of `chrono::DateTime<Utc>` on the date and time that
/// `chrono::NaiveDate::from_ymd_opt` and `and_hms_opt` build: there is one exactly if the date is on
/// the calendar and the time of day exists, and it is written in full, without fractions.
#[verifier::external_body]
pub(crate) fn to_rfc3339(date: Date, hour: u32, minute: u32, second: u32) -> (r: Option<String>)
    ensures
        characters(r) == written_utc(date, hour, minute, second),
{
    chrono::NaiveDate::from_ymd_opt(date.year, date.month, date.day)
        .and_then(|d| d.and_hms_opt(hour, minute, second))
        .map(|t| t.and_utc().to_rfc3339())
}

} // verus!
