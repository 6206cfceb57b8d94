//! Dates of commits and of the bounds of a scan, read and written by the
//! `chrono` crate.

use vstd::prelude::*;
use crate::models::CommitDate;

verus! {

/// What `chrono::DateTime::to_rfc3339` writes for the moment `seconds` after
/// 1970-01-01 00:00:00 UTC, seen at `offset` seconds east of UTC; nothing
/// where chrono has no date for the moment or no such offset.
pub uninterp spec fn rfc3339_text(seconds: int, offset: int) -> Option<Seq<char>>;

/// The moment that `chrono::DateTime::parse_from_str` reads from a text
/// with the format `%Y-%m-%dT%H:%M:%S%z`, as in `2023-01-02T15:04:05-0700`,
/// in seconds after 1970-01-01 00:00:00 UTC; nothing where it reads none.
pub uninterp spec fn moment_of(text: Seq<char>) -> Option<int>;

/// The day that `chrono::NaiveDate::parse_from_str` reads from a text with
/// the format `%Y-%m-%d`, as in `2006-01-02`, by the number that chrono's
/// `Datelike::num_days_from_ce` gives it: January 1 of the year 1 is day 1,
/// and the days are those of the proleptic Gregorian calendar. Nothing where
/// chrono reads no day.
pub uninterp spec fn day_of(text: Seq<char>) -> Option<int>;

/// The number of 1970-01-01 among the days counted from the year 1.
pub open spec fn first_day() -> int {
    719_163
}

/// The first second of a day at offset zero, in seconds after 1970-01-01
/// 00:00:00 UTC. The day is counted from the year 1.
pub open spec fn midnight_on(day: int) -> int {
    (day - first_day()) * 86_400
}

/// The first second, at offset zero, of the day that a text names; nothing
/// where it names no day.
pub open spec fn midnight_of(text: Seq<char>) -> Option<int> {
    match day_of(text) {
        Some(day) => Some(midnight_on(day)),
        None => None,
    }
}

/// The text of an optional string.
pub open spec fn text_of(s: Option<String>) -> Option<Seq<char>> {
    match s {
        Some(t) => Some(t@),
        None => None,
    }
}

/// The number of an optional count of seconds.
pub open spec fn seconds_of(s: Option<i64>) -> Option<int> {
    match s {
        Some(t) => Some(t as int),
        None => None,
    }
}

/// The number of an optional day.
pub open spec fn day_number(d: Option<i32>) -> Option<int> {
    match d {
        Some(day) => Some(day as int),
        None => None,
    }
}

/// Makes a `chrono::DateTime<FixedOffset>` with `FixedOffset::east_opt`,
/// `DateTime::from_timestamp` and `with_timezone`, and calls `to_rfc3339` on
/// it. The text depends on the two numbers alone; the contract only gives it
/// a name.
#[verifier::external_body]
fn write_rfc3339(seconds: i64, offset: i32) -> (text: Option<String>)
    ensures
        text_of(text) == rfc3339_text(seconds as int, offset as int),
{
    let zone = chrono::FixedOffset::east_opt(offset)?;
    let utc = chrono::DateTime::from_timestamp(seconds, 0)?;
    Some(utc.with_timezone(&zone).to_rfc3339())
}

/// Calls `chrono::DateTime::parse_from_str` with the format
/// `%Y-%m-%dT%H:%M:%S%z` and takes the `timestamp` of what it gives.
#[verifier::external_body]
fn read_moment(text: &str) -> (seconds: Option<i64>)
    ensures
        seconds_of(seconds) == moment_of(text@),
{
    let moment = chrono::DateTime::parse_from_str(text, "%Y-%m-%dT%H:%M:%S%z").ok()?;
    Some(moment.timestamp())
}

/// Calls `chrono::NaiveDate::parse_from_str` with the format `%Y-%m-%d` and
/// `Datelike::num_days_from_ce` on the day that it gives.
#[verifier::external_body]
fn read_day(text: &str) -> (day: Option<i32>)
    ensures
        day_number(day) == day_of(text@),
{
    let day = chrono::NaiveDate::parse_from_str(text, "%Y-%m-%d").ok()?;
    Some(chrono::Datelike::num_days_from_ce(&day))
}

/// The first second of a day at offset zero, in seconds after 1970-01-01
/// 00:00:00 UTC. The day is counted from the year 1.
pub fn midnight(day: i32) -> (seconds: i64)
    ensures
        seconds == midnight_on(day as int),
{
    let since_first: i64 = day as i64 - 719_163;
    since_first * 86_400
}

/// The first second, at offset zero, of a day that may be missing.
pub fn midnight_if_any(day: Option<i32>) -> (seconds: Option<i64>)
    ensures
        seconds_of(seconds) == match day {
            Some(d) => Some(midnight_on(d as int)),
            None => None,
        },
{
    match day {
        Some(d) => Some(midnight(d)),
        None => None,
    }
}

/// The date of a commit as it stands in a leak: the text that chrono writes,
/// and the empty text where chrono has none.
pub open spec fn date_text(date: CommitDate) -> Seq<char> {
    match rfc3339_text(date.seconds as int, date.offset as int) {
        Some(t) => t,
        None => Seq::empty(),
    }
}

/// The text that stands for a date that may be missing.
pub fn text_or_empty(text: Option<String>) -> (shown: String)
    ensures
        shown@ == match text {
            Some(t) => t@,
            None => Seq::empty(),
        },
{
    match text {
        Some(t) => t,
        None => String::new(),
    }
}

impl CommitDate {
    /// The date as it stands in a leak.
    pub fn text(&self) -> (shown: String)
        ensures
            shown@ == date_text(*self),
    {
        text_or_empty(write_rfc3339(self.seconds, self.offset))
    }
}

/// The bound that two readings of one text give: the full reading where
/// there is one, else the reading as a day.
pub open spec fn bound_of(moment: Option<int>, midnight: Option<int>) -> Option<int> {
    match moment {
        Some(t) => Some(t),
        None => midnight,
    }
}

/// Chooses between two readings of a bound: a moment with an offset wins
/// over a day, which counts from its first second at offset zero.
pub fn choose_bound(moment: Option<i64>, midnight: Option<i64>) -> (bound: Option<i64>)
    ensures
        seconds_of(bound) == bound_of(seconds_of(moment), seconds_of(midnight)),
{
    match moment {
        Some(t) => Some(t),
        None => midnight,
    }
}

/// Reads a bound of a scan by date, in seconds after 1970-01-01 00:00:00
/// UTC. The text is a moment such as `2023-01-02T15:04:05-0700` or a day
/// such as `2006-01-02`; there is no bound for a text that chrono reads as
/// neither.
pub fn read_bound(text: &str) -> (bound: Option<i64>)
    ensures
        seconds_of(bound) == bound_of(moment_of(text@), midnight_of(text@)),
{
    choose_bound(read_moment(text), midnight_if_any(read_day(text)))
}

} // verus!
