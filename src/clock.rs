use chrono::{Datelike, Timelike};
use vstd::prelude::*;

use crate::timestamp::{midnight_of, Timestamp};

verus! {

/// The calendar day `(year, month, day)` that a `DD-MM-YYYY` text names, as
/// the date library reads it, or `None` where it reads no valid day.
pub uninterp spec fn day_first_date(s: Seq<char>) -> Option<(int, int, int)>;

/// The date and minute `(year, month, day, hour, minute)` that a
/// `DD-MM-YYYY HH:MM` text names, as the date library reads it, or `None`.
pub uninterp spec fn day_first_date_time(s: Seq<char>) -> Option<(int, int, int, int, int)>;

/// Whole minutes from `start` to `end` (negative where `end` comes first),
/// rounded toward zero, as the date library counts them.
pub uninterp spec fn minutes_between(span: (Timestamp, Timestamp)) -> int;

/// Relies on chrono's `Utc::now` and `DateTime::naive_utc`: the current UTC
/// time, which is always a valid calendar date and time of day. chrono panics
/// only where the machine's clock reads before 1970, a state of the machine
/// rather than of any input.
#[verifier::external_body]
pub(crate) fn now_utc() -> (r: Timestamp)
    ensures
        r.wf(),
{
    let n = chrono::Utc::now().naive_utc();
    Timestamp {
        year: n.year(),
        month: n.month(),
        day: n.day(),
        hour: n.hour(),
        minute: n.minute(),
        second: n.second(),
        nanosecond: n.nanosecond(),
    }
}

/// Relies on chrono's `NaiveDateTime::parse_from_str`, which reads the text
/// followed by ` 00:00:00` with the format `%d-%m-%Y %H:%M:%S`: on success
/// the day the text names, at midnight.
#[verifier::external_body]
pub(crate) fn parse_day_first_date(s: &str) -> (r: Option<Timestamp>)
    ensures
        match r {
            Some(t) => t.wf() && day_first_date(s@) == Some(
                (t.year as int, t.month as int, t.day as int),
            ) && t == midnight_of(t.year as int, t.month as int, t.day as int),
            None => day_first_date(s@) is None,
        },
{
    let text = format!("{} 00:00:00", s);
    chrono::NaiveDateTime::parse_from_str(&text, "%d-%m-%Y %H:%M:%S").ok().map(|n| Timestamp {
        year: n.year(),
        month: n.month(),
        day: n.day(),
        hour: n.hour(),
        minute: n.minute(),
        second: n.second(),
        nanosecond: n.nanosecond(),
    })
}

/// Relies on chrono's `NaiveDateTime::parse_from_str` with the format
/// `%d-%m-%Y %H:%M`: on success the date and minute the text names, with
/// zero seconds.
#[verifier::external_body]
pub(crate) fn parse_day_first_date_time(s: &str) -> (r: Option<Timestamp>)
    ensures
        match r {
            Some(t) => t.wf() && t.second == 0 && t.nanosecond == 0 && day_first_date_time(s@)
                == Some(
                (t.year as int, t.month as int, t.day as int, t.hour as int, t.minute as int),
            ),
            None => day_first_date_time(s@) is None,
        },
{
    chrono::NaiveDateTime::parse_from_str(s, "%d-%m-%Y %H:%M").ok().map(|n| Timestamp {
        year: n.year(),
        month: n.month(),
        day: n.day(),
        hour: n.hour(),
        minute: n.minute(),
        second: n.second(),
        nanosecond: n.nanosecond(),
    })
}

/// Relies on chrono's `NaiveDateTime` subtraction and `TimeDelta::num_minutes`:
/// the minutes from `start` to `end`; the difference of two supported dates
/// always fits.
#[verifier::external_body]
pub(crate) fn minutes_from_to(start: Timestamp, end: Timestamp) -> (r: i64)
    requires
        start.wf(),
        end.wf(),
    ensures
        r as int == minutes_between((start, end)),
{
    let s = chrono::NaiveDate::from_ymd_opt(start.year, start.month, start.day).unwrap()
        .and_hms_nano_opt(start.hour, start.minute, start.second, start.nanosecond).unwrap();
    let e = chrono::NaiveDate::from_ymd_opt(end.year, end.month, end.day).unwrap()
        .and_hms_nano_opt(end.hour, end.minute, end.second, end.nanosecond).unwrap();
    (e - s).num_minutes()
}

} // verus!
