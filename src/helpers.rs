use vstd::prelude::*;

use crate::clock::{
    day_first_date, day_first_date_time, now_utc, parse_day_first_date,
    parse_day_first_date_time,
};
use crate::error::{MeetingsError, TaskError, TaskErrorKind};
use crate::timestamp::{midnight_of, Timestamp};

verus! {

/// The text of an optional string.
pub open spec fn text_of(o: Option<String>) -> Option<Seq<char>> {
    match o {
        Some(s) => Some(s@),
        None => None,
    }
}

/// What a creation date resolves to at time `now`: the current time when
/// absent, else midnight of the named day unless that lies after `now`.
pub open spec fn created_at_outcome(input: Option<Seq<char>>, now: Timestamp) -> Result<
    Timestamp,
    TaskErrorKind,
> {
    match input {
        None => Ok(now),
        Some(s) => match day_first_date(s) {
            None => Err(TaskErrorKind::InvalidFormat),
            Some((y, m, d)) => if now.before(midnight_of(y, m, d)) {
                Err(TaskErrorKind::FutureCreationDate)
            } else {
                Ok(midnight_of(y, m, d))
            },
        },
    }
}

/// What a due date resolves to at time `now`: no due date when absent, else
/// midnight of the named day unless that lies before `now`.
pub open spec fn due_date_outcome(input: Option<Seq<char>>, now: Timestamp) -> Result<
    Option<Timestamp>,
    TaskErrorKind,
> {
    match input {
        None => Ok(None),
        Some(s) => match day_first_date(s) {
            None => Err(TaskErrorKind::InvalidFormat),
            Some((y, m, d)) => if midnight_of(y, m, d).before(now) {
                Err(TaskErrorKind::PastDueDate)
            } else {
                Ok(Some(midnight_of(y, m, d)))
            },
        },
    }
}

/// The first of the three meeting rules that `start` and `end` break at
/// time `now`, if any.
pub open spec fn meeting_dates_outcome(start: Timestamp, end: Timestamp, now: Timestamp) -> Result<
    (),
    MeetingsError,
> {
    if start.before(now) {
        Err(MeetingsError::InvalidStartDate)
    } else if end.before(now) {
        Err(MeetingsError::InvalidEndDate)
    } else if !start.before(end) {
        Err(MeetingsError::InvalidDateRange)
    } else {
        Ok(())
    }
}

/// `r` is the outcome `o`, an error carrying the given text `input`.
pub open spec fn task_result_is<T>(
    r: Result<T, TaskError>,
    o: Result<T, TaskErrorKind>,
    input: Option<Seq<char>>,
) -> bool {
    match r {
        Ok(v) => o == Ok::<T, TaskErrorKind>(v),
        Err(e) => o == Err::<T, TaskErrorKind>(e.kind) && input == Some(e.value@),
    }
}

fn date_error(kind: TaskErrorKind, value: String) -> (r: TaskError)
    ensures
        r.kind == kind,
        r.value == value,
{
    TaskError { kind, value }
}

/// Resolves a task or subtask creation date against the time `now`.
pub fn check_created_at(created_at: Option<String>, now: Timestamp) -> (r: Result<
    Timestamp,
    TaskError,
>)
    requires
        now.wf(),
    ensures
        task_result_is(r, created_at_outcome(text_of(created_at), now), text_of(created_at)),
        r matches Ok(t) ==> t.wf(),
{
    match created_at {
        None => Ok(now),
        Some(s) => match parse_day_first_date(s.as_str()) {
            None => Err(date_error(TaskErrorKind::InvalidFormat, s)),
            Some(t) => {
                if now.is_before(&t) {
                    Err(date_error(TaskErrorKind::FutureCreationDate, s))
                } else {
                    Ok(t)
                }
            },
        },
    }
}

/// Resolves an optional task or subtask due date against the time `now`.
pub fn check_due_date(due_date: Option<String>, now: Timestamp) -> (r: Result<
    Option<Timestamp>,
    TaskError,
>)
    ensures
        task_result_is(r, due_date_outcome(text_of(due_date), now), text_of(due_date)),
        r matches Ok(Some(t)) ==> t.wf(),
{
    match due_date {
        None => Ok(None),
        Some(s) => match parse_day_first_date(s.as_str()) {
            None => Err(date_error(TaskErrorKind::InvalidFormat, s)),
            Some(t) => {
                if t.is_before(&now) {
                    Err(date_error(TaskErrorKind::PastDueDate, s))
                } else {
                    Ok(Some(t))
                }
            },
        },
    }
}

/// Checks a meeting's start and end against the time `now`: the start may
/// not lie in the past, nor the end, and the end must come after the start.
pub fn check_meeting_dates(start: Timestamp, end: Timestamp, now: Timestamp) -> (r: Result<
    (),
    MeetingsError,
>)
    ensures
        r == meeting_dates_outcome(start, end, now),
{
    if start.is_before(&now) {
        return Err(MeetingsError::InvalidStartDate);
    }
    if end.is_before(&now) {
        return Err(MeetingsError::InvalidEndDate);
    }
    if !start.is_before(&end) {
        return Err(MeetingsError::InvalidDateRange);
    }
    Ok(())
}

/// Resolves a creation date against the current time: absent means now, a
/// `DD-MM-YYYY` day means its midnight, which may not lie in the future.
pub fn parse_and_validate_created_at(created_at: Option<String>) -> (r: Result<
    Timestamp,
    TaskError,
>)
    ensures
        exists|now: Timestamp|
            now.wf() && #[trigger] task_result_is(
                r,
                created_at_outcome(text_of(created_at), now),
                text_of(created_at),
            ),
{
    let now = now_utc();
    let r = check_created_at(created_at, now);
    assert(task_result_is(r, created_at_outcome(text_of(created_at), now), text_of(created_at)));
    r
}

/// Resolves an optional due date against the current time: absent means no
/// due date, a `DD-MM-YYYY` day means its midnight, which may not lie in the
/// past.
pub fn parse_and_validate_due_date(due_date: Option<String>) -> (r: Result<
    Option<Timestamp>,
    TaskError,
>)
    ensures
        exists|now: Timestamp|
            now.wf() && #[trigger] task_result_is(
                r,
                due_date_outcome(text_of(due_date), now),
                text_of(due_date),
            ),
        due_date is None ==> r matches Ok(None),
{
    let now = now_utc();
    let r = check_due_date(due_date, now);
    assert(task_result_is(r, due_date_outcome(text_of(due_date), now), text_of(due_date)));
    r
}

/// Checks a meeting's start and end against the current time.
pub fn validate_meeting_dates(start_date: Timestamp, end_date: Timestamp) -> (r: Result<
    (),
    MeetingsError,
>)
    ensures
        exists|now: Timestamp|
            now.wf() && r == #[trigger] meeting_dates_outcome(start_date, end_date, now),
{
    let now = now_utc();
    check_meeting_dates(start_date, end_date, now)
}

/// The date and minute that a meeting's `DD-MM-YYYY HH:MM` text names.
pub open spec fn meeting_date_outcome(s: Seq<char>) -> Result<Timestamp, TaskErrorKind> {
    match day_first_date_time(s) {
        None => Err(TaskErrorKind::InvalidFormat),
        Some((y, m, d, h, mi)) => Ok(
            Timestamp {
                year: y as i32,
                month: m as u32,
                day: d as u32,
                hour: h as u32,
                minute: mi as u32,
                second: 0,
                nanosecond: 0,
            },
        ),
    }
}

/// Reads a meeting's start or end, written `DD-MM-YYYY HH:MM`.
pub fn parse_meeting_date(s: String) -> (r: Result<Timestamp, TaskError>)
    ensures
        task_result_is(r, meeting_date_outcome(s@), Some(s@)),
        r matches Ok(t) ==> t.wf(),
{
    match parse_day_first_date_time(s.as_str()) {
        None => Err(date_error(TaskErrorKind::InvalidFormat, s)),
        Some(t) => Ok(t),
    }
}

/// A creation date that names a day whose midnight is not after the current
/// time is accepted, and resolves to that midnight.
pub proof fn lemma_created_at_accepts_past_days(s: Seq<char>, now: Timestamp, y: int, m: int, d: int)
    requires
        day_first_date(s) == Some((y, m, d)),
        !now.before(midnight_of(y, m, d)),
    ensures
        created_at_outcome(Some(s), now) == Ok::<Timestamp, TaskErrorKind>(midnight_of(y, m, d)),
{
}

/// A creation date that names a day whose midnight lies after the current
/// time is refused as a future creation date.
pub proof fn lemma_created_at_refuses_future_days(s: Seq<char>, now: Timestamp, y: int, m: int, d: int)
    requires
        day_first_date(s) == Some((y, m, d)),
        now.before(midnight_of(y, m, d)),
    ensures
        created_at_outcome(Some(s), now) == Err::<Timestamp, TaskErrorKind>(
            TaskErrorKind::FutureCreationDate,
        ),
{
}

/// A due date that names a day whose midnight lies before the current time is
/// refused as past, and an absent due date is no error and no date.
pub proof fn lemma_due_date_refuses_past_days(s: Seq<char>, now: Timestamp, y: int, m: int, d: int)
    requires
        day_first_date(s) == Some((y, m, d)),
        midnight_of(y, m, d).before(now),
    ensures
        due_date_outcome(Some(s), now) == Err::<Option<Timestamp>, TaskErrorKind>(
            TaskErrorKind::PastDueDate,
        ),
        due_date_outcome(None, now) == Ok::<Option<Timestamp>, TaskErrorKind>(None),
{
}

/// A meeting whose start lies in the past is refused for its start, whatever
/// its end: the first rule that fails wins.
pub proof fn lemma_past_start_reported_first(start: Timestamp, end: Timestamp, now: Timestamp)
    requires
        start.before(now),
    ensures
        meeting_dates_outcome(start, end, now) == Err::<(), MeetingsError>(
            MeetingsError::InvalidStartDate,
        ),
{
}

} // verus!
