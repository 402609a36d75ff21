use vstd::prelude::*;

verus! {

/// Earliest and latest years that a timestamp may carry; a calendar day in
/// this range can always be represented by the date library.
pub const MIN_YEAR: i32 = -262143;

pub const MAX_YEAR: i32 = 262142;

/// A calendar date and time of day, without time zone (UTC by convention).
/// A `nanosecond` of one second or more marks a leap second, and only at
/// second 59.
#[derive(Clone, Copy, Debug, PartialEq, Eq, Structural)]
pub struct Timestamp {
    pub year: i32,
    pub month: u32,
    pub day: u32,
    pub hour: u32,
    pub minute: u32,
    pub second: u32,
    pub nanosecond: u32,
}

pub open spec fn is_leap_year(y: int) -> bool {
    (y % 4 == 0 && y % 100 != 0) || y % 400 == 0
}

pub open spec fn days_in_month(y: int, m: int) -> int {
    if m == 2 {
        if is_leap_year(y) { 29 } else { 28 }
    } else if m == 4 || m == 6 || m == 9 || m == 11 {
        30
    } else {
        31
    }
}

/// Whether `(y, m, d)` names a day of the calendar within the supported years.
pub open spec fn is_calendar_day(y: int, m: int, d: int) -> bool {
    &&& MIN_YEAR <= y <= MAX_YEAR
    &&& 1 <= m <= 12
    &&& 1 <= d <= days_in_month(y, m)
}

/// The timestamp at the start (00:00:00) of the day `(y, m, d)`.
pub open spec fn midnight_of(y: int, m: int, d: int) -> Timestamp {
    Timestamp {
        year: y as i32,
        month: m as u32,
        day: d as u32,
        hour: 0,
        minute: 0,
        second: 0,
        nanosecond: 0,
    }
}

impl Timestamp {
    pub open spec fn wf(&self) -> bool {
        &&& is_calendar_day(self.year as int, self.month as int, self.day as int)
        &&& self.hour < 24
        &&& self.minute < 60
        &&& self.second < 60
        &&& self.nanosecond < 2_000_000_000
        &&& self.nanosecond >= 1_000_000_000 ==> self.second == 59
    }

    /// Chronological order: `self` comes strictly before `other`.
    pub open spec fn before(&self, other: Timestamp) -> bool {
        if self.year != other.year {
            self.year < other.year
        } else if self.month != other.month {
            self.month < other.month
        } else if self.day != other.day {
            self.day < other.day
        } else if self.hour != other.hour {
            self.hour < other.hour
        } else if self.minute != other.minute {
            self.minute < other.minute
        } else if self.second != other.second {
            self.second < other.second
        } else {
            self.nanosecond < other.nanosecond
        }
    }

    /// Whether `self` comes strictly before `other`.
    pub fn is_before(&self, other: &Timestamp) -> (r: bool)
        ensures
            r == self.before(*other),
    {
        if self.year != other.year {
            self.year < other.year
        } else if self.month != other.month {
            self.month < other.month
        } else if self.day != other.day {
            self.day < other.day
        } else if self.hour != other.hour {
            self.hour < other.hour
        } else if self.minute != other.minute {
            self.minute < other.minute
        } else if self.second != other.second {
            self.second < other.second
        } else {
            self.nanosecond < other.nanosecond
        }
    }

    /// The timestamp for the given calendar fields, or `None` where they name
    /// no valid date and time.
    pub fn new(year: i32, month: u32, day: u32, hour: u32, minute: u32, second: u32) -> (r: Option<
        Timestamp,
    >)
        ensures
            r is Some <==> (is_calendar_day(year as int, month as int, day as int) && hour < 24
                && minute < 60 && second < 60),
            r matches Some(t) ==> t.wf() && t == (Timestamp {
                year,
                month,
                day,
                hour,
                minute,
                second,
                nanosecond: 0,
            }),
    {
        if year < MIN_YEAR || year > MAX_YEAR || month < 1 || month > 12 || day < 1 || hour >= 24
            || minute >= 60 || second >= 60 {
            return None;
        }
        if day > month_length(year, month) {
            return None;
        }
        Some(Timestamp { year, month, day, hour, minute, second, nanosecond: 0 })
    }

    /// Midnight of the given calendar day, or `None` where it names no day.
    pub fn midnight(year: i32, month: u32, day: u32) -> (r: Option<Timestamp>)
        ensures
            r is Some <==> is_calendar_day(year as int, month as int, day as int),
            r matches Some(t) ==> t.wf() && t == midnight_of(year as int, month as int, day as int),
    {
        Timestamp::new(year, month, day, 0, 0, 0)
    }
}

/// Number of days in month `month` (1 to 12) of year `year`.
pub fn month_length(year: i32, month: u32) -> (r: u32)
    requires
        1 <= month <= 12,
    ensures
        r as int == days_in_month(year as int, month as int),
{
    if month == 2 {
        if (year % 4 == 0 && year % 100 != 0) || year % 400 == 0 {
            29
        } else {
            28
        }
    } else if month == 4 || month == 6 || month == 9 || month == 11 {
        30
    } else {
        31
    }
}

/// Chronological order is transitive.
pub proof fn lemma_before_transitive(a: Timestamp, b: Timestamp, c: Timestamp)
    requires
        a.before(b),
        b.before(c),
    ensures
        a.before(c),
{
}

/// Any two distinct timestamps are ordered one way or the other.
pub proof fn lemma_before_total(a: Timestamp, b: Timestamp)
    ensures
        a == b || a.before(b) || b.before(a),
{
}

} // verus!
