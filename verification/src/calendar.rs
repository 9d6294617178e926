//! Calendar dates, times of day and moments as plain numbers.

use chrono::{Datelike, NaiveDate, NaiveTime};
use std::str::FromStr;
use vstd::prelude::*;

verus! {

/// Day number of the earliest date of the calendar, the first of January of
/// the year 262144 BCE.
pub const MIN_DAY_NUMBER: i32 = -95_746_129;

/// Day number of the latest date of the calendar, the last of December of the
/// year 262142 CE.
pub const MAX_DAY_NUMBER: i32 = 95_745_399;

/// A date of the proleptic Gregorian calendar, held as its day number: the
/// first of January of the year 1 is day 1, the day after it day 2, the day
/// before it day 0.
#[derive(Clone, Copy, Debug, PartialEq, Eq, Structural)]
pub struct CalendarDate {
    day_number: i32,
}

impl View for CalendarDate {
    type V = int;

    closed spec fn view(&self) -> int {
        self.day_number as int
    }
}

impl CalendarDate {
    /// Every date lies within the calendar.
    #[verifier::type_invariant]
    pub open spec fn in_calendar(&self) -> bool {
        MIN_DAY_NUMBER <= self@ <= MAX_DAY_NUMBER
    }

    /// The date with the given day number, if the calendar reaches that far.
    pub fn from_day_number(day_number: i32) -> (date: Option<CalendarDate>)
        ensures
            date is Some <==> MIN_DAY_NUMBER <= day_number <= MAX_DAY_NUMBER,
            date matches Some(d) ==> d@ == day_number,
    {
        if MIN_DAY_NUMBER <= day_number && day_number <= MAX_DAY_NUMBER {
            Some(CalendarDate { day_number })
        } else {
            None
        }
    }

    /// The day number of this date.
    pub fn day_number(&self) -> (day_number: i32)
        ensures
            day_number == self@,
    {
        self.day_number
    }
}

/// Seconds in a day without a leap second.
pub const SECONDS_PER_DAY: u32 = 86_400;

/// Nanoseconds in a second.
pub const NANOS_PER_SECOND: u32 = 1_000_000_000;

/// Whether a count of seconds since midnight and a nanosecond part make a time
/// of day. A nanosecond part of a full second or more stands for a time
/// within a leap second, which can only follow the last second of a minute.
pub open spec fn is_time_of_day(seconds: int, nanos: int) -> bool {
    &&& 0 <= seconds < SECONDS_PER_DAY
    &&& 0 <= nanos < 2 * NANOS_PER_SECOND
    &&& nanos >= NANOS_PER_SECOND ==> seconds % 60 == 59
}

/// A time of day: whole seconds since midnight and a nanosecond part.
#[derive(Clone, Copy, Debug, PartialEq, Eq, Structural)]
pub struct TimeOfDay {
    seconds: u32,
    nanos: u32,
}

impl TimeOfDay {
    /// Whole seconds since midnight.
    pub closed spec fn seconds(self) -> int {
        self.seconds as int
    }

    /// Nanoseconds since the last whole second that is no leap second.
    pub closed spec fn nanos(self) -> int {
        self.nanos as int
    }

    /// Every time of day is one that `is_time_of_day` accepts.
    #[verifier::type_invariant]
    pub open spec fn well_formed(self) -> bool {
        is_time_of_day(self.seconds(), self.nanos())
    }

    /// The time of day with the given seconds since midnight and nanosecond
    /// part, if they make one.
    pub fn from_num_seconds_from_midnight(seconds: u32, nanos: u32) -> (time: Option<TimeOfDay>)
        ensures
            time is Some <==> is_time_of_day(seconds as int, nanos as int),
            time matches Some(t) ==> t.seconds() == seconds && t.nanos() == nanos,
    {
        if seconds >= SECONDS_PER_DAY || nanos >= 2_000_000_000 || (nanos >= NANOS_PER_SECOND
            && seconds % 60 != 59) {
            None
        } else {
            Some(TimeOfDay { seconds, nanos })
        }
    }

    /// Whole seconds since midnight.
    pub fn num_seconds_from_midnight(&self) -> (seconds: u32)
        ensures
            seconds == self.seconds(),
    {
        self.seconds
    }

    /// The nanosecond part.
    pub fn nanosecond(&self) -> (nanos: u32)
        ensures
            nanos == self.nanos(),
    {
        self.nanos
    }
}

/// A calendar date with a time of day.
#[derive(Clone, Copy, Debug, PartialEq, Eq, Structural)]
pub struct Moment {
    pub date: CalendarDate,
    pub time: TimeOfDay,
}

/// Nanoseconds that pass from one time of day to another on the same day,
/// negative when `to` is the earlier one. No leap second is counted but those
/// that the two times themselves stand in.
pub open spec fn nanos_between(from: TimeOfDay, to: TimeOfDay) -> int {
    let leap: int = if to.seconds() > from.seconds() && from.nanos() >= NANOS_PER_SECOND {
        1
    } else if to.seconds() < from.seconds() && to.nanos() >= NANOS_PER_SECOND {
        -1
    } else {
        0
    };
    (to.seconds() - from.seconds() + leap) * NANOS_PER_SECOND + (to.nanos() - from.nanos())
}

/// The whole seconds in a signed count of nanoseconds, rounded towards zero.
pub open spec fn whole_seconds(nanos: int) -> int {
    if nanos >= 0 {
        nanos / (NANOS_PER_SECOND as int)
    } else {
        -((-nanos) / (NANOS_PER_SECOND as int))
    }
}

/// Whole seconds that pass from one time of day to another on the same day.
pub open spec fn seconds_between(from: TimeOfDay, to: TimeOfDay) -> int {
    whole_seconds(nanos_between(from, to))
}

/// The weekday of the date with the given day number, as chrono numbers it:
/// 1 for Monday up to 7 for Sunday.
pub uninterp spec fn iso_weekday(day_number: int) -> int;

/// The day number of the date that chrono reads from a line of text, if it
/// reads one.
pub uninterp spec fn parsed_day_number(line: Seq<char>) -> Option<int>;

/// Calls chrono's `NaiveDate::from_num_days_from_ce_opt`, `Datelike::weekday`
/// and `Weekday::number_from_monday`. Trusted: the number is the weekday of
/// that date and lies between 1, for Monday, and 7, for Sunday.
#[verifier::external_body]
pub(crate) fn weekday_number(day_number: i32) -> (weekday: u32)
    requires
        MIN_DAY_NUMBER <= day_number <= MAX_DAY_NUMBER,
    ensures
        weekday == iso_weekday(day_number as int),
        1 <= weekday <= 7,
{
    NaiveDate::from_num_days_from_ce_opt(day_number).unwrap().weekday().number_from_monday()
}

/// Calls chrono's subtraction of one `NaiveTime` from another and
/// `TimeDelta::num_seconds` on the difference. Trusted: the difference is
/// taken as `nanos_between` says, and its whole seconds are rounded towards
/// zero.
#[verifier::external_body]
pub(crate) fn whole_seconds_between(from: &TimeOfDay, to: &TimeOfDay) -> (seconds: i64)
    requires
        from.well_formed(),
        to.well_formed(),
    ensures
        seconds == seconds_between(*from, *to),
{
    let from = NaiveTime::from_num_seconds_from_midnight_opt(from.seconds, from.nanos).unwrap();
    let to = NaiveTime::from_num_seconds_from_midnight_opt(to.seconds, to.nanos).unwrap();
    (to - from).num_seconds()
}

/// Calls chrono's `NaiveDate::from_str` and, on the date it reads,
/// `Datelike::num_days_from_ce`. Trusted: what comes back depends on the line
/// alone.
#[verifier::external_body]
pub(crate) fn parse_day_number(line: &str) -> (day_number: Option<i32>)
    ensures
        day_number is Some <==> parsed_day_number(line@) is Some,
        day_number matches Some(n) ==> parsed_day_number(line@) == Some(n as int),
{
    match NaiveDate::from_str(line) {
        Ok(date) => Some(date.num_days_from_ce()),
        Err(_) => None,
    }
}

} // verus!
