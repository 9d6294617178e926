//! Counting the workdays that remain until the end of work.

use crate::calendar::{
    iso_weekday, seconds_between, weekday_number, whole_seconds_between, CalendarDate, Moment,
    MAX_DAY_NUMBER, MIN_DAY_NUMBER,
};
use crate::holidays::HolidaySet;
use vstd::prelude::*;
use vstd::set_lib::*;

verus! {

/// Seconds in the eight-hour shift of a workday.
pub const SHIFT_SECONDS: u32 = 28_800;

/// Whether a weekday number, 1 for Monday up to 7 for Sunday, names one of
/// the days from Monday to Friday.
pub open spec fn is_working_weekday(weekday: int) -> bool {
    1 <= weekday <= 5
}

/// A workday is a day from Monday to Friday that is no holiday.
pub open spec fn is_workday(day_number: int, holidays: Set<int>) -> bool {
    is_working_weekday(iso_weekday(day_number)) && !holidays.contains(day_number)
}

/// The part of a shift that a count of remaining seconds covers: nothing of
/// it below zero, all of it above its length.
pub open spec fn shift_part(seconds: int) -> int {
    if seconds < 0 {
        0
    } else if seconds > SHIFT_SECONDS {
        SHIFT_SECONDS as int
    } else {
        seconds
    }
}

/// Seconds of the current day's shift that count: on a workday the part of
/// the shift between the two times of day, on any other day nothing.
pub open spec fn partial_day_term(now: Moment, end_of_work: Moment, holidays: Set<int>) -> int {
    if is_workday(now.date@, holidays) {
        shift_part(seconds_between(now.time, end_of_work.time))
    } else {
        0
    }
}

/// The workdays after one day, up to and including another.
pub open spec fn workdays_between(after: int, until: int, holidays: Set<int>) -> Set<int> {
    Set::new(|day_number: int| after < day_number <= until && is_workday(day_number, holidays))
}

/// The number of workdays after the current day, up to and including the
/// last day.
pub open spec fn full_day_term(now: Moment, end_of_work: Moment, holidays: Set<int>) -> nat {
    workdays_between(now.date@, end_of_work.date@, holidays).len()
}

/// The remaining workdays, as two exact terms. Their sum in workdays is
/// `full_days + shift_seconds_today / SHIFT_SECONDS`.
#[derive(Clone, Copy, Debug, PartialEq, Eq, Structural)]
pub struct RemainingWorkdays {
    /// Seconds of the current day's shift that count, `SHIFT_SECONDS` at most.
    pub shift_seconds_today: u32,
    /// Whole workdays after the current day.
    pub full_days: u32,
}

impl RemainingWorkdays {
    /// Whether these are the two terms for the given moments and holidays.
    pub open spec fn counts(self, now: Moment, end_of_work: Moment, holidays: Set<int>) -> bool {
        &&& self.shift_seconds_today == partial_day_term(now, end_of_work, holidays)
        &&& self.full_days == full_day_term(now, end_of_work, holidays)
    }

    /// Both terms together, in seconds of shift.
    pub fn total_shift_seconds(&self) -> (total: u64)
        ensures
            total == self.full_days * SHIFT_SECONDS + self.shift_seconds_today,
    {
        let full: u64 = self.full_days as u64;
        let shift: u64 = SHIFT_SECONDS as u64;
        let today: u64 = self.shift_seconds_today as u64;
        assert(full * shift <= 0xffff_ffff * 28_800) by (nonlinear_arith)
            requires
                full <= 0xffff_ffff,
                shift == 28_800,
        ;
        full * shift + today
    }
}

/// Whether a weekday number, as chrono gives it, names a day from Monday to
/// Friday.
pub fn has_working_weekday(weekday: u32) -> (working: bool)
    ensures
        working == is_working_weekday(weekday as int),
{
    1 <= weekday && weekday <= 5
}

/// The seconds of a shift that count when so many seconds remain until the
/// end of work.
pub fn remaining_shift_seconds(seconds: i64) -> (part: u32)
    ensures
        part == shift_part(seconds as int),
        part <= SHIFT_SECONDS,
{
    if seconds < 0 {
        0
    } else if seconds > 28_800 {
        SHIFT_SECONDS
    } else {
        seconds as u32
    }
}

fn is_workday_number(day_number: i32, holidays: &HolidaySet) -> (workday: bool)
    requires
        MIN_DAY_NUMBER <= day_number <= MAX_DAY_NUMBER,
    ensures
        workday == is_workday(day_number as int, holidays@),
{
    has_working_weekday(weekday_number(day_number)) && !holidays.contains_day_number(day_number)
}

/// Whether a date is a workday.
pub fn counts_as_workday(date: &CalendarDate, holidays: &HolidaySet) -> (workday: bool)
    ensures
        workday == is_workday(date@, holidays@),
{
    proof {
        use_type_invariant(date);
    }
    is_workday_number(date.day_number(), holidays)
}

/// No day after `after` up to `until` is left out, and none is counted twice:
/// the workdays up to the next day are those up to `until`, and the next day
/// where it is a workday.
proof fn lemma_workdays_between_next(after: int, until: int, holidays: Set<int>)
    requires
        after <= until,
    ensures
        workdays_between(after, until, holidays).finite(),
        workdays_between(after, until, holidays).len() <= until - after,
        !workdays_between(after, until, holidays).contains(until + 1),
        workdays_between(after, until + 1, holidays) == if is_workday(until + 1, holidays) {
            workdays_between(after, until, holidays).insert(until + 1)
        } else {
            workdays_between(after, until, holidays)
        },
{
    let days = set_int_range(after + 1, until + 1);
    lemma_int_range(after + 1, until + 1);
    assert(workdays_between(after, until, holidays).subset_of(days));
    lemma_len_subset(workdays_between(after, until, holidays), days);
    if is_workday(until + 1, holidays) {
        assert(workdays_between(after, until + 1, holidays) =~= workdays_between(
            after,
            until,
            holidays,
        ).insert(until + 1));
    } else {
        assert(workdays_between(after, until + 1, holidays) =~= workdays_between(
            after,
            until,
            holidays,
        ));
    }
}

/// The workdays that remain from `now` until `end_of_work`: of the current
/// day the part of the shift that is still ahead, and every workday after it
/// up to and including the last day. Where `now` lies after `end_of_work`, no
/// later day counts.
pub fn calculate_remaining_workdays(
    now: &Moment,
    end_of_work: &Moment,
    holidays: &HolidaySet,
) -> (remaining: RemainingWorkdays)
    ensures
        remaining.counts(*now, *end_of_work, holidays@),
{
    proof {
        use_type_invariant(&now.date);
        use_type_invariant(&now.time);
        use_type_invariant(&end_of_work.date);
        use_type_invariant(&end_of_work.time);
    }
    let mut shift_seconds_today: u32 = 0;
    if counts_as_workday(&now.date, holidays) {
        let seconds_remaining_today = whole_seconds_between(&now.time, &end_of_work.time);
        shift_seconds_today = remaining_shift_seconds(seconds_remaining_today);
    }
    let first: i32 = now.date.day_number();
    let last: i32 = end_of_work.date.day_number();
    let mut day_number: i32 = first;
    let mut full_days: u32 = 0;
    proof {
        assert(workdays_between(first as int, first as int, holidays@) =~= Set::<int>::empty());
        if last < first {
            assert(workdays_between(first as int, last as int, holidays@) =~= Set::<int>::empty());
        }
    }
    while day_number < last
        invariant
            MIN_DAY_NUMBER <= first <= day_number <= MAX_DAY_NUMBER,
            last <= MAX_DAY_NUMBER,
            day_number <= last || day_number == first,
            full_days <= day_number - first,
            full_days == workdays_between(first as int, day_number as int, holidays@).len(),
        decreases last - day_number,
    {
        proof {
            lemma_workdays_between_next(first as int, day_number as int, holidays@);
        }
        day_number = day_number + 1;
        if is_workday_number(day_number, holidays) {
            full_days = full_days + 1;
        }
    }
    RemainingWorkdays { shift_seconds_today, full_days }
}

/// What a run is asked for: the moment at which work ends and, where the
/// count is wanted for a fixed moment instead of the present one, that
/// moment.
#[derive(Clone, Copy, Debug)]
pub struct WorkdaySpec {
    pub end_of_work: Moment,
    pub now: Option<Moment>,
}

impl WorkdaySpec {
    /// The moment to count from: the fixed one where there is one, else the
    /// one that the clock shows.
    pub open spec fn moment_to_count_from(self, clock: Moment) -> Moment {
        match self.now {
            Some(fixed) => fixed,
            None => clock,
        }
    }

    /// The moment to count from, given what the clock shows.
    pub fn reference_moment(&self, clock: Moment) -> (now: Moment)
        ensures
            now == self.moment_to_count_from(clock),
    {
        match self.now {
            Some(fixed) => fixed,
            None => clock,
        }
    }

    /// Whether one count answers the request. A request for a fixed moment
    /// is answered once; one for the present moment is answered anew as the
    /// clock moves on.
    pub fn is_single_shot(&self) -> (once: bool)
        ensures
            once == self.now is Some,
    {
        self.now.is_some()
    }

    /// The remaining workdays at the moment to count from.
    pub fn remaining_workdays(&self, clock: Moment, holidays: &HolidaySet) -> (remaining:
        RemainingWorkdays)
        ensures
            remaining.counts(self.moment_to_count_from(clock), self.end_of_work, holidays@),
    {
        let now = self.reference_moment(clock);
        calculate_remaining_workdays(&now, &self.end_of_work, holidays)
    }
}

/// On a Saturday, on a Sunday and on a holiday nothing of the current day
/// counts.
pub proof fn lemma_day_off_has_no_partial_term(
    now: Moment,
    end_of_work: Moment,
    holidays: Set<int>,
)
    requires
        iso_weekday(now.date@) == 6 || iso_weekday(now.date@) == 7 || holidays.contains(
            now.date@,
        ),
    ensures
        partial_day_term(now, end_of_work, holidays) == 0,
{
}

/// Where work ends at the very time of day that it is now, no second of the
/// current day remains, whatever day it is.
pub proof fn lemma_same_time_has_no_partial_term(
    now: Moment,
    end_of_work: Moment,
    holidays: Set<int>,
)
    requires
        now.time == end_of_work.time,
    ensures
        seconds_between(now.time, end_of_work.time) == 0,
        partial_day_term(now, end_of_work, holidays) == 0,
{
}

/// Where work ends on the current day and that day is a workday, the seconds
/// until the end of work count, no fewer than none and no more than a whole
/// shift, and no later day counts.
pub proof fn lemma_last_day_counts_its_shift_part(
    now: Moment,
    end_of_work: Moment,
    holidays: Set<int>,
)
    requires
        now.date@ == end_of_work.date@,
        is_working_weekday(iso_weekday(now.date@)),
        !holidays.contains(now.date@),
    ensures
        0 <= partial_day_term(now, end_of_work, holidays) <= SHIFT_SECONDS,
        partial_day_term(now, end_of_work, holidays) == {
            let seconds = seconds_between(now.time, end_of_work.time);
            if seconds < 0 {
                0
            } else if seconds > SHIFT_SECONDS {
                SHIFT_SECONDS as int
            } else {
                seconds
            }
        },
        full_day_term(now, end_of_work, holidays) == 0,
{
    assert(workdays_between(now.date@, end_of_work.date@, holidays) =~= Set::<int>::empty());
}

/// One more holiday on a workday after the current day and no later than the
/// last day takes exactly one day off the full days.
pub proof fn lemma_holiday_on_workday_takes_one_day(
    now: Moment,
    end_of_work: Moment,
    holidays: Set<int>,
    holiday: int,
)
    requires
        now.date@ < holiday <= end_of_work.date@,
        is_workday(holiday, holidays),
    ensures
        full_day_term(now, end_of_work, holidays.insert(holiday)) == full_day_term(
            now,
            end_of_work,
            holidays,
        ) - 1,
{
    let before = workdays_between(now.date@, end_of_work.date@, holidays);
    let after = workdays_between(now.date@, end_of_work.date@, holidays.insert(holiday));
    lemma_workdays_between_next(now.date@, end_of_work.date@, holidays);
    assert(before.contains(holiday));
    assert(after =~= before.remove(holiday));
}

/// A holiday on a Saturday or a Sunday changes nothing.
pub proof fn lemma_holiday_on_weekend_changes_nothing(
    now: Moment,
    end_of_work: Moment,
    holidays: Set<int>,
    holiday: int,
)
    requires
        !is_working_weekday(iso_weekday(holiday)),
    ensures
        partial_day_term(now, end_of_work, holidays.insert(holiday)) == partial_day_term(
            now,
            end_of_work,
            holidays,
        ),
        full_day_term(now, end_of_work, holidays.insert(holiday)) == full_day_term(
            now,
            end_of_work,
            holidays,
        ),
{
    assert(workdays_between(now.date@, end_of_work.date@, holidays.insert(holiday))
        =~= workdays_between(now.date@, end_of_work.date@, holidays));
}

/// The moments and the holidays decide the result: two counts for the same
/// moments and holidays are the same count.
pub proof fn lemma_count_is_determined(
    first: RemainingWorkdays,
    second: RemainingWorkdays,
    now: Moment,
    end_of_work: Moment,
    holidays: Set<int>,
)
    requires
        first.counts(now, end_of_work, holidays),
        second.counts(now, end_of_work, holidays),
    ensures
        first == second,
{
}

/// At the very moment that work ends nothing remains: no second of the
/// current day and no later day.
pub proof fn lemma_nothing_remains_at_end_of_work(
    remaining: RemainingWorkdays,
    now: Moment,
    holidays: Set<int>,
)
    requires
        remaining.counts(now, now, holidays),
    ensures
        remaining.shift_seconds_today == 0,
        remaining.full_days == 0,
        remaining.full_days * SHIFT_SECONDS + remaining.shift_seconds_today == 0,
{
    assert(workdays_between(now.date@, now.date@, holidays) =~= Set::<int>::empty());
}

} // verus!
