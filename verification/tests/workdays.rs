use chrono::{Datelike, NaiveDate, NaiveDateTime, Timelike};
use remaining_workdays::calendar::{CalendarDate, Moment, TimeOfDay};
use remaining_workdays::holidays::HolidaySet;
use remaining_workdays::workdays::{
    calculate_remaining_workdays, counts_as_workday, has_working_weekday,
    remaining_shift_seconds, RemainingWorkdays, WorkdaySpec, SHIFT_SECONDS,
};
use std::str::FromStr;

fn date(year: i32, month: u32, day: u32) -> CalendarDate {
    let naive = NaiveDate::from_ymd_opt(year, month, day).unwrap();
    CalendarDate::from_day_number(naive.num_days_from_ce()).unwrap()
}

fn moment(text: &str) -> Moment {
    let naive = NaiveDateTime::from_str(text).unwrap();
    Moment {
        date: CalendarDate::from_day_number(naive.date().num_days_from_ce()).unwrap(),
        time: TimeOfDay::from_num_seconds_from_midnight(
            naive.time().num_seconds_from_midnight(),
            naive.time().nanosecond(),
        )
        .unwrap(),
    }
}

fn holidays(dates: &[CalendarDate]) -> HolidaySet {
    let mut set = HolidaySet::new();
    for d in dates {
        set.insert(*d);
    }
    set
}

fn count(now: &str, end: &str, set: &HolidaySet) -> RemainingWorkdays {
    calculate_remaining_workdays(&moment(now), &moment(end), set)
}

#[test]
fn full_days_from_friday_to_monday_after_next() {
    let r = count("2023-11-10T16:00:00", "2023-11-20T16:00:00", &HolidaySet::new());
    assert_eq!(r.full_days, 6);
    assert_eq!(r.shift_seconds_today, 0);
    assert_eq!(r.total_shift_seconds(), 6 * 28_800);
}

#[test]
fn holiday_on_tuesday_takes_one_full_day() {
    let without = count("2023-11-10T16:00:00", "2023-11-20T16:00:00", &HolidaySet::new());
    let with = count(
        "2023-11-10T16:00:00",
        "2023-11-20T16:00:00",
        &holidays(&[date(2023, 11, 14)]),
    );
    assert_eq!(without.full_days, 6);
    assert_eq!(with.full_days, 5);
    assert_eq!(with.shift_seconds_today, without.shift_seconds_today);
}

#[test]
fn holiday_on_weekend_changes_nothing() {
    let without = count("2023-11-10T12:00:00", "2023-11-20T16:00:00", &HolidaySet::new());
    let with = count(
        "2023-11-10T12:00:00",
        "2023-11-20T16:00:00",
        &holidays(&[date(2023, 11, 18), date(2023, 11, 19)]),
    );
    assert_eq!(with, without);
}

#[test]
fn holiday_outside_the_range_changes_nothing() {
    let with = count(
        "2023-11-10T12:00:00",
        "2023-11-20T16:00:00",
        &holidays(&[date(2023, 11, 9), date(2023, 11, 21)]),
    );
    assert_eq!(with.full_days, 6);
    assert_eq!(with.shift_seconds_today, 14_400);
}

#[test]
fn nothing_counts_today_on_saturday_and_sunday() {
    let none = HolidaySet::new();
    let saturday = count("2023-11-11T09:00:00", "2023-11-20T16:00:00", &none);
    assert_eq!(saturday.shift_seconds_today, 0);
    assert_eq!(saturday.full_days, 6);
    let sunday = count("2023-11-12T09:00:00", "2023-11-20T16:00:00", &none);
    assert_eq!(sunday.shift_seconds_today, 0);
    assert_eq!(sunday.full_days, 6);
}

#[test]
fn nothing_counts_today_on_a_holiday() {
    let set = holidays(&[date(2023, 11, 10)]);
    let r = count("2023-11-10T09:00:00", "2023-11-20T16:00:00", &set);
    assert_eq!(r.shift_seconds_today, 0);
    assert_eq!(r.full_days, 6);
}

#[test]
fn same_time_of_day_leaves_no_partial_term() {
    let r = count("2023-11-10T16:00:00", "2023-11-10T16:00:00", &HolidaySet::new());
    assert_eq!(r.shift_seconds_today, 0);
    let later_day = count("2023-11-10T07:30:15.25", "2023-11-13T07:30:15.25", &HolidaySet::new());
    assert_eq!(later_day.shift_seconds_today, 0);
    assert_eq!(later_day.full_days, 1);
}

#[test]
fn same_day_counts_the_part_of_the_shift() {
    let none = HolidaySet::new();
    assert_eq!(count("2023-11-10T12:00:00", "2023-11-10T16:00:00", &none).shift_seconds_today, 14_400);
    assert_eq!(count("2023-11-10T15:59:59", "2023-11-10T16:00:00", &none).shift_seconds_today, 1);
    assert_eq!(count("2023-11-10T08:00:00", "2023-11-10T16:00:00", &none).shift_seconds_today, 28_800);
    assert_eq!(count("2023-11-10T08:00:01", "2023-11-10T16:00:00", &none).shift_seconds_today, 28_799);
    assert_eq!(count("2023-11-10T12:00:00", "2023-11-10T16:00:00", &none).full_days, 0);
}

#[test]
fn partial_term_is_no_more_than_a_shift() {
    let none = HolidaySet::new();
    assert_eq!(count("2023-11-10T07:59:59", "2023-11-10T16:00:00", &none).shift_seconds_today, 28_800);
    assert_eq!(count("2023-11-10T00:00:00", "2023-11-10T23:59:59", &none).shift_seconds_today, 28_800);
}

#[test]
fn partial_term_is_no_less_than_nothing() {
    let none = HolidaySet::new();
    assert_eq!(count("2023-11-10T16:00:01", "2023-11-10T16:00:00", &none).shift_seconds_today, 0);
    assert_eq!(count("2023-11-10T23:00:00", "2023-11-20T01:00:00", &none).shift_seconds_today, 0);
}

#[test]
fn fractions_of_a_second_are_dropped_from_the_difference() {
    let none = HolidaySet::new();
    assert_eq!(count("2023-11-10T12:00:00.5", "2023-11-10T12:00:01", &none).shift_seconds_today, 0);
    assert_eq!(count("2023-11-10T12:00:00.5", "2023-11-10T12:00:01.5", &none).shift_seconds_today, 1);
    assert_eq!(count("2023-11-10T12:00:00.5", "2023-11-10T12:00:02.4", &none).shift_seconds_today, 1);
    assert_eq!(count("2023-11-10T12:00:00.999999999", "2023-11-10T12:00:03", &none).shift_seconds_today, 2);
}

#[test]
fn leap_seconds_are_counted_as_chrono_counts_them() {
    let none = HolidaySet::new();
    let day = date(2023, 11, 10);
    let at = |seconds: u32, nanos: u32| Moment {
        date: day,
        time: TimeOfDay::from_num_seconds_from_midnight(seconds, nanos).unwrap(),
    };
    let three = 3 * 3600;
    // From 03:00:59 to the leap second behind it.
    let r = calculate_remaining_workdays(&at(three + 59, 0), &at(three + 59, 1_000_000_000), &none);
    assert_eq!(r.shift_seconds_today, 1);
    // From 03:00:00 to the leap second at the end of that minute.
    let r = calculate_remaining_workdays(&at(three, 0), &at(three + 59, 1_000_000_000), &none);
    assert_eq!(r.shift_seconds_today, 60);
    // From the leap second at the end of 02:59 to 03:00:00.
    let r = calculate_remaining_workdays(&at(three - 1, 1_000_000_000), &at(three, 0), &none);
    assert_eq!(r.shift_seconds_today, 1);
    // From one leap second to the one a minute later.
    let r = calculate_remaining_workdays(
        &at(three - 1, 1_000_000_000),
        &at(three + 59, 1_000_000_000),
        &none,
    );
    assert_eq!(r.shift_seconds_today, 61);
    // From 03:00:59.5 to half a second into the leap second.
    let r = calculate_remaining_workdays(
        &at(three + 59, 500_000_000),
        &at(three + 59, 1_500_000_000),
        &none,
    );
    assert_eq!(r.shift_seconds_today, 1);
}

#[test]
fn seconds_today_agree_with_chrono_on_many_times() {
    let none = HolidaySet::new();
    let day = date(2023, 11, 10);
    let times: [(u32, u32); 9] = [
        (0, 0),
        (1, 999_999_999),
        (59, 1_000_000_000),
        (59, 1_999_999_999),
        (60, 0),
        (43_200, 500_000_000),
        (43_259, 1_250_000_000),
        (86_399, 999_999_999),
        (86_399, 1_999_999_999),
    ];
    for from in times.iter() {
        for to in times.iter() {
            let a = chrono::NaiveTime::from_num_seconds_from_midnight_opt(from.0, from.1).unwrap();
            let b = chrono::NaiveTime::from_num_seconds_from_midnight_opt(to.0, to.1).unwrap();
            let seconds = (b - a).num_seconds();
            let expected = if seconds < 0 {
                0
            } else if seconds > 28_800 {
                28_800
            } else {
                seconds as u32
            };
            let now = Moment {
                date: day,
                time: TimeOfDay::from_num_seconds_from_midnight(from.0, from.1).unwrap(),
            };
            let end = Moment {
                date: day,
                time: TimeOfDay::from_num_seconds_from_midnight(to.0, to.1).unwrap(),
            };
            let r = calculate_remaining_workdays(&now, &end, &none);
            assert_eq!(r.shift_seconds_today, expected);
        }
    }
}

#[test]
fn nothing_remains_at_the_end_of_work() {
    let r = count("2023-11-20T16:00:00", "2023-11-20T16:00:00", &HolidaySet::new());
    assert_eq!(r, RemainingWorkdays { shift_seconds_today: 0, full_days: 0 });
    assert_eq!(r.total_shift_seconds(), 0);
}

#[test]
fn no_later_day_counts_once_work_has_ended() {
    let none = HolidaySet::new();
    let r = count("2023-11-22T09:00:00", "2023-11-20T16:00:00", &none);
    assert_eq!(r.full_days, 0);
    assert_eq!(r.shift_seconds_today, 25_200);
    let r = count("2023-11-22T17:00:00", "2023-11-20T16:00:00", &none);
    assert_eq!(r, RemainingWorkdays { shift_seconds_today: 0, full_days: 0 });
}

#[test]
fn the_same_inputs_give_the_same_count() {
    let set = holidays(&[date(2023, 11, 14), date(2023, 11, 16)]);
    let first = count("2023-11-10T10:15:00", "2023-11-20T16:00:00", &set);
    let second = count("2023-11-10T10:15:00", "2023-11-20T16:00:00", &set);
    assert_eq!(first, second);
    assert_eq!(first, RemainingWorkdays { shift_seconds_today: 20_700, full_days: 4 });
}

#[test]
fn both_terms_add_up() {
    let r = count("2023-11-10T12:00:00", "2023-11-20T16:00:00", &HolidaySet::new());
    assert_eq!(r.full_days, 6);
    assert_eq!(r.shift_seconds_today, 14_400);
    assert_eq!(r.total_shift_seconds(), 6 * 28_800 + 14_400);
    let most = RemainingWorkdays { shift_seconds_today: 28_800, full_days: u32::MAX };
    assert_eq!(most.total_shift_seconds(), 4_294_967_295u64 * 28_800 + 28_800);
}

#[test]
fn a_long_stretch_counts_five_days_a_week() {
    let r = count("2023-01-01T00:00:00", "2023-12-31T00:00:00", &HolidaySet::new());
    // 2023 has 260 weekdays; the first of January is a Sunday and counts for nothing.
    assert_eq!(r.full_days, 260);
    assert_eq!(r.shift_seconds_today, 0);
}

#[test]
fn working_weekdays_are_monday_to_friday() {
    assert!(!has_working_weekday(0));
    assert!(has_working_weekday(1));
    assert!(has_working_weekday(3));
    assert!(has_working_weekday(5));
    assert!(!has_working_weekday(6));
    assert!(!has_working_weekday(7));
    assert!(!has_working_weekday(8));
}

#[test]
fn shift_seconds_are_kept_within_the_shift() {
    assert_eq!(SHIFT_SECONDS, 8 * 60 * 60);
    assert_eq!(remaining_shift_seconds(i64::MIN), 0);
    assert_eq!(remaining_shift_seconds(-1), 0);
    assert_eq!(remaining_shift_seconds(0), 0);
    assert_eq!(remaining_shift_seconds(1), 1);
    assert_eq!(remaining_shift_seconds(14_400), 14_400);
    assert_eq!(remaining_shift_seconds(28_799), 28_799);
    assert_eq!(remaining_shift_seconds(28_800), 28_800);
    assert_eq!(remaining_shift_seconds(28_801), 28_800);
    assert_eq!(remaining_shift_seconds(i64::MAX), 28_800);
}

#[test]
fn workdays_follow_weekday_and_holidays() {
    let set = holidays(&[date(2023, 11, 14), date(2023, 11, 18)]);
    assert!(counts_as_workday(&date(2023, 11, 13), &set));
    assert!(!counts_as_workday(&date(2023, 11, 14), &set));
    assert!(counts_as_workday(&date(2023, 11, 15), &set));
    assert!(counts_as_workday(&date(2023, 11, 16), &set));
    assert!(counts_as_workday(&date(2023, 11, 17), &set));
    assert!(!counts_as_workday(&date(2023, 11, 18), &set));
    assert!(!counts_as_workday(&date(2023, 11, 19), &set));
    assert!(counts_as_workday(&date(2023, 11, 20), &set));
}

#[test]
fn weekdays_agree_with_chrono_over_many_days() {
    let none = HolidaySet::new();
    let mut day_number = 730_000;
    while day_number < 730_800 {
        let naive = NaiveDate::from_num_days_from_ce_opt(day_number).unwrap();
        let expected = naive.weekday().number_from_monday() <= 5;
        let d = CalendarDate::from_day_number(day_number).unwrap();
        assert_eq!(counts_as_workday(&d, &none), expected);
        day_number += 1;
    }
}

#[test]
fn fixed_moment_is_counted_from_once() {
    let spec = WorkdaySpec {
        end_of_work: moment("2023-11-20T16:00:00"),
        now: Some(moment("2023-11-10T12:00:00")),
    };
    let clock = moment("2023-11-17T15:00:00");
    assert!(spec.is_single_shot());
    assert_eq!(spec.reference_moment(clock), moment("2023-11-10T12:00:00"));
    let r = spec.remaining_workdays(clock, &HolidaySet::new());
    assert_eq!(r, RemainingWorkdays { shift_seconds_today: 14_400, full_days: 6 });
}

#[test]
fn present_moment_is_counted_from_again_and_again() {
    let spec = WorkdaySpec { end_of_work: moment("2023-11-20T16:00:00"), now: None };
    let clock = moment("2023-11-17T15:00:00");
    assert!(!spec.is_single_shot());
    assert_eq!(spec.reference_moment(clock), clock);
    let r = spec.remaining_workdays(clock, &HolidaySet::new());
    assert_eq!(r, RemainingWorkdays { shift_seconds_today: 3_600, full_days: 1 });
    let later = moment("2023-11-17T15:00:01");
    let r = spec.remaining_workdays(later, &HolidaySet::new());
    assert_eq!(r, RemainingWorkdays { shift_seconds_today: 3_599, full_days: 1 });
}
