use loggen::schedule::{
    interval_per_log, schedule_is_representable, scheduled_timestamp, timestamp_schedule,
};
use loggen::time::{Instant, Span};

const NEW_YEAR_2021: i64 = 1_609_459_200;

fn at_second(second: i64) -> Instant {
    Instant::from_unix_seconds(NEW_YEAR_2021 + second).unwrap()
}

#[test]
fn ten_seconds_in_five_steps_of_two() {
    let start = at_second(0);
    let end = at_second(10);
    let interval = interval_per_log(start, end, 5);
    assert_eq!(interval, Span::from_seconds(2));
    assert_eq!(interval.nanos(), 2_000_000_000);

    let schedule = timestamp_schedule(start, end, 5);
    let expected: Vec<Instant> =
        vec![at_second(0), at_second(2), at_second(4), at_second(6), at_second(8)];
    assert_eq!(schedule, expected);

    let texts: Vec<String> = schedule.iter().map(|t| t.to_rfc3339()).collect();
    assert_eq!(
        texts,
        vec![
            "2021-01-01T00:00:00+00:00",
            "2021-01-01T00:00:02+00:00",
            "2021-01-01T00:00:04+00:00",
            "2021-01-01T00:00:06+00:00",
            "2021-01-01T00:00:08+00:00",
        ]
    );
}

#[test]
fn scheduled_timestamp_is_start_plus_interval_times_counter() {
    let start = at_second(0);
    let interval = Span::from_nanos(1_500_000_000);
    assert_eq!(scheduled_timestamp(start, interval, 0), start);
    assert_eq!(
        scheduled_timestamp(start, interval, 3).unix_nanos(),
        start.unix_nanos() + 4_500_000_000
    );
    let back = Span::from_seconds(-1);
    assert_eq!(scheduled_timestamp(start, back, 7), at_second(-7));
}

#[test]
fn interval_is_rounded_towards_zero() {
    let start = Instant::from_unix_nanos(100);
    assert_eq!(interval_per_log(start, Instant::from_unix_nanos(110), 3).nanos(), 3);
    assert_eq!(interval_per_log(start, Instant::from_unix_nanos(110), 11).nanos(), 0);
    assert_eq!(interval_per_log(start, Instant::from_unix_nanos(100), 4).nanos(), 0);
    assert_eq!(interval_per_log(start, Instant::from_unix_nanos(90), 3).nanos(), -3);
    assert_eq!(interval_per_log(start, Instant::from_unix_nanos(90), 11).nanos(), 0);
    assert_eq!(interval_per_log(start, Instant::from_unix_nanos(101), 1).nanos(), 1);
}

#[test]
fn interval_of_the_widest_window() {
    let first = Instant::from_unix_nanos(i64::MIN);
    let last = Instant::from_unix_nanos(i64::MAX);
    assert_eq!(interval_per_log(first, last, 1).nanos(), u64::MAX as i128);
    assert_eq!(interval_per_log(last, first, 1).nanos(), -(u64::MAX as i128));
    assert_eq!(interval_per_log(first, last, u64::MAX).nanos(), 1);
    let schedule = timestamp_schedule(first, last, 3);
    assert_eq!(schedule.len(), 3);
    assert_eq!(schedule[0], first);
    assert!(schedule[2].unix_nanos() < i64::MAX);
}

#[test]
fn schedule_of_no_entries_is_empty() {
    let schedule = timestamp_schedule(at_second(0), at_second(10), 0);
    assert!(schedule.is_empty());
}

#[test]
fn schedule_is_the_same_on_every_run() {
    let start = at_second(3);
    let end = at_second(1_000);
    let first = timestamp_schedule(start, end, 97);
    let second = timestamp_schedule(start, end, 97);
    assert_eq!(first.len(), 97);
    assert_eq!(first, second);
}

#[test]
fn schedule_begins_at_start_and_ends_before_end() {
    let start = at_second(0);
    let end = Instant::from_unix_nanos(start.unix_nanos() + 1_000_000_007);
    let schedule = timestamp_schedule(start, end, 13);
    assert_eq!(schedule[0], start);
    for pair in schedule.windows(2) {
        assert!(pair[0].unix_nanos() <= pair[1].unix_nanos());
    }
    assert!(schedule[12].unix_nanos() < end.unix_nanos());
    let interval = interval_per_log(start, end, 13);
    for (index, timestamp) in schedule.iter().enumerate() {
        assert_eq!(*timestamp, scheduled_timestamp(start, interval, index as u64));
    }
}

#[test]
fn schedule_of_a_backward_window_stays_in_it() {
    let start = at_second(10);
    let end = at_second(0);
    let schedule = timestamp_schedule(start, end, 4);
    assert_eq!(schedule[0], start);
    assert_eq!(schedule[3].unix_nanos(), start.unix_nanos() - 7_500_000_000);
    for timestamp in &schedule {
        assert!(end.unix_nanos() <= timestamp.unix_nanos());
        assert!(timestamp.unix_nanos() <= start.unix_nanos());
    }
}

#[test]
fn representable_schedules_are_told_apart() {
    let start = at_second(0);
    assert!(schedule_is_representable(start, Span::from_seconds(2), 5));
    assert!(schedule_is_representable(start, Span::from_nanos(i128::MAX), 0));
    assert!(schedule_is_representable(start, Span::from_nanos(i128::MAX), 1));
    assert!(!schedule_is_representable(start, Span::from_nanos(i128::MAX), 2));
    assert!(!schedule_is_representable(start, Span::from_nanos(i128::MAX), 3));
    assert!(!schedule_is_representable(start, Span::from_nanos(i128::MIN), u64::MAX));

    let last = Instant::from_unix_nanos(i64::MAX - 10);
    assert!(schedule_is_representable(last, Span::from_nanos(5), 3));
    assert!(!schedule_is_representable(last, Span::from_nanos(5), 4));
    let first = Instant::from_unix_nanos(i64::MIN + 10);
    assert!(schedule_is_representable(first, Span::from_nanos(-5), 3));
    assert!(!schedule_is_representable(first, Span::from_nanos(-5), 4));
}
