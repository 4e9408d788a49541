use saki_home_bot::schedule::{
    due_after, seconds_until_report, DAY, DEFAULT_REPORT_HOUR, HOUR, MONITOR_INTERVAL,
    REPORT_CLOCK_OFFSET, RESTART_DELAY,
};

#[test]
fn the_constants_are_what_they_say() {
    assert_eq!(DAY, 86400);
    assert_eq!(HOUR, 3600);
    assert_eq!(REPORT_CLOCK_OFFSET, 8 * 3600);
    assert_eq!(MONITOR_INTERVAL, 300);
    assert_eq!(RESTART_DELAY, 60);
    assert_eq!(DEFAULT_REPORT_HOUR, 7);
}

#[test]
fn the_wait_runs_to_the_next_stroke_of_the_hour() {
    // At the epoch the report's clock shows eight in the morning.
    assert_eq!(seconds_until_report(0, 9), 3600);
    assert_eq!(seconds_until_report(0, 7), 23 * 3600);
    assert_eq!(seconds_until_report(0, 0), 16 * 3600);
    assert_eq!(seconds_until_report(0, 23), 15 * 3600);
    assert_eq!(seconds_until_report(1, 9), 3599);
    assert_eq!(seconds_until_report(3599, 9), 1);
}

#[test]
fn at_the_stroke_the_next_one_is_a_day_off() {
    assert_eq!(seconds_until_report(0, 8), 86400);
    assert_eq!(seconds_until_report(3600, 9), 86400);
    assert_eq!(seconds_until_report(3601, 9), 86399);
}

#[test]
fn the_wait_ends_on_the_stroke_for_any_instant() {
    for now in [0u64, 1, 86399, 86400, 1_700_000_000, 1_792_345_678, u64::MAX - 100_000] {
        for hour in 0u8..24 {
            let wait = seconds_until_report(now, hour);
            assert!(0 < wait && wait <= 86400);
            assert_eq!((now as u128 + 28800 + wait as u128) % 86400, hour as u128 * 3600);
        }
    }
}

#[test]
fn the_wait_is_right_at_the_end_of_time() {
    let wait = seconds_until_report(u64::MAX, 7);
    assert!(0 < wait && wait <= 86400);
    assert_eq!(
        ((u64::MAX as u128 + 28800 + wait as u128) % 86400) as u64,
        7 * 3600
    );
}

#[test]
fn a_due_instant_is_the_sum_or_the_last_instant() {
    assert_eq!(due_after(100, 300), 400);
    assert_eq!(due_after(0, 0), 0);
    assert_eq!(due_after(u64::MAX - 5, 5), u64::MAX);
    assert_eq!(due_after(u64::MAX - 5, 6), u64::MAX);
    assert_eq!(due_after(u64::MAX, u64::MAX), u64::MAX);
}
