//! When the next cycle is due. Times are seconds since the Unix epoch; the
//! daily report goes by the clock of UTC+8.

use vstd::prelude::*;

verus! {

/// The seconds in one day.
pub const DAY: u64 = 86400;

/// The seconds in one hour.
pub const HOUR: u64 = 3600;

/// How far the clock that the report hour is read on runs ahead of UTC.
pub const REPORT_CLOCK_OFFSET: u64 = 28800;

/// How long the monitor waits between two cycles unless it is told
/// otherwise.
pub const MONITOR_INTERVAL: u64 = 300;

/// How long a task that broke off is left alone before it is started again.
pub const RESTART_DELAY: u64 = 60;

/// The hour at which the report goes out unless it is told otherwise.
pub const DEFAULT_REPORT_HOUR: u8 = 7;

/// The second of its day, on the report's clock, at which the instant `at`
/// falls.
pub open spec fn report_clock(at: int) -> int {
    (at + REPORT_CLOCK_OFFSET) % (DAY as int)
}

/// How long it is from `now` to the next time the report's clock shows
/// `hour` o'clock sharp. At the stroke itself the next one is a day off.
pub open spec fn report_wait(now: u64, hour: u8) -> u64 {
    let today = report_clock(now as int);
    let target = hour * HOUR;
    if target > today {
        (target - today) as u64
    } else {
        (target + DAY - today) as u64
    }
}

/// `now + wait`, held at the largest instant there is where the sum would
/// pass it.
pub open spec fn due(now: u64, wait: u64) -> u64 {
    if now + wait <= u64::MAX {
        (now + wait) as u64
    } else {
        u64::MAX
    }
}

/// The wait ends on the stroke of the hour, lasts a day at most, and
/// passes no earlier stroke.
pub proof fn lemma_report_wait(now: u64, hour: u8)
    requires
        hour < 24,
    ensures
        0 < report_wait(now, hour) <= DAY,
        report_clock(now + report_wait(now, hour)) == hour * HOUR,
        forall|at: int|
            now < at < now + report_wait(now, hour) ==> #[trigger] report_clock(at) != hour
                * HOUR,
{
    let wait = report_wait(now, hour) as int;
    let today = report_clock(now as int);
    assert forall|at: int| now < at < now + wait implies #[trigger] report_clock(at) != hour
        * HOUR by {
        let sooner = at - now;
        let base = now + REPORT_CLOCK_OFFSET - today;
        assert(base % 86400 == 0);
        if today + sooner < 86400 {
            assert((base + (today + sooner)) % 86400 == today + sooner);
        } else {
            assert((base + (today + sooner)) % 86400 == today + sooner - 86400);
        }
    }
}

/// How long it is from `now` to the next stroke of `hour` on the report's
/// clock.
pub fn seconds_until_report(now: u64, hour: u8) -> (wait: u64)
    requires
        hour < 24,
    ensures
        wait == report_wait(now, hour),
        0 < wait <= DAY,
{
    let today = (now % DAY + REPORT_CLOCK_OFFSET) % DAY;
    let h: u64 = hour as u64;
    let target = h * HOUR;
    if target > today {
        target - today
    } else {
        target + DAY - today
    }
}

/// The instant at which a task that wakes at `now` and waits `wait` seconds
/// is due again.
pub fn due_after(now: u64, wait: u64) -> (at: u64)
    ensures
        at == due(now, wait),
{
    if wait <= u64::MAX - now {
        now + wait
    } else {
        u64::MAX
    }
}

} // verus!
