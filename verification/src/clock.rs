//! Calendar arithmetic on Unix timestamps.

use vstd::prelude::*;

verus! {

/// Seconds in a day.
pub const SECONDS_PER_DAY: i64 = 86400;

/// The start (00:00:00 UTC) of the UTC day holding `ts`.
pub open spec fn utc_day_start_spec(ts: int) -> int {
    ts - ts % 86400
}

/// The timestamp of 00:00:00 UTC on the day of `ts`.
pub fn utc_day_start(ts: i64) -> (r: i64)
    requires
        i64::MIN + SECONDS_PER_DAY <= ts,
    ensures
        r == utc_day_start_spec(ts as int),
{
    let m = ts % SECONDS_PER_DAY;
    let m = if m < 0 {
        m + SECONDS_PER_DAY
    } else {
        m
    };
    ts - m
}

/// Where today's local midnight falls, as the local time zone resolves it:
/// at one instant, at two (the clock was set back across midnight, earlier
/// first), or nowhere (the clock was set forward across it).
#[derive(Debug, Clone, Copy, PartialEq, Eq)]
pub enum LocalMidnight {
    Single(i64),
    Ambiguous(i64, i64),
    Missing,
}

/// The instant "today" starts: local midnight, the earlier one where there
/// are two, or `now` where local midnight does not exist.
pub fn today_start(midnight: LocalMidnight, now: i64) -> (r: i64)
    ensures
        r == match midnight {
            LocalMidnight::Single(t) => t,
            LocalMidnight::Ambiguous(earlier, _) => earlier,
            LocalMidnight::Missing => now,
        },
{
    match midnight {
        LocalMidnight::Single(t) => t,
        LocalMidnight::Ambiguous(earlier, _) => earlier,
        LocalMidnight::Missing => now,
    }
}

} // verus!
