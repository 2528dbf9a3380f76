//! Time: the wall clock, and durations between instants.

use vstd::prelude::*;

verus! {

/// The time from `since` to `now`, in the unit of both; zero where `now`
/// lies before `since`.
pub open spec fn elapsed(now: u64, since: u64) -> int {
    if now >= since {
        now - since
    } else {
        0
    }
}

/// Reads the wall clock with `chrono::Utc::now` and gives its
/// `timestamp()`, the seconds since the Unix epoch. Nothing is claimed of
/// the value: two readings may differ in any way.
#[verifier::external_body]
pub(crate) fn utc_timestamp() -> i64 {
    chrono::Utc::now().timestamp()
}

/// The seconds of `timestamp` since the Unix epoch; zero for an instant
/// before it.
pub open spec fn seconds_since_epoch(timestamp: i64) -> u64 {
    if timestamp < 0 {
        0
    } else {
        timestamp as u64
    }
}

/// Clamps a signed timestamp to the unsigned seconds the token lifecycle
/// works in.
pub fn clamp_timestamp(timestamp: i64) -> (s: u64)
    ensures
        s == seconds_since_epoch(timestamp),
{
    if timestamp < 0 {
        0
    } else {
        timestamp as u64
    }
}

/// The current time in seconds since the Unix epoch: the reading of the
/// wall clock, with a reading before the epoch taken as zero. Which reading
/// comes is left open.
pub fn unix_now() -> (now: u64)
    ensures
        exists|reading: i64| now == #[trigger] seconds_since_epoch(reading),
        now <= i64::MAX,
{
    let reading = utc_timestamp();
    let now = clamp_timestamp(reading);
    assert(now == seconds_since_epoch(reading));
    now
}

} // verus!
