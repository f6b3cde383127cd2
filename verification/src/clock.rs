//! Clock readings.

use std::time::{Instant, UNIX_EPOCH};
use vstd::prelude::*;

verus! {

/// `std::time::Instant`, carried through unread.
#[verifier::external_type_specification]
#[verifier::external_body]
pub struct ExInstant(std::time::Instant);

/// `Instant::now`: some instant. Nothing is claimed of it.
pub assume_specification[ Instant::now ]() -> Instant;

/// `Instant::elapsed`, in nanoseconds. The time that passed depends on the
/// clock alone, so nothing is claimed of it.
#[verifier::external_body]
fn nanos_since(origin: &Instant) -> u128 {
    origin.elapsed().as_nanos()
}

/// `SystemTime::elapsed` since the Unix epoch, in nanoseconds; `None` where the
/// system clock stands before the epoch. The reading depends on the clock
/// alone, so nothing is claimed of it.
#[verifier::external_body]
fn nanos_since_epoch() -> Option<u128> {
    UNIX_EPOCH.elapsed().ok().map(|time| time.as_nanos())
}

/// What the two clocks show.
#[derive(Debug, Clone, Copy)]
pub struct Moment {
    /// Nanoseconds that have passed since some fixed instant.
    pub running: u128,
    /// Nanoseconds since the Unix epoch, where the system clock stands after it.
    pub unix: Option<u128>,
}

impl Moment {
    /// What the clocks show now, running time counted from `origin`.
    pub(crate) fn now(origin: &Instant) -> Moment {
        Moment { running: nanos_since(origin), unix: nanos_since_epoch() }
    }
}

/// Whole milliseconds from `started` to `now`, as far as 64 bits go.
pub open spec fn millis_between(started: u128, now: u128) -> u64 {
    let millis = if started <= now {
        (now - started) / 1_000_000
    } else {
        0
    };
    if millis <= u64::MAX {
        millis as u64
    } else {
        u64::MAX
    }
}

/// Whole milliseconds from `started` to `now`, as far as 64 bits go.
pub fn elapsed_millis(started: u128, now: u128) -> (millis: u64)
    ensures
        millis == millis_between(started, now),
{
    if started <= now {
        let millis: u128 = (now - started) / 1_000_000;
        if millis <= u64::MAX as u128 {
            millis as u64
        } else {
            u64::MAX
        }
    } else {
        0
    }
}

/// Whole milliseconds since the Unix epoch, as far as 63 bits go; zero before
/// the epoch.
pub open spec fn unix_millis(nanos: Option<u128>) -> i64 {
    match nanos {
        Some(nanos) => if nanos / 1_000_000 <= i64::MAX {
            (nanos / 1_000_000) as i64
        } else {
            i64::MAX
        },
        None => 0,
    }
}

/// Whole milliseconds since the Unix epoch, of a reading of the system clock.
pub fn millis_since_epoch(nanos: Option<u128>) -> (millis: i64)
    ensures
        millis == unix_millis(nanos),
        millis >= 0,
{
    match nanos {
        Some(nanos) => {
            let millis: u128 = nanos / 1_000_000;
            if millis <= i64::MAX as u128 {
                millis as i64
            } else {
                i64::MAX
            }
        },
        None => 0,
    }
}

/// The current time in milliseconds since the Unix epoch, never negative.
pub fn now_millis() -> (millis: i64)
    ensures
        exists|nanos: Option<u128>| millis == #[trigger] unix_millis(nanos),
        millis >= 0,
{
    millis_since_epoch(nanos_since_epoch())
}

/// Whole seconds since the Unix epoch; zero before the epoch.
pub open spec fn unix_seconds(nanos: Option<u128>) -> i64 {
    match nanos {
        Some(nanos) => (nanos / 1_000_000_000) as u64 as i64,
        None => 0,
    }
}

/// Whole seconds since the Unix epoch, of a reading of the system clock.
pub fn seconds_since_epoch(nanos: Option<u128>) -> (seconds: i64)
    ensures
        seconds == unix_seconds(nanos),
{
    match nanos {
        Some(nanos) => (nanos / 1_000_000_000) as u64 as i64,
        None => 0,
    }
}

/// What the system clock shows.
pub(crate) fn system_clock() -> Option<u128> {
    nanos_since_epoch()
}

} // verus!
