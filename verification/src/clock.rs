//! A monotonic clock that is read as a number of nanoseconds.

use vstd::prelude::*;

verus! {

/// A point on the operating system's monotonic clock.
#[verifier::external_type_specification]
#[verifier::external_body]
pub struct ExInstant(std::time::Instant);

/// Nanoseconds in a second.
pub const SECOND: u128 = 1_000_000_000;

/// A clock that was started at some instant and since then counts nanoseconds.
#[derive(Clone, Copy)]
pub struct Clock {
    start: std::time::Instant,
}

/// `std::time::Instant::now`. Nothing is claimed of the result.
#[verifier::external_body]
fn instant_now() -> std::time::Instant {
    std::time::Instant::now()
}

/// `std::time::Instant::elapsed`, as a number of nanoseconds. Nothing is claimed of the result.
#[verifier::external_body]
fn nanoseconds_since(start: &std::time::Instant) -> u128 {
    start.elapsed().as_nanos()
}

impl Clock {
    /// A clock that starts now.
    pub(crate) fn start() -> Clock {
        Clock { start: instant_now() }
    }

    /// The nanoseconds since the clock was started.
    pub(crate) fn read(&self) -> u128 {
        nanoseconds_since(&self.start)
    }
}

/// The time from `since` to `now`, zero where `now` is the earlier one.
pub open spec fn elapsed(since: u128, now: u128) -> int {
    if now >= since {
        now - since
    } else {
        0
    }
}

/// The time from `since` to `now`, zero where `now` is the earlier one.
pub(crate) fn elapsed_between(since: u128, now: u128) -> (r: u128)
    ensures
        r == elapsed(since, now),
{
    if now >= since {
        now - since
    } else {
        0
    }
}

} // verus!
