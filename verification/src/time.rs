//! Lengths and points of time in nanoseconds.

use vstd::prelude::*;

verus! {

/// A length of time.
#[derive(Clone, Copy, Debug, PartialEq, Eq, Structural)]
pub struct Duration {
    pub nanos: u64,
}

/// A point in time, counted from an origin that one process keeps.
#[derive(Clone, Copy, Debug, PartialEq, Eq, Structural)]
pub struct Instant {
    pub nanos: u64,
}

/// The smaller of a number and the largest that fits.
pub open spec fn saturated(n: int) -> u64 {
    if n > u64::MAX {
        u64::MAX
    } else if n < 0 {
        0
    } else {
        n as u64
    }
}

impl Duration {
    pub fn zero() -> (r: Duration)
        ensures
            r.nanos == 0,
    {
        Duration { nanos: 0 }
    }

    pub fn from_secs(secs: u64) -> (r: Duration)
        ensures
            r.nanos == saturated(secs * 1_000_000_000),
    {
        if secs > u64::MAX / 1_000_000_000 {
            Duration { nanos: u64::MAX }
        } else {
            Duration { nanos: secs * 1_000_000_000 }
        }
    }

    pub fn from_millis(millis: u64) -> (r: Duration)
        ensures
            r.nanos == saturated(millis * 1_000_000),
    {
        if millis > u64::MAX / 1_000_000 {
            Duration { nanos: u64::MAX }
        } else {
            Duration { nanos: millis * 1_000_000 }
        }
    }

    pub fn is_zero(&self) -> (r: bool)
        ensures
            r == (self.nanos == 0),
    {
        self.nanos == 0
    }

    /// The shorter of two lengths.
    pub fn min(self, other: Duration) -> (r: Duration)
        ensures
            r.nanos == if self.nanos <= other.nanos { self.nanos } else { other.nanos },
    {
        if self.nanos <= other.nanos {
            self
        } else {
            other
        }
    }
}

impl Instant {
    /// This long after a point in time.
    pub fn after(self, length: Duration) -> (r: Instant)
        ensures
            r.nanos == saturated(self.nanos + length.nanos),
    {
        Instant { nanos: self.nanos.saturating_add(length.nanos) }
    }

    /// How long ago `earlier` was: nothing where it is still to come.
    pub fn since(self, earlier: Instant) -> (r: Duration)
        ensures
            r.nanos == saturated(self.nanos - earlier.nanos),
    {
        Duration { nanos: self.nanos.saturating_sub(earlier.nanos) }
    }
}

} // verus!
