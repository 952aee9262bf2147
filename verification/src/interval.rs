//! Lengths of time.
use vstd::prelude::*;

verus! {

/// The nanoseconds of the longest interval: `u64::MAX` seconds and
/// 999,999,999 nanoseconds.
pub const MAX_NANOS: u128 = 18_446_744_073_709_551_615_999_999_999;

/// A length of time in whole nanoseconds, at most `MAX_NANOS`.
#[derive(Clone, Copy, PartialEq, Eq, Structural, Debug)]
pub struct Interval {
    pub nanos: u128,
}

impl Interval {
    /// Whether the interval is within the limit.
    pub open spec fn wf(self) -> bool {
        self.nanos <= MAX_NANOS
    }

    /// `secs` seconds.
    pub fn from_secs(secs: u64) -> (r: Interval)
        ensures
            r.wf(),
            r.nanos == secs * 1_000_000_000,
    {
        Interval { nanos: secs as u128 * 1_000_000_000 }
    }

    /// `millis` milliseconds.
    pub fn from_millis(millis: u64) -> (r: Interval)
        ensures
            r.wf(),
            r.nanos == millis * 1_000_000,
    {
        Interval { nanos: millis as u128 * 1_000_000 }
    }

    /// Whether the interval is empty.
    pub fn is_zero(self) -> (r: bool)
        ensures
            r == (self.nanos == 0),
    {
        self.nanos == 0
    }

    /// The whole seconds of the interval.
    pub fn as_secs(self) -> (r: u64)
        requires
            self.wf(),
        ensures
            r == self.nanos / 1_000_000_000,
    {
        (self.nanos / 1_000_000_000) as u64
    }

    /// The whole milliseconds of the interval.
    pub fn as_millis(self) -> (r: u128)
        ensures
            r == self.nanos / 1_000_000,
    {
        self.nanos / 1_000_000
    }

    pub open spec fn twice(self) -> Interval {
        Interval {
            nanos: if self.nanos * 2 <= MAX_NANOS {
                (self.nanos * 2) as u128
            } else {
                MAX_NANOS
            },
        }
    }

    /// Twice the interval, or the longest interval where that is shorter.
    pub fn doubled(self) -> (r: Interval)
        requires
            self.wf(),
        ensures
            r.wf(),
            r == self.twice(),
    {
        if self.nanos <= MAX_NANOS / 2 {
            Interval { nanos: self.nanos * 2 }
        } else {
            Interval { nanos: MAX_NANOS }
        }
    }

    pub open spec fn shorter(self, other: Interval) -> Interval {
        if self.nanos <= other.nanos {
            self
        } else {
            other
        }
    }

    /// The shorter of the two intervals.
    pub fn at_most(self, other: Interval) -> (r: Interval)
        ensures
            r == self.shorter(other),
    {
        if self.nanos <= other.nanos {
            self
        } else {
            other
        }
    }
}

/// `secs` seconds, as a value.
pub open spec fn seconds(secs: u64) -> Interval {
    Interval { nanos: (secs * 1_000_000_000) as u128 }
}

/// Doubling stops at the longest interval, and of two intervals the shorter is
/// the one that is not longer than the other.
pub proof fn law_intervals(a: Interval, b: Interval, secs: u64)
    ensures
        a.nanos * 2 <= MAX_NANOS ==> a.twice().nanos == a.nanos * 2,
        a.nanos * 2 > MAX_NANOS ==> a.twice().nanos == MAX_NANOS,
        a.shorter(b).nanos <= a.nanos && a.shorter(b).nanos <= b.nanos,
        a.shorter(b) == a || a.shorter(b) == b,
        seconds(secs).nanos == secs * 1_000_000_000,
        MAX_NANOS == u64::MAX * 1_000_000_000 + 999_999_999,
{
}

} // verus!
