//! Lengths of time, to the nanosecond.

use vstd::prelude::*;

verus! {

/// Nanoseconds in a second.
pub const SECOND: u128 = 1_000_000_000;

/// Nanoseconds in a millisecond.
pub const MILLISECOND: u128 = 1_000_000;

/// The longest length of time: one nanosecond short of 2^64 seconds.
pub const LONGEST: u128 = 18_446_744_073_709_551_615_999_999_999;

/// A length of time.
#[derive(Clone, Copy, Debug, PartialEq, Eq, Structural)]
pub struct Duration {
    pub nanos: u128,
}

impl Duration {
    /// `n` seconds.
    pub fn from_secs(n: u64) -> (r: Duration)
        ensures
            r.nanos == n * SECOND,
            r.nanos <= LONGEST,
    {
        Duration { nanos: n as u128 * 1_000_000_000 }
    }

    /// `n` milliseconds.
    pub fn from_millis(n: u64) -> (r: Duration)
        ensures
            r.nanos == n * MILLISECOND,
            r.nanos <= LONGEST,
    {
        Duration { nanos: n as u128 * 1_000_000 }
    }

    /// Whole milliseconds, in 64 bits.
    pub fn as_millis_u64(&self) -> (r: u64)
        ensures
            r == (self.nanos / MILLISECOND) as u64,
    {
        (self.nanos / MILLISECOND) as u64
    }

    /// Whole milliseconds.
    pub fn as_millis(&self) -> (r: u128)
        ensures
            r == self.nanos / MILLISECOND,
    {
        self.nanos / MILLISECOND
    }

    /// Whole seconds.
    pub fn as_secs(&self) -> (r: u128)
        ensures
            r == self.nanos / SECOND,
    {
        self.nanos / SECOND
    }
}

} // verus!
