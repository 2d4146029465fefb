//! Lengths of time.
use vstd::prelude::*;

verus! {

/// A length of time in nanoseconds.
#[derive(Debug, Clone, Copy, PartialEq, Eq, PartialOrd, Ord, Hash, Structural)]
pub struct Duration {
    nanos: u128,
}

impl View for Duration {
    type V = nat;

    closed spec fn view(&self) -> nat {
        self.nanos as nat
    }
}

/// A number of nanoseconds, held at the largest value of sixty-four bits.
pub open spec fn clamped(nanos: nat) -> u64 {
    if nanos > u64::MAX {
        u64::MAX
    } else {
        nanos as u64
    }
}

impl Duration {
    pub fn from_secs(seconds: u64) -> (duration: Duration)
        ensures
            duration@ == seconds * 1_000_000_000,
    {
        Duration { nanos: seconds as u128 * 1_000_000_000 }
    }

    pub fn from_millis(millis: u64) -> (duration: Duration)
        ensures
            duration@ == millis * 1_000_000,
    {
        Duration { nanos: millis as u128 * 1_000_000 }
    }

    pub fn from_nanos(nanos: u64) -> (duration: Duration)
        ensures
            duration@ == nanos,
    {
        Duration { nanos: nanos as u128 }
    }

    pub fn as_nanos(&self) -> (nanos: u128)
        ensures
            nanos == self@,
    {
        self.nanos
    }

    /// Whole milliseconds.
    pub fn as_millis(&self) -> (millis: u128)
        ensures
            millis == self@ / 1_000_000,
    {
        self.nanos / 1_000_000
    }

    /// Whole seconds, as far as sixty-four bits hold them.
    pub fn as_secs(&self) -> (seconds: u64)
        ensures
            seconds == clamped(self@ / 1_000_000_000),
    {
        let seconds: u128 = self.nanos / 1_000_000_000;
        if seconds > u64::MAX as u128 {
            u64::MAX
        } else {
            seconds as u64
        }
    }

    pub fn is_zero(&self) -> (r: bool)
        ensures
            r == (self@ == 0),
    {
        self.nanos == 0
    }

    /// Nanoseconds, held at the largest value of sixty-four bits.
    pub fn clamped_nanos(&self) -> (nanos: u64)
        ensures
            nanos == clamped(self@),
    {
        if self.nanos > u64::MAX as u128 {
            u64::MAX
        } else {
            self.nanos as u64
        }
    }
}

} // verus!
