//! Logical timestamps that order transactions.

use vstd::prelude::*;

verus! {

/// Number of low bits of a timestamp that hold its logical counter; the bits
/// above them hold physical time in milliseconds.
pub const TSO_PHYSICAL_SHIFT_BITS: u64 = 18;

/// A 64-bit logical time. A transaction is identified by the timestamp at
/// which it starts, and its writes become visible at its commit timestamp.
#[derive(Clone, Copy, Debug, PartialEq, Eq, Structural, PartialOrd, Ord, Hash)]
pub struct TimeStamp(pub u64);

impl View for TimeStamp {
    type V = u64;

    open spec fn view(&self) -> u64 {
        self.0
    }
}

impl TimeStamp {
    /// The timestamp with the given value.
    pub fn new(ts: u64) -> (r: TimeStamp)
        ensures
            r@ == ts,
    {
        TimeStamp(ts)
    }

    /// The smallest timestamp, which also stands for "no timestamp".
    pub fn zero() -> (r: TimeStamp)
        ensures
            r@ == 0,
    {
        TimeStamp(0)
    }

    /// The greatest timestamp.
    pub fn max() -> (r: TimeStamp)
        ensures
            r@ == u64::MAX,
    {
        TimeStamp(u64::MAX)
    }

    /// The value of the timestamp.
    pub fn into_inner(self) -> (r: u64)
        ensures
            r == self@,
    {
        self.0
    }

    pub fn is_zero(self) -> (r: bool)
        ensures
            r == (self@ == 0),
    {
        self.0 == 0
    }

    pub fn is_max(self) -> (r: bool)
        ensures
            r == (self@ == u64::MAX),
    {
        self.0 == u64::MAX
    }

    /// The timestamp just after this one. The greatest timestamp has no
    /// successor.
    pub fn next(self) -> (r: TimeStamp)
        requires
            self@ < u64::MAX,
        ensures
            r@ == self@ + 1,
    {
        TimeStamp(self.0 + 1)
    }

    /// The timestamp just after this one; the greatest timestamp itself
    /// where there is none after.
    pub fn next_or_max(self) -> (r: TimeStamp)
        ensures
            r == self.spec_next_or_max(),
    {
        if self.0 == u64::MAX {
            self
        } else {
            TimeStamp(self.0 + 1)
        }
    }

    /// The timestamp just after this one; the greatest timestamp itself
    /// where there is none after.
    pub open spec fn spec_next_or_max(self) -> TimeStamp {
        if self.0 == u64::MAX {
            self
        } else {
            TimeStamp((self.0 + 1) as u64)
        }
    }

    /// The timestamp just before this one. Zero has no predecessor.
    pub fn prev(self) -> (r: TimeStamp)
        requires
            self@ > 0,
        ensures
            r@ == self@ - 1,
    {
        TimeStamp(self.0 - 1)
    }

    /// The physical part of the timestamp, in milliseconds.
    pub fn physical(self) -> (r: u64)
        ensures
            r == self.spec_physical(),
    {
        self.0 >> TSO_PHYSICAL_SHIFT_BITS
    }

    /// The physical part of the timestamp, in milliseconds.
    pub open spec fn spec_physical(self) -> u64 {
        self.0 >> TSO_PHYSICAL_SHIFT_BITS
    }

    /// The greater of two timestamps.
    pub fn max_of(a: TimeStamp, b: TimeStamp) -> (r: TimeStamp)
        ensures
            r == TimeStamp::spec_max_of(a, b),
    {
        if a.0 >= b.0 { a } else { b }
    }

    /// The greater of two timestamps.
    pub open spec fn spec_max_of(a: TimeStamp, b: TimeStamp) -> TimeStamp {
        if a.0 >= b.0 { a } else { b }
    }
}


impl Default for TimeStamp {
    fn default() -> (r: TimeStamp)
        ensures
            r@ == 0,
    {
        TimeStamp(0)
    }
}

impl From<u64> for TimeStamp {
    fn from(ts: u64) -> (r: TimeStamp) {
        TimeStamp(ts)
    }
}

impl vstd::std_specs::convert::FromSpecImpl<u64> for TimeStamp {
    open spec fn obeys_from_spec() -> bool {
        true
    }

    open spec fn from_spec(ts: u64) -> TimeStamp {
        TimeStamp(ts)
    }
}

} // verus!
