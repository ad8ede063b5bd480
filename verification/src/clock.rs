//! Monotonic time newtype and the injected clock interface.

use vstd::prelude::*;

verus! {

/// Milliseconds since boot. Never steps, never goes backwards.
#[derive(Clone, Copy, Debug, PartialEq, Eq, Structural, PartialOrd, Ord)]
pub struct Millis(pub u64);

/// `a + b` clamped to the `u64` range.
pub open spec fn sat_add(a: int, b: int) -> int {
    if a + b > u64::MAX { u64::MAX as int } else { a + b }
}

/// `a - b` clamped at zero.
pub open spec fn sat_sub(a: int, b: int) -> int {
    if a < b { 0 } else { a - b }
}

/// `secs` seconds in milliseconds, clamped to the `u64` range.
pub open spec fn secs_to_millis(secs: u64) -> int {
    if secs * 1000 > u64::MAX { u64::MAX as int } else { secs * 1000 }
}

impl Millis {
    pub fn from_secs(secs: u64) -> (r: Self)
        ensures
            r.0 == secs_to_millis(secs),
    {
        if secs > u64::MAX / 1000 {
            Millis(u64::MAX)
        } else {
            Millis(secs * 1000)
        }
    }

    pub fn as_secs(self) -> (r: u64)
        ensures
            r == self.0 / 1000,
    {
        self.0 / 1000
    }

    pub fn saturating_add(self, other: Self) -> (r: Self)
        ensures
            r.0 == sat_add(self.0 as int, other.0 as int),
    {
        Millis(self.0.saturating_add(other.0))
    }

    /// Elapsed time since `earlier`, zero when `earlier` lies in the future.
    pub fn since(self, earlier: Self) -> (r: Self)
        ensures
            r.0 == sat_sub(self.0 as int, earlier.0 as int),
    {
        Millis(self.0.saturating_sub(earlier.0))
    }
}

/// Where time enters: a monotonic instant for staleness, and wall-clock
/// seconds once they are known.
pub trait Clock {
    fn monotonic(&self) -> Millis;

    fn unix_seconds(&self) -> Option<u64>;
}

} // verus!
