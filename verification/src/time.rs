//! Points on the monotonic clock.

use vstd::prelude::*;

verus! {

/// One second, in nanoseconds.
pub const SECOND: u64 = 1_000_000_000;

/// One millisecond, in nanoseconds.
pub const MILLISECOND: u64 = 1_000_000;

/// A reading of the monotonic clock, in nanoseconds from a fixed origin.
#[derive(Debug, Clone, Copy, PartialEq, Eq, Structural)]
pub struct Timestamp {
    pub nanos: u64,
}

impl Timestamp {
    /// The nanoseconds from `earlier` to `self`; none where `earlier` is later.
    pub open spec fn since(self, earlier: Timestamp) -> int {
        if self.nanos >= earlier.nanos {
            self.nanos - earlier.nanos
        } else {
            0
        }
    }

    /// The nanoseconds from `earlier` to `self`; none where `earlier` is later.
    pub fn duration_since(self, earlier: Timestamp) -> (r: u64)
        ensures
            r == self.since(earlier),
            self.nanos >= earlier.nanos ==> r == self.nanos - earlier.nanos,
            self.nanos < earlier.nanos ==> r == 0,
    {
        if self.nanos >= earlier.nanos {
            self.nanos - earlier.nanos
        } else {
            0
        }
    }
}

/// The time since an earlier reading of the clock is what was added to it, and
/// since a later one none has passed.
pub proof fn law_time_passed(earlier: Timestamp, later: Timestamp)
    ensures
        earlier.nanos <= later.nanos ==> earlier.nanos + later.since(earlier) == later.nanos,
        earlier.nanos <= later.nanos ==> earlier.since(later) == 0,
{
}

/// A second is a thousand milliseconds, and a millisecond a million nanoseconds.
pub proof fn law_units()
    ensures
        SECOND == 1000 * MILLISECOND,
        MILLISECOND == 1000 * 1000,
{
}

} // verus!
