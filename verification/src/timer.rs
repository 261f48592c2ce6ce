//! Timer quanta and deadlines.

use vstd::prelude::*;

verus! {

/// Length of one scheduling quantum, in platform timer ticks.
pub const T: usize = 10_000;

/// Absolute deadline `interval` ticks after the instant `now`.
///
/// The interval must be positive and the deadline must fit in a `usize`.
pub fn after(now: usize, interval: usize) -> (deadline: usize)
    requires
        interval > 0,
        now + interval <= usize::MAX,
    ensures
        deadline == now + interval,
{
    now + interval
}

} // verus!
