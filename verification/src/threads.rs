//! Thread-priority support types.

use vstd::prelude::*;

verus! {

/// A thread's scheduling priority, and whether it runs under the
/// real-time scheduling policy.
#[derive(Debug, Clone, Copy, PartialEq, Eq, Structural)]
pub struct ThreadPriority {
    pub priority: i32,
    pub real_time: bool,
}

impl ThreadPriority {
    /// Assembles a priority from the two values a native query reports:
    /// the priority number and a non-zero flag for real-time scheduling.
    pub fn from_raw(priority: i32, is_real_time: i32) -> (r: Self)
        ensures
            r.priority == priority,
            r.real_time == (is_real_time != 0),
    {
        ThreadPriority { priority, real_time: is_real_time != 0 }
    }
}

} // verus!
