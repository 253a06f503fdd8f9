//! Priority levels for attention management, and what they imply for Do Not
//! Disturb and display timeouts.

use vstd::prelude::*;

verus! {

/// Priority levels, ordered `Low < Normal < High < Critical < Urgent`.
#[derive(Debug, Clone, Copy, PartialEq, Eq, PartialOrd, Ord, Hash, Structural)]
pub enum Priority {
    /// Background notifications.
    Low,
    /// Normal notifications.
    Normal,
    /// Important notifications.
    High,
    /// Critical notifications.
    Critical,
    /// Urgent, time-sensitive notifications.
    Urgent,
}

impl Priority {
    /// The numeric rank of a priority, for ordering in specifications.
    pub open spec fn rank(self) -> int {
        match self {
            Priority::Low => 1,
            Priority::Normal => 2,
            Priority::High => 3,
            Priority::Critical => 4,
            Priority::Urgent => 5,
        }
    }

    /// The display timeout in milliseconds implied by a priority; `None`
    /// means the notification stays until the user acts.
    pub open spec fn spec_default_timeout(self) -> Option<u64> {
        match self {
            Priority::Low => Some(3000u64),
            Priority::Normal => Some(5000u64),
            Priority::High => Some(10000u64),
            Priority::Critical => None,
            Priority::Urgent => None,
        }
    }

    /// Whether this priority bypasses Do Not Disturb: exactly the two
    /// highest levels do.
    pub fn bypasses_dnd(&self) -> (r: bool)
        ensures
            r == (*self is Critical || *self is Urgent),
    {
        match self {
            Priority::Critical => true,
            Priority::Urgent => true,
            _ => false,
        }
    }

    /// The display timeout implied by this priority, in milliseconds.
    pub fn default_timeout(&self) -> (r: Option<u64>)
        ensures
            r == self.spec_default_timeout(),
    {
        match self {
            Priority::Low => Some(3000u64),
            Priority::Normal => Some(5000u64),
            Priority::High => Some(10000u64),
            Priority::Critical => None,
            Priority::Urgent => None,
        }
    }
}

impl Default for Priority {
    /// `Normal`.
    fn default() -> (r: Priority)
        ensures
            r is Normal,
    {
        Priority::Normal
    }
}

/// A priority at or above `High` keeps the notification on screen longer
/// than `Low` would, and the two levels that bypass Do Not Disturb have no
/// timeout at all: they stay until the user acts.
pub proof fn lemma_priority_timeouts(p: Priority)
    ensures
        p.rank() >= Priority::High.rank() && p.spec_default_timeout() is Some
            ==> p.spec_default_timeout()->0 > Priority::Low.spec_default_timeout()->0,
        (p is Critical || p is Urgent) <==> p.spec_default_timeout() is None,
{
}

} // verus!
