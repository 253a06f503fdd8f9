//! Monotonic-style timestamps measured in milliseconds.
//!
//! A `DefaultableInstant` wraps a millisecond reading of the system clock and
//! implements `Default` (the current time), so that it can sit inside structs
//! that derive `Default`.  All duration arithmetic is saturating.

use vstd::prelude::*;

verus! {

/// Relies on `std::time::SystemTime::now`: the clock reading converted to
/// whole milliseconds since the Unix epoch (zero if the clock is before it).
#[verifier::external_body]
pub fn clock_now_millis() -> (r: u64)
{
    match std::time::SystemTime::now().duration_since(std::time::SystemTime::UNIX_EPOCH) {
        Ok(d) => u64::try_from(d.as_millis()).unwrap_or(u64::MAX),
        Err(_) => 0,
    }
}

/// A clock reading in milliseconds that can be defaulted to "now".
#[derive(Debug, Clone, Copy, PartialEq, Eq, Structural)]
pub struct DefaultableInstant {
    /// Milliseconds since the Unix epoch.
    pub millis: u64,
}

impl DefaultableInstant {
    /// Wrap an explicit millisecond reading.
    pub fn new(millis: u64) -> (r: DefaultableInstant)
        ensures
            r.millis == millis,
    {
        DefaultableInstant { millis }
    }

    /// The current time.
    pub fn now() -> (r: DefaultableInstant)
    {
        DefaultableInstant { millis: clock_now_millis() }
    }

    /// The wrapped millisecond reading.
    pub fn inner(&self) -> (r: u64)
        ensures
            r == self.millis,
    {
        self.millis
    }

    /// Milliseconds from `earlier` to `self`; zero if `earlier` is later.
    pub fn duration_since(&self, earlier: DefaultableInstant) -> (r: u64)
        ensures
            r == if self.millis >= earlier.millis {
                (self.millis - earlier.millis) as u64
            } else {
                0u64
            },
    {
        if self.millis >= earlier.millis {
            self.millis - earlier.millis
        } else {
            0
        }
    }

    /// Milliseconds from `self` to the current time; zero if in the future.
    pub fn elapsed(&self) -> (r: u64)
    {
        let now: DefaultableInstant = DefaultableInstant::now();
        now.duration_since(*self)
    }
}

impl Default for DefaultableInstant {
    /// The current time.
    fn default() -> DefaultableInstant {
        DefaultableInstant::now()
    }
}

} // verus!
