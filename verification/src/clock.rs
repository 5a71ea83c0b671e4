//! Spans of time, to the nanosecond.

use vstd::prelude::*;

verus! {

pub const NANOS_PER_SECOND: u128 = 1_000_000_000;

pub const NANOS_PER_MILLISECOND: u128 = 1_000_000;

/// A span of time.
#[derive(Clone, Copy, Debug, PartialEq, Eq, Structural)]
pub struct Duration {
    pub nanos: u128,
}

impl Duration {
    /// A span of whole seconds.
    pub fn from_secs(secs: u64) -> (span: Self)
        ensures
            span.nanos == secs * NANOS_PER_SECOND,
    {
        Duration { nanos: secs as u128 * NANOS_PER_SECOND }
    }

    /// A span of whole milliseconds.
    pub fn from_millis(millis: u64) -> (span: Self)
        ensures
            span.nanos == millis * NANOS_PER_MILLISECOND,
    {
        Duration { nanos: millis as u128 * NANOS_PER_MILLISECOND }
    }

    /// The whole seconds in the span.
    pub fn as_secs(self) -> (secs: u128)
        ensures
            secs == self.nanos as int / NANOS_PER_SECOND as int,
    {
        self.nanos / NANOS_PER_SECOND
    }

    /// What is left of this span after `other`, or `None` where `other` is longer.
    pub fn checked_sub(self, other: Duration) -> (left: Option<Duration>)
        ensures
            left == (if self.nanos >= other.nanos {
                Some(Duration { nanos: (self.nanos - other.nanos) as u128 })
            } else {
                None
            }),
    {
        if self.nanos >= other.nanos {
            Some(Duration { nanos: self.nanos - other.nanos })
        } else {
            None
        }
    }
}

} // verus!
