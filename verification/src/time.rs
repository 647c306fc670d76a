//! Spans of time, to the nanosecond.
use vstd::prelude::*;

verus! {

/// A span of time, or a point of a clock counted from its start.
#[derive(Clone, Copy, Debug, PartialEq, Eq, Structural)]
pub struct Span {
    pub nanos: u128,
}

impl Span {
    /// `secs` seconds.
    pub fn from_secs(secs: u64) -> (r: Span)
        ensures
            r.nanos == secs * 1_000_000_000,
    {
        Span { nanos: secs as u128 * 1_000_000_000 }
    }

    /// `millis` milliseconds.
    pub fn from_millis(millis: u64) -> (r: Span)
        ensures
            r.nanos == millis * 1_000_000,
    {
        Span { nanos: millis as u128 * 1_000_000 }
    }

    /// The whole seconds of a span, the most that a `u64` holds where there are
    /// more.
    pub fn as_secs(self) -> (r: u64)
        ensures
            r == if self.nanos / 1_000_000_000 <= u64::MAX {
                (self.nanos / 1_000_000_000) as int
            } else {
                u64::MAX as int
            },
    {
        let secs: u128 = self.nanos / 1_000_000_000;
        if secs <= u64::MAX as u128 {
            secs as u64
        } else {
            u64::MAX
        }
    }

    /// The span without `other`, nothing where `other` is longer.
    pub fn saturating_sub(self, other: Span) -> (r: Span)
        ensures
            r.nanos == if self.nanos >= other.nanos {
                self.nanos - other.nanos
            } else {
                0
            },
    {
        if self.nanos >= other.nanos {
            Span { nanos: self.nanos - other.nanos }
        } else {
            Span { nanos: 0 }
        }
    }

    /// The shorter of two spans.
    pub fn min(self, other: Span) -> (r: Span)
        ensures
            r.nanos == if self.nanos <= other.nanos {
                self.nanos
            } else {
                other.nanos
            },
    {
        if self.nanos <= other.nanos {
            self
        } else {
            other
        }
    }
}

} // verus!
