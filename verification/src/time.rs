//! Points in time and spans between them. The clock itself is the
//! caller's: every function that depends on the time takes it as an
//! argument.

use vstd::prelude::*;

verus! {

/// A span of time in nanoseconds.
#[derive(Debug, Clone, Copy, PartialEq, Eq, Structural)]
pub struct Duration {
    pub nanos: u64,
}

/// A point in time, in nanoseconds since the caller's clock started.
#[derive(Debug, Clone, Copy, PartialEq, Eq, Structural)]
pub struct Instant {
    pub nanos: u64,
}

impl Duration {
    /// A span of `millis` milliseconds.
    pub fn from_millis(millis: u64) -> (d: Duration)
        requires
            millis * 1_000_000 <= u64::MAX,
        ensures
            d.nanos == millis * 1_000_000,
    {
        Duration { nanos: millis * 1_000_000 }
    }

    /// A span of `secs` seconds.
    pub fn from_secs(secs: u64) -> (d: Duration)
        requires
            secs * 1_000_000_000 <= u64::MAX,
        ensures
            d.nanos == secs * 1_000_000_000,
    {
        Duration { nanos: secs * 1_000_000_000 }
    }
}

/// The time from `earlier` to `later`, in nanoseconds: none where `later`
/// is not later.
pub open spec fn nanos_between(earlier: Instant, later: Instant) -> int {
    if later.nanos >= earlier.nanos {
        later.nanos - earlier.nanos
    } else {
        0
    }
}

/// The point `span` after `start`, or the last one that the clock can show.
pub open spec fn instant_after(start: Instant, span: Duration) -> Instant {
    if start.nanos + span.nanos <= u64::MAX {
        Instant { nanos: (start.nanos + span.nanos) as u64 }
    } else {
        Instant { nanos: u64::MAX }
    }
}

impl Instant {
    /// The time since `earlier`; zero where `earlier` is later.
    pub fn duration_since(self, earlier: Instant) -> (d: Duration)
        ensures
            d.nanos == nanos_between(earlier, self),
    {
        if self.nanos >= earlier.nanos {
            Duration { nanos: self.nanos - earlier.nanos }
        } else {
            Duration { nanos: 0 }
        }
    }

    /// The point `span` later, held at the end of the clock.
    pub fn after(self, span: Duration) -> (at: Instant)
        ensures
            at == instant_after(self, span),
    {
        if self.nanos <= u64::MAX - span.nanos {
            Instant { nanos: self.nanos + span.nanos }
        } else {
            Instant { nanos: u64::MAX }
        }
    }
}

/// The time between two points is what leads from the earlier to the later,
/// and never negative; the point after a span is that much later, or the end
/// of the clock where there is no such point.
pub proof fn law_spans_lead_from_point_to_point(start: Instant, end: Instant, span: Duration)
    ensures
        nanos_between(start, end) >= 0,
        start.nanos <= end.nanos ==> start.nanos + nanos_between(start, end) == end.nanos,
        end.nanos <= start.nanos ==> nanos_between(start, end) == 0,
        instant_after(start, span).nanos >= start.nanos,
        instant_after(start, span).nanos < u64::MAX ==> nanos_between(
            start,
            instant_after(start, span),
        ) == span.nanos,
        instant_after(start, span).nanos == u64::MAX ==> start.nanos + span.nanos >= u64::MAX,
{
}

} // verus!
