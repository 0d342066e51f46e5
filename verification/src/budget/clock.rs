//! Time source: monotonic millisecond instants for GC cycle timing.
use vstd::prelude::*;

verus! {

/// Monotonic millisecond counter. The platform clock that produces the
/// values is outside this library.
#[derive(Debug, Clone, Copy, Default, PartialEq, Eq, Structural)]
pub struct Instant {
    ms: u64,
}

impl Instant {
    /// Sentinel for "no time recorded": 0 ms.
    pub fn zero() -> (r: Instant)
        ensures
            r.spec_ms() == 0,
    {
        Instant { ms: 0 }
    }

    /// The raw millisecond value of an instant.
    pub closed spec fn spec_ms(self) -> u64 {
        self.ms
    }

    /// Construct from a raw millisecond value.
    pub fn from_ms(ms: u64) -> (r: Instant)
        ensures
            r.spec_ms() == ms,
    {
        Instant { ms }
    }

    /// Milliseconds since the epoch (or relative to a reference point).
    pub fn ms(&self) -> (r: u64)
        ensures
            r == self.spec_ms(),
    {
        self.ms
    }

    /// Compute elapsed milliseconds between two instants (zero if `later`
    /// is not later).
    pub fn elapsed_ms(self, later: Instant) -> (r: u64)
        ensures
            r == elapsed_spec(self.spec_ms(), later.spec_ms()),
    {
        later.ms.saturating_sub(self.ms)
    }
}

/// Saturating difference `end - start`.
pub open spec fn elapsed_spec(start: u64, end: u64) -> u64 {
    if end >= start {
        (end - start) as u64
    } else {
        0
    }
}

/// Difference between two instants, in milliseconds.
pub fn duration_ms(start: Instant, end: Instant) -> (r: u64)
    ensures
        r == elapsed_spec(start.spec_ms(), end.spec_ms()),
{
    start.elapsed_ms(end)
}

/// The elapsed time from an instant to itself is zero, and elapsed time is
/// additive along a non-decreasing sequence of instants.
pub proof fn law_elapsed_additive(a: u64, b: u64, c: u64)
    requires
        a <= b <= c,
    ensures
        elapsed_spec(a, a) == 0,
        elapsed_spec(a, c) == elapsed_spec(a, b) + elapsed_spec(b, c),
{
}

} // verus!
