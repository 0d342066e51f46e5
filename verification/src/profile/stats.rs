//! Per-site allocation stats.
use vstd::prelude::*;

verus! {

/// Stats for one allocation site.
#[derive(Debug, Clone, Copy, PartialEq, Eq, Structural)]
pub struct SiteStats {
    /// Number of allocations.
    pub alloc_count: u64,
    /// Total bytes allocated.
    pub alloc_bytes: u64,
    /// Total bytes freed.
    pub free_bytes: u64,
}

/// The stats after one allocation of `bytes`.
pub open spec fn after_alloc(s: SiteStats, bytes: u64) -> SiteStats {
    SiteStats {
        alloc_count: (s.alloc_count + 1) as u64,
        alloc_bytes: (s.alloc_bytes + bytes) as u64,
        free_bytes: s.free_bytes,
    }
}

/// The stats after one free of `bytes`.
pub open spec fn after_free(s: SiteStats, bytes: u64) -> SiteStats {
    SiteStats { free_bytes: (s.free_bytes + bytes) as u64, ..s }
}

/// Live bytes: allocated minus freed, zero if more was freed.
pub open spec fn live_spec(s: SiteStats) -> u64 {
    if s.alloc_bytes >= s.free_bytes {
        (s.alloc_bytes - s.free_bytes) as u64
    } else {
        0
    }
}

impl SiteStats {
    /// Construct zeroed stats.
    pub fn new() -> (r: SiteStats)
        ensures
            r == (SiteStats { alloc_count: 0, alloc_bytes: 0, free_bytes: 0 }),
    {
        SiteStats { alloc_count: 0, alloc_bytes: 0, free_bytes: 0 }
    }

    /// Record one allocation of `bytes`.
    pub fn record_alloc(&mut self, bytes: u64)
        requires
            old(self).alloc_count < u64::MAX,
            old(self).alloc_bytes + bytes <= u64::MAX,
        ensures
            *final(self) == after_alloc(*old(self), bytes),
    {
        self.alloc_count = self.alloc_count + 1;
        self.alloc_bytes = self.alloc_bytes + bytes;
    }

    /// Record one free of `bytes`.
    pub fn record_free(&mut self, bytes: u64)
        requires
            old(self).free_bytes + bytes <= u64::MAX,
        ensures
            *final(self) == after_free(*old(self), bytes),
    {
        self.free_bytes = self.free_bytes + bytes;
    }

    /// Live bytes (alloc - free), zero if more was freed than allocated.
    pub fn live_bytes(&self) -> (r: u64)
        ensures
            r == live_spec(*self),
    {
        self.alloc_bytes.saturating_sub(self.free_bytes)
    }
}

impl Default for SiteStats {
    fn default() -> (r: SiteStats)
        ensures
            r == (SiteStats { alloc_count: 0, alloc_bytes: 0, free_bytes: 0 }),
    {
        SiteStats::new()
    }
}

/// Per-site entry for the profiler (alias for `SiteStats`).
pub type SiteEntry = SiteStats;

/// Live bytes account for every allocation and free: recording an
/// allocation of `a` bytes and then a free of `a` bytes leaves the live
/// bytes as they were.
pub proof fn law_alloc_free_live(s: SiteStats, a: u64)
    requires
        s.alloc_count < u64::MAX,
        s.alloc_bytes + a <= u64::MAX,
        s.free_bytes + a <= u64::MAX,
    ensures
        live_spec(after_free(after_alloc(s, a), a)) == live_spec(s),
{
}

} // verus!
