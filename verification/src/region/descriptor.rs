//! Region descriptor: lightweight, copyable per-region metadata.
use crate::region::REGION_SIZE;
use vstd::prelude::*;

verus! {

/// Per-region descriptor.
#[derive(Debug, Clone, Copy, PartialEq, Eq, Structural)]
pub struct RegionDescriptor {
    /// Base address of the region.
    pub base: u64,
    /// Bytes currently allocated.
    pub used: u32,
    /// Region state packed into a u32 (0=free, 1=used, 2=full).
    pub state: u32,
}

impl RegionDescriptor {
    /// Construct a free descriptor.
    pub fn empty(base: u64) -> (r: RegionDescriptor)
        ensures
            r == (RegionDescriptor { base, used: 0, state: 0 }),
    {
        RegionDescriptor { base, used: 0, state: 0 }
    }

    /// Capacity in bytes (always `REGION_SIZE`).
    pub fn capacity(&self) -> (r: u32)
        ensures
            r == REGION_SIZE,
    {
        REGION_SIZE as u32
    }

    /// Free bytes remaining.
    pub fn free(&self) -> (r: u32)
        requires
            self.used <= REGION_SIZE,
        ensures
            r == REGION_SIZE - self.used,
    {
        REGION_SIZE as u32 - self.used
    }
}

} // verus!
