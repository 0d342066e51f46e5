//! Region subsystem: region descriptors, allocation table, mark bitmap.
pub mod bitmap;
pub mod descriptor;
pub mod table;

use vstd::prelude::*;

verus! {

/// Fixed size of a single region in bytes (1 MiB).
pub const REGION_SIZE: usize = 0x10_0000;

/// Region metadata. Pinned (never moved by GC). `start` is the address of
/// the region's memory, 0 while the region is unbound.
#[derive(Debug, Clone, Copy, PartialEq, Eq, Structural)]
pub struct Region {
    pub start: usize,
    pub used: usize,
    pub capacity: usize,
    pub occupied: bool,
}

impl Region {
    /// The unbound placeholder region.
    pub open spec fn unbound_spec() -> Region {
        Region { start: 0, used: 0, capacity: REGION_SIZE, occupied: false }
    }

    /// Create an unbound region placeholder.
    pub fn unbound() -> (r: Region)
        ensures
            r == Region::unbound_spec(),
    {
        Region { start: 0, used: 0, capacity: REGION_SIZE, occupied: false }
    }

    /// Whether the region can accept new allocations: bound and not occupied.
    pub fn is_available(&self) -> (r: bool)
        ensures
            r == (!self.occupied && self.start != 0),
    {
        !self.occupied && self.start != 0
    }

    /// Remaining free bytes within this region (zero if over-full).
    pub fn free(&self) -> (r: usize)
        ensures
            r == (if self.capacity >= self.used {
                self.capacity - self.used
            } else {
                0
            }),
    {
        self.capacity.saturating_sub(self.used)
    }
}

} // verus!
