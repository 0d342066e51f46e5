//! Slab size: power-of-two fixed allocation size.
use vstd::prelude::*;

verus! {

/// A slab size descriptor: the slot size in bytes.
#[derive(Debug, Clone, Copy, PartialEq, Eq, Structural)]
pub struct SlabSize(pub u32);

/// The smallest standard slab size that fits `bytes`.
pub open spec fn size_for(bytes: int) -> u32 {
    if bytes <= 16 {
        16
    } else if bytes <= 32 {
        32
    } else if bytes <= 64 {
        64
    } else if bytes <= 128 {
        128
    } else if bytes <= 256 {
        256
    } else {
        512
    }
}

impl SlabSize {
    /// The 16-byte slab size.
    pub fn s16() -> (r: SlabSize)
        ensures
            r.0 == 16,
    {
        SlabSize(16)
    }

    /// The 32-byte slab size.
    pub fn s32() -> (r: SlabSize)
        ensures
            r.0 == 32,
    {
        SlabSize(32)
    }

    /// The 64-byte slab size.
    pub fn s64() -> (r: SlabSize)
        ensures
            r.0 == 64,
    {
        SlabSize(64)
    }

    /// The 128-byte slab size.
    pub fn s128() -> (r: SlabSize)
        ensures
            r.0 == 128,
    {
        SlabSize(128)
    }

    /// The 256-byte slab size.
    pub fn s256() -> (r: SlabSize)
        ensures
            r.0 == 256,
    {
        SlabSize(256)
    }

    /// The 512-byte slab size.
    pub fn s512() -> (r: SlabSize)
        ensures
            r.0 == 512,
    {
        SlabSize(512)
    }

    /// All slab sizes, smallest first.
    pub fn all() -> (r: [SlabSize; 6])
        ensures
            r@ == seq![SlabSize(16), SlabSize(32), SlabSize(64), SlabSize(128), SlabSize(256), SlabSize(512)],
    {
        [SlabSize(16), SlabSize(32), SlabSize(64), SlabSize(128), SlabSize(256), SlabSize(512)]
    }

    /// Pick the smallest standard slab that fits `bytes` (512 for
    /// anything larger).
    pub fn for_bytes(bytes: usize) -> (r: SlabSize)
        ensures
            r.0 == size_for(bytes as int),
            standard_size(r.0 as int),
            bytes <= 512 ==> bytes <= r.0,
            forall|t: int| standard_size(t) && bytes <= t ==> r.0 <= t,
            bytes > 512 ==> r.0 == 512,
    {
        if bytes <= 16 {
            SlabSize(16)
        } else if bytes <= 32 {
            SlabSize(32)
        } else if bytes <= 64 {
            SlabSize(64)
        } else if bytes <= 128 {
            SlabSize(128)
        } else if bytes <= 256 {
            SlabSize(256)
        } else {
            SlabSize(512)
        }
    }

    /// Number of slots that fit in a 4 KiB page.
    pub fn slots_per_page(self) -> (r: u32)
        requires
            self.0 > 0,
        ensures
            r == 4096int / (self.0 as int),
    {
        4096 / self.0
    }
}

/// One of the standard slab sizes: 16, 32, 64, 128, 256 or 512 bytes.
pub open spec fn standard_size(s: int) -> bool {
    s == 16 || s == 32 || s == 64 || s == 128 || s == 256 || s == 512
}

/// The slab size chosen for an object of at most 512 bytes is the
/// smallest standard size that fits it: it is a standard size, the object
/// fits, and no smaller standard size would.
pub proof fn law_size_fits(bytes: int)
    requires
        bytes <= 512,
    ensures
        bytes <= size_for(bytes),
        standard_size(size_for(bytes) as int),
        size_for(bytes) == 16 || size_for(bytes) == 32 || size_for(bytes) == 64 || size_for(bytes)
            == 128 || size_for(bytes) == 256 || size_for(bytes) == 512,
        forall|t: int| standard_size(t) && bytes <= t ==> size_for(bytes) <= t,
{
}

} // verus!
