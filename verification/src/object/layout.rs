//! Object size class and pointer alignment.
use vstd::prelude::*;

verus! {

/// Object size class.
#[derive(Debug, Clone, Copy, PartialEq, Eq, Structural)]
pub enum SizeClass {
    /// 32-byte object.
    S32,
    /// 64-byte object.
    S64,
    /// 128-byte object.
    S128,
    /// 256-byte object.
    S256,
    /// 512-byte object.
    S512,
    /// 2 KiB object.
    S2K,
    /// Larger than 2 KiB.
    Large,
}

/// The smallest size class whose objects hold `bytes` of payload.
pub open spec fn size_class_for(bytes: int) -> SizeClass {
    if bytes <= 32 {
        SizeClass::S32
    } else if bytes <= 64 {
        SizeClass::S64
    } else if bytes <= 128 {
        SizeClass::S128
    } else if bytes <= 256 {
        SizeClass::S256
    } else if bytes <= 512 {
        SizeClass::S512
    } else if bytes <= 2048 {
        SizeClass::S2K
    } else {
        SizeClass::Large
    }
}

impl SizeClass {
    /// Pick a size class for a payload size.
    pub fn for_payload(bytes: usize) -> (r: SizeClass)
        ensures
            r == size_class_for(bytes as int),
    {
        match bytes {
            0..=32 => SizeClass::S32,
            33..=64 => SizeClass::S64,
            65..=128 => SizeClass::S128,
            129..=256 => SizeClass::S256,
            257..=512 => SizeClass::S512,
            513..=2048 => SizeClass::S2K,
            _ => SizeClass::Large,
        }
    }
}

/// Pointer alignment requirement.
#[derive(Debug, Clone, Copy, PartialEq, Eq, Structural)]
pub enum Alignment {
    /// 8-byte aligned.
    A8,
    /// 16-byte aligned.
    A16,
    /// 64-byte aligned (cache line).
    A64,
}

/// The number of bytes an alignment stands for.
pub open spec fn alignment_bytes(a: Alignment) -> usize {
    match a {
        Alignment::A8 => 8,
        Alignment::A16 => 16,
        Alignment::A64 => 64,
    }
}

impl Alignment {
    /// Alignment in bytes.
    pub fn bytes(self) -> (r: usize)
        ensures
            r == alignment_bytes(self),
    {
        match self {
            Alignment::A8 => 8,
            Alignment::A16 => 16,
            Alignment::A64 => 64,
        }
    }
}

/// Size classes are monotone: a larger payload never gets a smaller class
/// (classes ordered as declared).
pub proof fn law_size_class_monotone(a: int, b: int)
    requires
        a <= b,
    ensures
        class_rank(size_class_for(a)) <= class_rank(size_class_for(b)),
{
}

/// Position of a size class in declaration order.
pub open spec fn class_rank(c: SizeClass) -> int {
    match c {
        SizeClass::S32 => 0,
        SizeClass::S64 => 1,
        SizeClass::S128 => 2,
        SizeClass::S256 => 3,
        SizeClass::S512 => 4,
        SizeClass::S2K => 5,
        SizeClass::Large => 6,
    }
}

} // verus!
