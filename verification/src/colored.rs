//! Colored pointers: an address with a tri-color tag in its low bits.
//!
//! Bits 0..2 of a `ColoredPtr` hold the `Color`, bit 2 the relocated flag;
//! the address occupies the remaining bits.
use vstd::prelude::*;

verus! {

/// Object liveness color.
#[derive(Debug, Clone, Copy, PartialEq, Eq, Structural)]
pub enum Color {
    /// Not yet reached.
    White,
    /// Reached, children not yet visited.
    Grey,
    /// Reached, all children visited.
    Black,
}

impl Color {
    /// Display label.
    pub fn label(self) -> (r: &'static str)
        ensures
            self == Color::White ==> r@ == "white"@,
            self == Color::Grey ==> r@ == "grey"@,
            self == Color::Black ==> r@ == "black"@,
    {
        match self {
            Color::White => "white",
            Color::Grey => "grey",
            Color::Black => "black",
        }
    }
}

/// The tag bits that encode a color.
pub open spec fn color_bits(c: Color) -> u64 {
    match c {
        Color::White => 0,
        Color::Grey => 1,
        Color::Black => 2,
    }
}

/// The color that the low two bits of `v` encode.
pub open spec fn color_of(v: u64) -> Color {
    if v & 3 == 0 {
        Color::White
    } else if v & 3 == 1 {
        Color::Grey
    } else {
        Color::Black
    }
}

/// The address part of a packed pointer: everything but the low three bits.
pub open spec fn addr_of(v: u64) -> u64 {
    v & !7u64
}

/// The address a pointer's `addr()` reports.
pub open spec fn ptr_addr(p: ColoredPtr) -> usize {
    addr_of(p.0) as usize
}

/// The packed value of `ColoredPtr::new(addr, c)`.
pub open spec fn pack(addr: usize, c: Color) -> u64 {
    (addr as u64) | color_bits(c)
}

/// 64-bit colored pointer: low 2 bits = color, bit 2 = relocated.
#[derive(Debug, Clone, Copy, PartialEq, Eq, Hash, Structural)]
pub struct ColoredPtr(pub u64);

impl ColoredPtr {
    /// The null pointer: address 0, white.
    pub fn null() -> (r: ColoredPtr)
        ensures
            r.0 == 0,
    {
        ColoredPtr(0)
    }


    /// Wrap a raw address with a color.
    pub fn new(addr: usize, color: Color) -> (r: ColoredPtr)
        ensures
            r.0 == pack(addr, color),
    {
        let color_bits: u64 = match color {
            Color::White => 0,
            Color::Grey => 1,
            Color::Black => 2,
        };
        ColoredPtr((addr as u64) | color_bits)
    }

    /// Raw address.
    pub fn addr(self) -> (r: usize)
        ensures
            r == ptr_addr(self),
    {
        (self.0 & !0b111u64) as usize
    }

    /// Color tag.
    pub fn color(self) -> (r: Color)
        ensures
            r == color_of(self.0),
    {
        let low: u64 = self.0 & 0b11;
        if low == 0 {
            Color::White
        } else if low == 1 {
            Color::Grey
        } else {
            Color::Black
        }
    }

    /// Whether the object has been relocated.
    pub fn is_relocated(self) -> (r: bool)
        ensures
            r == (self.0 & 4 != 0),
    {
        (self.0 & 0b100) != 0
    }

    /// Mark as relocated.
    pub fn mark_relocated(&mut self)
        ensures
            final(self).0 == old(self).0 | 4,
    {
        self.0 = self.0 | 0b100;
    }
}

/// A pointer built from a 4-byte-aligned address reads back the color it
/// was built with.
pub proof fn law_color_roundtrip(addr: usize, c: Color)
    requires
        addr % 4 == 0,
    ensures
        color_of(pack(addr, c)) == c,
{
    let a = addr as u64;
    let b = color_bits(c);
    assert((a | b) & 3 == b) by (bit_vector)
        requires
            a % 4 == 0,
            b <= 2,
    ;
}

/// A pointer built from an 8-byte-aligned address reads back that address,
/// and is not flagged as relocated.
pub proof fn law_addr_roundtrip(addr: usize, c: Color)
    requires
        addr % 8 == 0,
    ensures
        addr_of(pack(addr, c)) == addr as u64,
        pack(addr, c) & 4 == 0,
{
    let a = addr as u64;
    let b = color_bits(c);
    assert((a | b) & !7u64 == a && (a | b) & 4 == 0) by (bit_vector)
        requires
            a % 8 == 0,
            b <= 2,
    ;
}

/// Marking a pointer as relocated sets the relocated flag, keeps its address
/// and color, and doing it twice is the same as doing it once.
pub proof fn law_mark_relocated(v: u64)
    ensures
        (v | 4) & 4 != 0,
        addr_of(v | 4) == addr_of(v),
        color_of(v | 4) == color_of(v),
        (v | 4) | 4 == v | 4,
{
    assert((v | 4) & 4 != 0 && (v | 4) & !7u64 == v & !7u64 && (v | 4) & 3 == v & 3 && (v | 4)
        | 4 == v | 4) by (bit_vector);
}

} // verus!
