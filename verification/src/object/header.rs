//! Object header: metadata stored before each allocated object.
use crate::colored::Color;
use crate::object::layout::{Alignment, SizeClass};
use vstd::prelude::*;

verus! {

/// Magic value stored in every valid header.
pub const HEADER_MAGIC: u32 = 0xDE_C0_ED;

/// Size in bytes of an `ObjectHeader` in memory (two `u32`s and three
/// one-byte enums, padded to the `u32` alignment).
pub const OBJECT_HEADER_SIZE: usize = 12;

/// Per-object header.
#[derive(Debug, Clone, Copy, PartialEq, Eq, Structural)]
pub struct ObjectHeader {
    /// Magic + flags.
    pub magic: u32,
    /// Object id (hash of allocation site or runtime-assigned).
    pub id: u32,
    /// Object size class.
    pub size_class: SizeClass,
    /// Pointer alignment.
    pub align: Alignment,
    /// GC color.
    color: Color,
}

impl ObjectHeader {
    /// The header's magic value.
    pub closed spec fn spec_magic(self) -> u32 {
        self.magic
    }

    /// The header's object id.
    pub closed spec fn spec_id(self) -> u32 {
        self.id
    }

    /// The header's size class.
    pub closed spec fn spec_size_class(self) -> SizeClass {
        self.size_class
    }

    /// The header's alignment.
    pub closed spec fn spec_align(self) -> Alignment {
        self.align
    }

    /// The header's GC color.
    pub closed spec fn spec_color(self) -> Color {
        self.color
    }

    /// Construct a fresh header: valid magic, white.
    pub fn new(id: u32, size_class: SizeClass, align: Alignment) -> (r: ObjectHeader)
        ensures
            r.spec_magic() == HEADER_MAGIC,
            r.spec_id() == id,
            r.spec_size_class() == size_class,
            r.spec_align() == align,
            r.spec_color() == Color::White,
    {
        ObjectHeader { magic: HEADER_MAGIC, id, size_class, align, color: Color::White }
    }

    /// Whether the magic is valid.
    pub fn is_valid(&self) -> (r: bool)
        ensures
            r == (self.spec_magic() == HEADER_MAGIC),
    {
        self.magic == HEADER_MAGIC
    }

    /// Read color.
    pub fn color(&self) -> (r: Color)
        ensures
            r == self.spec_color(),
    {
        self.color
    }

    /// Set color; nothing else changes.
    pub fn set_color(&mut self, c: Color)
        ensures
            final(self).spec_color() == c,
            final(self).spec_magic() == old(self).spec_magic(),
            final(self).spec_id() == old(self).spec_id(),
            final(self).spec_size_class() == old(self).spec_size_class(),
            final(self).spec_align() == old(self).spec_align(),
    {
        self.color = c;
    }
}

} // verus!
