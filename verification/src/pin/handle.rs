//! Pin handle: marker that prevents the GC from moving the underlying object.
//!
//! Pinned objects are still scanned for references (mark phase) but are
//! skipped during relocation. Useful for FFI handles, memory-mapped I/O
//! buffers, and OS resource wrappers.
use crate::colored::ColoredPtr;
use vstd::prelude::*;

verus! {

/// Opaque pin handle; id 0 is the invalid handle.
#[derive(Debug, Clone, Copy, PartialEq, Eq, Hash, Structural)]
pub struct PinHandle {
    id: u32,
}

impl PinHandle {
    /// The invalid handle (id 0).
    pub fn invalid() -> (r: PinHandle)
        ensures
            r.spec_id() == 0,
    {
        PinHandle { id: 0 }
    }

    /// The handle's numeric id.
    pub closed spec fn spec_id(self) -> u32 {
        self.id
    }

    /// Whether this handle is valid.
    pub fn is_valid(&self) -> (r: bool)
        ensures
            r == (self.spec_id() != 0),
    {
        self.id != 0
    }

    /// Internal numeric id.
    pub fn id(self) -> (r: u32)
        ensures
            r == self.spec_id(),
    {
        self.id
    }
}

/// Build a PinHandle from a raw id.
pub fn handle_from_id(id: u32) -> (r: PinHandle)
    ensures
        r.spec_id() == id,
{
    PinHandle { id }
}

/// Reference to a pinned object.
#[derive(Debug, Clone, Copy, PartialEq, Eq, Structural)]
pub struct PinnedObject {
    pub ptr: ColoredPtr,
    pub handle: PinHandle,
}

impl PinnedObject {
    /// Construct a pinned object reference.
    pub fn new(ptr: ColoredPtr, handle: PinHandle) -> (r: PinnedObject)
        ensures
            r == (PinnedObject { ptr, handle }),
    {
        PinnedObject { ptr, handle }
    }
}

} // verus!
