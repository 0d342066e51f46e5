//! Errors reported by the collector.
use vstd::prelude::*;

verus! {

/// Error conditions the collector can report.
#[derive(Debug, Clone, Copy, PartialEq, Eq, Structural)]
pub enum RuntimeError {
    /// A fixed-capacity table or the system allocator ran out of room.
    OutOfMemory,
    /// `init` was called on an already initialized collector.
    AlreadyInitialized,
    /// `shutdown` was called on a collector that was not initialized.
    NotInitialized,
    /// A mark cycle was requested while the collector was not idle.
    AlreadyMarking,
    /// A bounded buffer or stack is full.
    StackOverflow,
    /// A weak reference could not be upgraded: its target is gone.
    NoParkingPermit,
}

} // verus!
