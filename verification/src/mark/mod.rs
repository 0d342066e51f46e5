//! Marking: the phase state machine and the mark worklist.
pub mod phase;
pub mod worklist;
