//! GC barrier subsystem: load, SATB, ref-update, and mark epoch.
pub mod load;
pub mod mark_state;
pub mod ref_update;
pub mod satb;
