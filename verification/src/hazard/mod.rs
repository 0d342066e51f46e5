//! Hazard slots: addresses a thread announces it is about to use.
pub mod record;
pub mod slot;
