//! Adaptive heuristics: collection triggers.
pub mod trigger;

pub use trigger::Trigger;
