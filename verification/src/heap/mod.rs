//! The primary GC handle.
pub mod xgc;

pub use xgc::{LiveObject, Xgc};
