//! Diagnostics: heap dumps and cumulative statistics.
pub mod dump;
pub mod stats;
