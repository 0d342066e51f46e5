//! Object metadata: headers, size classes, alignment, and tracing traits.
pub mod header;
pub mod layout;
pub mod traits;

pub use header::ObjectHeader;
