//! Page-level bookkeeping: alignment helpers, page descriptors, page tables.
pub mod align;
pub mod descriptor;
pub mod table;
