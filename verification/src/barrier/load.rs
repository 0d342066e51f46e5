//! Load barrier: enforces a happens-before edge on reads of colored pointers.
use crate::colored::ColoredPtr;
use vstd::prelude::*;

verus! {

/// Barrier trait for pointer reads.
pub trait LoadBarrier {
    /// Read pointer with barrier.
    fn load(&self) -> ColoredPtr;
}

/// Compiler-only acquire fence: `core::sync::atomic::compiler_fence` with
/// acquire ordering. It changes no value, so nothing is claimed of it.
#[verifier::external_body]
fn acquire_fence() {
    core::sync::atomic::compiler_fence(core::sync::atomic::Ordering::Acquire);
}

impl LoadBarrier for ColoredPtr {
    fn load(&self) -> (r: ColoredPtr)
        ensures
            r == *self,
    {
        acquire_fence();
        *self
    }
}

} // verus!
