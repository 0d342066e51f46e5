//! Allocation site identifier.
use vstd::prelude::*;

verus! {

/// Site id (a unique u32 per allocation site); 0 is the anonymous site.
#[derive(Debug, Clone, Copy, PartialEq, Eq, Hash, Structural)]
pub struct SiteId(pub u32);

impl SiteId {
    /// The anonymous site id (zero).
    pub fn anon() -> (r: SiteId)
        ensures
            r.0 == 0,
    {
        SiteId(0)
    }
}

} // verus!
