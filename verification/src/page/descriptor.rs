//! Per-page metadata.
use vstd::prelude::*;

verus! {

/// Page state.
#[derive(Debug, Clone, Copy, PartialEq, Eq, Structural)]
pub enum PageState {
    /// Available for allocation.
    Free,
    /// Has at least one live object.
    Used,
    /// Reserved by the system.
    Reserved,
    /// Has been written since last GC.
    Dirty,
}

/// The page state a byte decodes to (unknown bytes decode to `Free`).
pub open spec fn page_decode(b: u8) -> PageState {
    if b == 1 {
        PageState::Used
    } else if b == 2 {
        PageState::Reserved
    } else if b == 3 {
        PageState::Dirty
    } else {
        PageState::Free
    }
}

impl PageState {
    /// Convert a raw byte to a `PageState` (unknown → Free).
    pub fn from_byte(b: u8) -> (r: PageState)
        ensures
            r == page_decode(b),
    {
        match b {
            0 => PageState::Free,
            1 => PageState::Used,
            2 => PageState::Reserved,
            3 => PageState::Dirty,
            _ => PageState::Free,
        }
    }
}

/// Per-page state and metadata.
#[derive(Debug, Clone, Copy, PartialEq, Eq, Structural)]
pub struct PageDescriptor {
    pub state: PageState,
    pub pin_count: u8,
}

/// Whether a page in state `s` counts as used (`Used` or `Dirty`).
pub open spec fn state_is_used(s: PageState) -> bool {
    s == PageState::Used || s == PageState::Dirty
}

impl PageDescriptor {
    /// Construct a free page.
    pub fn free() -> (r: PageDescriptor)
        ensures
            r == (PageDescriptor { state: PageState::Free, pin_count: 0 }),
    {
        PageDescriptor { state: PageState::Free, pin_count: 0 }
    }

    /// Mark this page as used.
    pub fn mark_used(&mut self)
        ensures
            *final(self) == (PageDescriptor { state: PageState::Used, ..*old(self) }),
    {
        self.state = PageState::Used;
    }

    /// Mark this page as dirty.
    pub fn mark_dirty(&mut self)
        ensures
            *final(self) == (PageDescriptor { state: PageState::Dirty, ..*old(self) }),
    {
        self.state = PageState::Dirty;
    }

    /// Mark this page as free.
    pub fn mark_free(&mut self)
        ensures
            *final(self) == (PageDescriptor { state: PageState::Free, ..*old(self) }),
    {
        self.state = PageState::Free;
    }

    /// Whether the page is free.
    pub fn is_free(&self) -> (r: bool)
        ensures
            r == (self.state == PageState::Free),
    {
        self.state == PageState::Free
    }

    /// Whether the page is used (Used or Dirty both count).
    pub fn is_used(&self) -> (r: bool)
        ensures
            r == state_is_used(self.state),
    {
        match self.state {
            PageState::Used | PageState::Dirty => true,
            _ => false,
        }
    }
}

} // verus!
