//! Mark worklist: LIFO stack of pointers to trace.
use crate::colored::ColoredPtr;
use crate::error::RuntimeError;
use vstd::prelude::*;

verus! {

/// Maximum number of work items.
pub const WORKLIST_CAP: usize = 1024;

/// Mark worklist.
pub struct Worklist {
    items: Vec<Option<ColoredPtr>>,
    top: usize,
}

impl View for Worklist {
    type V = Seq<ColoredPtr>;

    /// The pending items, bottom of the stack first.
    closed spec fn view(&self) -> Seq<ColoredPtr> {
        Seq::new(self.top as nat, |i: int| self.items@[i].unwrap())
    }
}

impl Worklist {
    /// Internal consistency: the items fill the first `top` slots.
    pub closed spec fn wf(&self) -> bool {
        &&& self.items@.len() == WORKLIST_CAP
        &&& self.top <= WORKLIST_CAP
        &&& forall|i: int| 0 <= i < self.top ==> self.items@[i] is Some
    }

    /// Construct an empty worklist.
    pub fn new() -> (r: Worklist)
        ensures
            r.wf(),
            r@ == Seq::<ColoredPtr>::empty(),
    {
        let mut items: Vec<Option<ColoredPtr>> = Vec::new();
        while items.len() < WORKLIST_CAP
            invariant
                items@.len() <= WORKLIST_CAP,
            decreases WORKLIST_CAP - items@.len(),
        {
            items.push(None);
        }
        let r = Worklist { items, top: 0 };
        assert(r@ =~= Seq::<ColoredPtr>::empty());
        r
    }

    /// Push one entry; errors if the worklist is full.
    pub fn push(&mut self, p: ColoredPtr) -> (r: Result<(), RuntimeError>)
        requires
            old(self).wf(),
        ensures
            final(self).wf(),
            old(self)@.len() >= WORKLIST_CAP ==> r == Err::<(), RuntimeError>(
                RuntimeError::StackOverflow,
            ) && final(self)@ == old(self)@,
            old(self)@.len() < WORKLIST_CAP ==> r is Ok && final(self)@ == old(self)@.push(p),
    {
        if self.top >= WORKLIST_CAP {
            return Err(RuntimeError::StackOverflow);
        }
        self.items.set(self.top, Some(p));
        self.top = self.top + 1;
        assert(self@ =~= old(self)@.push(p));
        Ok(())
    }

    /// Pop the most-recently-pushed entry (LIFO).
    pub fn pop(&mut self) -> (r: Option<ColoredPtr>)
        requires
            old(self).wf(),
        ensures
            final(self).wf(),
            old(self)@.len() == 0 ==> r is None && final(self)@ == old(self)@,
            old(self)@.len() > 0 ==> r == Some(old(self)@.last()) && final(self)@ == old(
                self,
            )@.drop_last(),
    {
        if self.top == 0 {
            return None;
        }
        self.top = self.top - 1;
        let item = self.items[self.top];
        self.items.set(self.top, None);
        assert(self@ =~= old(self)@.drop_last());
        item
    }

    /// Current length.
    pub fn len(&self) -> (r: usize)
        requires
            self.wf(),
        ensures
            r == self@.len(),
    {
        self.top
    }

    /// Whether empty.
    pub fn is_empty(&self) -> (r: bool)
        requires
            self.wf(),
        ensures
            r == (self@.len() == 0),
    {
        self.top == 0
    }

    /// Clear all entries.
    pub fn clear(&mut self)
        requires
            old(self).wf(),
        ensures
            final(self).wf(),
            final(self)@ == Seq::<ColoredPtr>::empty(),
    {
        let mut i: usize = 0;
        while i < self.items.len()
            invariant
                self.items@.len() == WORKLIST_CAP,
                i <= WORKLIST_CAP,
            decreases WORKLIST_CAP - i,
        {
            self.items.set(i, None);
            i = i + 1;
        }
        self.top = 0;
        assert(self@ =~= Seq::<ColoredPtr>::empty());
    }
}

impl Default for Worklist {
    fn default() -> (r: Worklist)
        ensures
            r.wf(),
            r@ == Seq::<ColoredPtr>::empty(),
    {
        Worklist::new()
    }
}

/// Stack discipline: popping right after a push returns the pushed item and
/// restores the previous contents.
pub proof fn law_push_pop(s: Seq<ColoredPtr>, p: ColoredPtr)
    ensures
        s.push(p).len() > 0,
        s.push(p).last() == p,
        s.push(p).drop_last() == s,
{
    assert(s.push(p).drop_last() =~= s);
}

} // verus!
