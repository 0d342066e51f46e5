//! Per-worker double-ended task queue (Chase-Lev style, simplified).
//!
//! Each worker has a local deque. The worker pushes/pops from one end
//! (LIFO for cache locality) and other workers steal from the other end
//! (FIFO for fairness).
use crate::colored::ColoredPtr;
use vstd::prelude::*;

verus! {

/// Capacity of a deque.
pub const DEQUE_CAP: usize = 32;

/// Per-worker deque.
pub struct WorkDeque {
    buf: Vec<Option<ColoredPtr>>,
    /// Bottom: index of the next slot to push (LIFO end).
    bottom: usize,
    /// Top: index of the next slot to steal (FIFO end).
    top: usize,
}

impl View for WorkDeque {
    type V = Seq<ColoredPtr>;

    /// The pending items, oldest (steal end) first.
    closed spec fn view(&self) -> Seq<ColoredPtr> {
        Seq::new((self.bottom - self.top) as nat, |i: int| self.buf@[self.top + i].unwrap())
    }
}

impl WorkDeque {
    /// Internal consistency: the items occupy slots `[top, bottom)`.
    pub closed spec fn wf(&self) -> bool {
        &&& self.buf@.len() == DEQUE_CAP
        &&& self.top <= self.bottom <= DEQUE_CAP
        &&& forall|i: int| self.top <= i < self.bottom ==> self.buf@[i] is Some
    }

    /// Construct an empty deque.
    pub fn new() -> (r: WorkDeque)
        ensures
            r.wf(),
            r@ == Seq::<ColoredPtr>::empty(),
    {
        let mut buf: Vec<Option<ColoredPtr>> = Vec::new();
        while buf.len() < DEQUE_CAP
            invariant
                buf@.len() <= DEQUE_CAP,
            decreases DEQUE_CAP - buf@.len(),
        {
            buf.push(None);
        }
        let r = WorkDeque { buf, bottom: 0, top: 0 };
        assert(r@ =~= Seq::<ColoredPtr>::empty());
        r
    }

    /// Local push (LIFO). Returns false if full (`DEQUE_CAP` items); slots
    /// freed by steals are reused.
    pub fn push(&mut self, p: ColoredPtr) -> (r: bool)
        requires
            old(self).wf(),
        ensures
            final(self).wf(),
            r == (old(self)@.len() < DEQUE_CAP),
            r ==> final(self)@ == old(self)@.push(p),
            !r ==> final(self)@ == old(self)@,
    {
        if self.bottom >= DEQUE_CAP {
            if self.top == 0 {
                return false;
            }
            self.compact();
        }
        self.buf.set(self.bottom, Some(p));
        self.bottom = self.bottom + 1;
        assert(self@ =~= old(self)@.push(p));
        true
    }

    /// Move the items down to the start of the buffer, keeping their order.
    fn compact(&mut self)
        requires
            old(self).wf(),
        ensures
            final(self).wf(),
            final(self)@ == old(self)@,
            final(self).top == 0,
    {
        let n = self.bottom - self.top;
        let top = self.top;
        let ghost ob = self.buf@;
        let mut i: usize = 0;
        while i < n
            invariant
                self.buf@.len() == DEQUE_CAP,
                self.top == top,
                self.bottom == top + n,
                top + n <= DEQUE_CAP,
                ob.len() == DEQUE_CAP,
                i <= n,
                forall|j: int| 0 <= j < i ==> self.buf@[j] == ob[top + j],
                forall|k: int| top + i <= k < top + n ==> self.buf@[k] == ob[k],
                forall|k: int| top <= k < top + n ==> ob[k] is Some,
            decreases n - i,
        {
            let v = self.buf[top + i];
            self.buf.set(i, v);
            i = i + 1;
        }
        self.top = 0;
        self.bottom = n;
        assert(self@ =~= old(self)@);
    }

    /// Local pop (LIFO). Returns the most recently pushed item.
    pub fn pop(&mut self) -> (r: Option<ColoredPtr>)
        requires
            old(self).wf(),
        ensures
            final(self).wf(),
            old(self)@.len() == 0 ==> r is None && final(self)@ == old(self)@,
            old(self)@.len() > 0 ==> r == Some(old(self)@.last()) && final(self)@ == old(
                self,
            )@.drop_last(),
    {
        if self.bottom == 0 || self.bottom <= self.top {
            return None;
        }
        self.bottom = self.bottom - 1;
        let item = self.buf[self.bottom];
        self.buf.set(self.bottom, None);
        if self.top > self.bottom {
            self.top = self.bottom;
        }
        assert(self@ =~= old(self)@.drop_last());
        item
    }

    /// Remote steal (FIFO). Returns the oldest item.
    pub fn steal(&mut self) -> (r: Option<ColoredPtr>)
        requires
            old(self).wf(),
        ensures
            final(self).wf(),
            old(self)@.len() == 0 ==> r is None && final(self)@ == old(self)@,
            old(self)@.len() > 0 ==> r == Some(old(self)@[0]) && final(self)@ == old(
                self,
            )@.drop_first(),
    {
        if self.top >= self.bottom {
            return None;
        }
        let item = self.buf[self.top];
        self.buf.set(self.top, None);
        self.top = self.top + 1;
        if self.top >= self.bottom {
            self.top = self.bottom;
        }
        assert(self@ =~= old(self)@.drop_first());
        item
    }

    /// Length of the deque.
    pub fn len(&self) -> (r: usize)
        requires
            self.wf(),
        ensures
            r == self@.len(),
            r <= DEQUE_CAP,
    {
        self.bottom.saturating_sub(self.top)
    }

    /// Whether the deque is empty.
    pub fn is_empty(&self) -> (r: bool)
        requires
            self.wf(),
        ensures
            r == (self@.len() == 0),
    {
        self.len() == 0
    }

    /// Capacity.
    pub fn capacity(&self) -> (r: usize)
        ensures
            r == DEQUE_CAP,
    {
        DEQUE_CAP
    }
}

impl Default for WorkDeque {
    fn default() -> (r: WorkDeque)
        ensures
            r.wf(),
            r@ == Seq::<ColoredPtr>::empty(),
    {
        WorkDeque::new()
    }
}

/// The owner's end is last-in first-out and the thieves' end first-in
/// first-out: a pop right after a push returns the pushed item and restores
/// the previous contents, while a push never changes what a steal takes next
/// (the oldest item, or the pushed one on an empty deque).
pub proof fn law_lifo_fifo(s: Seq<ColoredPtr>, p: ColoredPtr)
    ensures
        s.push(p).last() == p,
        s.push(p).drop_last() == s,
        s.len() > 0 ==> s.push(p)[0] == s[0],
        s.len() == 0 ==> s.push(p)[0] == p,
{
    assert(s.push(p).drop_last() =~= s);
}

} // verus!
