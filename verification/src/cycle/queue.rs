//! Cycle detector worklist: queue of candidate objects to test.
use crate::cycle::stats::CycleCandidate;
use crate::error::RuntimeError;
use vstd::prelude::*;

verus! {

/// Capacity of the candidate queue.
pub const CYCLE_CAP: usize = 64;

/// Bounded FIFO of cycle candidates. Candidates are appended at `count`
/// and taken from `head`; the queue rewinds to the start once drained.
pub struct CycleQueue {
    pub entries: Vec<Option<CycleCandidate>>,
    pub head: usize,
    pub count: usize,
}

impl View for CycleQueue {
    type V = Seq<CycleCandidate>;

    /// The pending candidates, oldest first.
    open spec fn view(&self) -> Seq<CycleCandidate> {
        Seq::new((self.count - self.head) as nat, |i: int| self.entries@[self.head + i].unwrap())
    }
}

impl Default for CycleQueue {
    fn default() -> (r: CycleQueue)
        ensures
            r.wf(),
            r.count == 0,
            r@ == Seq::<CycleCandidate>::empty(),
    {
        CycleQueue::new()
    }
}

impl CycleQueue {
    /// Consistency of the public fields: `CYCLE_CAP` slots, the pending
    /// candidates in slots `[head, count)`, and `head < count` unless the
    /// queue is rewound to empty.
    pub open spec fn wf(&self) -> bool {
        &&& self.entries@.len() == CYCLE_CAP
        &&& self.count <= CYCLE_CAP
        &&& (self.head < self.count || (self.head == 0 && self.count == 0))
        &&& forall|i: int| self.head <= i < self.count ==> self.entries@[i] is Some
    }

    /// Construct an empty queue.
    pub fn new() -> (r: CycleQueue)
        ensures
            r.wf(),
            r.count == 0,
            r@ == Seq::<CycleCandidate>::empty(),
    {
        let mut entries: Vec<Option<CycleCandidate>> = Vec::new();
        while entries.len() < CYCLE_CAP
            invariant
                entries@.len() <= CYCLE_CAP,
            decreases CYCLE_CAP - entries@.len(),
        {
            entries.push(None);
        }
        let r = CycleQueue { entries, head: 0, count: 0 };
        assert(r@ =~= Seq::<CycleCandidate>::empty());
        r
    }

    /// Whether empty.
    pub fn is_empty(&self) -> (r: bool)
        requires
            self.wf(),
        ensures
            r == (self.count == 0),
            r == (self@.len() == 0),
    {
        self.count == 0
    }

    /// Current length: the number of candidates pending.
    pub fn len(&self) -> (r: usize)
        requires
            self.wf(),
        ensures
            r == self@.len(),
    {
        self.count - self.head
    }

    /// Enqueue a candidate; errors once `CYCLE_CAP` slots are used.
    pub fn enqueue(&mut self, c: CycleCandidate) -> (r: Result<(), RuntimeError>)
        requires
            old(self).wf(),
        ensures
            final(self).wf(),
            old(self).count >= CYCLE_CAP ==> r == Err::<(), RuntimeError>(
                RuntimeError::StackOverflow,
            ) && *final(self) == *old(self),
            old(self).count < CYCLE_CAP ==> r is Ok && final(self)@ == old(self)@.push(c)
                && final(self).count == old(self).count + 1,
    {
        if self.count >= CYCLE_CAP {
            return Err(RuntimeError::StackOverflow);
        }
        self.entries.set(self.count, Some(c));
        self.count = self.count + 1;
        assert(self@ =~= old(self)@.push(c));
        Ok(())
    }

    /// Dequeue the oldest candidate.
    pub fn dequeue(&mut self) -> (r: Option<CycleCandidate>)
        requires
            old(self).wf(),
        ensures
            final(self).wf(),
            old(self)@.len() == 0 ==> r is None && *final(self) == *old(self),
            old(self)@.len() > 0 ==> r == Some(old(self)@[0]) && final(self)@ == old(
                self)@.drop_first(),
            old(self)@.len() == 1 ==> final(self).count == 0 && final(self).head == 0,
            old(self)@.len() > 1 ==> final(self).count == old(self).count && final(self).head
                == old(self).head + 1,
    {
        if self.count == 0 {
            return None;
        }
        let item = self.entries[self.head];
        self.entries.set(self.head, None);
        self.head = self.head + 1;
        if self.head == self.count {
            self.head = 0;
            self.count = 0;
        }
        assert(self@ =~= old(self)@.drop_first());
        item
    }
}

/// First in, first out: candidates leave the queue in the order they
/// entered. A dequeue after an enqueue of `c` yields the oldest pending
/// candidate, or `c` itself when the queue was empty, and `c` stays behind
/// the others.
pub proof fn law_cycle_fifo(q: Seq<CycleCandidate>, c: CycleCandidate)
    ensures
        q.push(c)[0] == if q.len() == 0 {
            c
        } else {
            q[0]
        },
        q.len() > 0 ==> q.push(c).drop_first() == q.drop_first().push(c),
{
    if q.len() > 0 {
        assert(q.push(c).drop_first() =~= q.drop_first().push(c));
    }
}

} // verus!
