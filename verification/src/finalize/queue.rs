//! Finalization queue: deferred destructors for objects about to be reclaimed.
//!
//! When the GC determines that an object is unreachable, it does not free
//! the memory immediately. Instead, the object's finalizer (if any) is
//! pushed onto the finalization queue. The runtime drains the queue and
//! runs the destructors out-of-band of the GC cycle.
use crate::colored::ColoredPtr;
use crate::error::RuntimeError;
use vstd::prelude::*;

verus! {

/// Capacity of the finalization queue.
pub const QUEUE_CAP: usize = 128;

/// Opaque finalizer callback id. The actual destructor is dispatched by
/// the runtime; XGC only knows the object pointer.
#[derive(Debug, Clone, Copy, PartialEq, Eq, Structural)]
pub struct FinalizerId(pub u32);

/// One entry in the finalization queue.
#[derive(Debug, Clone, Copy, PartialEq, Eq, Structural)]
pub struct FinalizeEntry {
    pub object: ColoredPtr,
    pub type_id: u16,
    pub id: FinalizerId,
}

/// `x + 1`, wrapping to 0 after `u32::MAX`.
pub open spec fn wrap_inc(x: u32) -> u32 {
    if x == u32::MAX {
        0
    } else {
        (x + 1) as u32
    }
}

/// Fixed-capacity finalization queue (a ring buffer).
pub struct FinalizationQueue {
    entries: Vec<FinalizeEntry>,
    head: usize,
    tail: usize,
    count: usize,
    next_id: u32,
}

impl View for FinalizationQueue {
    type V = Seq<FinalizeEntry>;

    /// The pending entries, oldest first.
    closed spec fn view(&self) -> Seq<FinalizeEntry> {
        Seq::new(
            self.count as nat,
            |i: int| self.entries@[(self.head + i) % (QUEUE_CAP as int)],
        )
    }
}

impl FinalizationQueue {
    /// The id the next enqueued entry receives.
    pub closed spec fn spec_next_id(&self) -> u32 {
        self.next_id
    }

    /// Internal consistency: the pending entries are the `count` slots
    /// from `head` on, cyclically, and `tail` is the slot after them.
    pub closed spec fn wf(&self) -> bool {
        &&& self.entries@.len() == QUEUE_CAP
        &&& self.head < QUEUE_CAP
        &&& self.tail < QUEUE_CAP
        &&& self.count <= QUEUE_CAP
        &&& self.tail as int == (self.head + self.count) % (QUEUE_CAP as int)
    }

    /// Construct an empty queue; the first id handed out is 1.
    pub fn new() -> (r: FinalizationQueue)
        ensures
            r.wf(),
            r@ == Seq::<FinalizeEntry>::empty(),
            r.spec_next_id() == 1,
    {
        let mut entries: Vec<FinalizeEntry> = Vec::new();
        while entries.len() < QUEUE_CAP
            invariant
                entries@.len() <= QUEUE_CAP,
            decreases QUEUE_CAP - entries@.len(),
        {
            entries.push(FinalizeEntry { object: ColoredPtr(0), type_id: 0, id: FinalizerId(0) });
        }
        let r = FinalizationQueue { entries, head: 0, tail: 0, count: 0, next_id: 1 };
        assert(r@ =~= Seq::<FinalizeEntry>::empty());
        r
    }

    /// Enqueue an object for finalization; returns the id given to it.
    ///
    /// # Errors
    ///
    /// Returns `StackOverflow` if the queue is full.
    pub fn enqueue(&mut self, object: ColoredPtr, type_id: u16) -> (r: Result<
        FinalizerId,
        RuntimeError,
    >)
        requires
            old(self).wf(),
        ensures
            final(self).wf(),
            old(self)@.len() >= QUEUE_CAP ==> r == Err::<FinalizerId, RuntimeError>(
                RuntimeError::StackOverflow,
            ) && final(self)@ == old(self)@ && final(self).spec_next_id() == old(
                self).spec_next_id(),
            old(self)@.len() < QUEUE_CAP ==> ({
                let id = FinalizerId(old(self).spec_next_id());
                &&& r == Ok::<FinalizerId, RuntimeError>(id)
                &&& final(self)@ == old(self)@.push(FinalizeEntry { object, type_id, id })
                &&& final(self).spec_next_id() == wrap_inc(old(self).spec_next_id())
            }),
    {
        if self.count >= QUEUE_CAP {
            return Err(RuntimeError::StackOverflow);
        }
        let id = FinalizerId(self.next_id);
        self.next_id = self.next_id.wrapping_add(1);
        let e = FinalizeEntry { object, type_id, id };
        self.entries.set(self.tail, e);
        self.tail = (self.tail + 1) % QUEUE_CAP;
        self.count = self.count + 1;
        proof {
            let h = old(self).head as int;
            let c = old(self).count as int;
            lemma_ring_distinct(h, c, 0);
            assert forall|i: int| 0 <= i < self@.len() implies self@[i] == old(self)@.push(e)[i] by {
                lemma_ring_distinct(h, c, i);
            }
            assert(self@ =~= old(self)@.push(e));
        }
        Ok(id)
    }

    /// Dequeue the oldest entry, if any.
    pub fn dequeue(&mut self) -> (r: Option<FinalizeEntry>)
        requires
            old(self).wf(),
        ensures
            final(self).wf(),
            final(self).spec_next_id() == old(self).spec_next_id(),
            old(self)@.len() == 0 ==> r is None && final(self)@ == old(self)@,
            old(self)@.len() > 0 ==> r == Some(old(self)@[0]) && final(self)@ == old(
                self)@.drop_first(),
    {
        if self.count == 0 {
            return None;
        }
        let entry = self.entries[self.head];
        self.head = (self.head + 1) % QUEUE_CAP;
        self.count = self.count - 1;
        proof {
            let h = old(self).head as int;
            lemma_small(h);
            assert forall|i: int| 0 <= i < self@.len() implies self@[i] == old(self)@.drop_first()[i] by {
                lemma_ring_shift(h, i);
            }
            assert(self@ =~= old(self)@.drop_first());
        }
        Some(entry)
    }

    /// Number of pending finalizers.
    pub fn len(&self) -> (r: usize)
        requires
            self.wf(),
        ensures
            r == self@.len(),
    {
        self.count
    }

    /// Whether the queue is empty.
    pub fn is_empty(&self) -> (r: bool)
        requires
            self.wf(),
        ensures
            r == (self@.len() == 0),
    {
        self.count == 0
    }
}

impl Default for FinalizationQueue {
    fn default() -> (r: FinalizationQueue)
        ensures
            r.wf(),
            r@ == Seq::<FinalizeEntry>::empty(),
            r.spec_next_id() == 1,
    {
        FinalizationQueue::new()
    }
}

/// Indices below the capacity are their own remainder.
proof fn lemma_small(i: int)
    requires
        0 <= i < QUEUE_CAP,
    ensures
        i % (QUEUE_CAP as int) == i,
{
}

/// Distinct positions of a window shorter than the ring fall on distinct
/// slots.
proof fn lemma_ring_distinct(h: int, c: int, i: int)
    requires
        0 <= h < QUEUE_CAP,
        0 <= c < QUEUE_CAP,
        0 <= i,
    ensures
        i < c ==> (h + i) % (QUEUE_CAP as int) != (h + c) % (QUEUE_CAP as int),
        ((h + c) % (QUEUE_CAP as int) + 1) % (QUEUE_CAP as int) == (h + c + 1) % (QUEUE_CAP as int),
{
}

/// Advancing the head by one shifts the window by one position.
proof fn lemma_ring_shift(h: int, i: int)
    requires
        0 <= h < QUEUE_CAP,
        0 <= i < QUEUE_CAP,
    ensures
        ((h + 1) % (QUEUE_CAP as int) + i) % (QUEUE_CAP as int) == (h + (i + 1)) % (QUEUE_CAP as int),
{
}

/// First in, first out: entries leave the queue in the order they
/// entered. Enqueuing `e` and then dequeuing yields the oldest pending
/// entry, or `e` itself when the queue was empty.
pub proof fn law_fifo(q: Seq<FinalizeEntry>, e: FinalizeEntry)
    ensures
        q.push(e)[0] == if q.len() == 0 {
            e
        } else {
            q[0]
        },
        q.len() > 0 ==> q.push(e).drop_first() == q.drop_first().push(e),
{
    if q.len() > 0 {
        assert(q.push(e).drop_first() =~= q.drop_first().push(e));
    }
}

} // verus!
