//! SATB buffer: records pre-write values for an incremental snapshot.
use crate::colored::ColoredPtr;
use crate::error::RuntimeError;
use vstd::prelude::*;

verus! {

/// Capacity of the snapshot buffer.
pub const SATB_CAP: usize = 256;

/// Snapshot-at-the-beginning buffer.
pub struct SatbBuffer {
    entries: Vec<Option<ColoredPtr>>,
    head: usize,
    count: usize,
}

impl View for SatbBuffer {
    type V = Seq<ColoredPtr>;

    /// The recorded values, oldest first.
    closed spec fn view(&self) -> Seq<ColoredPtr> {
        Seq::new(self.count as nat, |i: int| self.entries@[self.head + i].unwrap())
    }
}

impl SatbBuffer {
    /// Internal consistency: the recorded values occupy the first `count`
    /// slots of a buffer of `SATB_CAP` slots.
    pub closed spec fn wf(&self) -> bool {
        &&& self.entries@.len() == SATB_CAP
        &&& self.head == 0
        &&& self.count <= SATB_CAP
        &&& forall|i: int| 0 <= i < self.count ==> self.entries@[i] is Some
    }

    /// Create an empty buffer.
    pub fn new() -> (r: SatbBuffer)
        ensures
            r.wf(),
            r@ == Seq::<ColoredPtr>::empty(),
    {
        let mut entries: Vec<Option<ColoredPtr>> = Vec::new();
        while entries.len() < SATB_CAP
            invariant
                entries@.len() <= SATB_CAP,
            decreases SATB_CAP - entries@.len(),
        {
            entries.push(None);
        }
        let r = SatbBuffer { entries, head: 0, count: 0 };
        assert(r@ =~= Seq::<ColoredPtr>::empty());
        r
    }

    /// Record a pre-write value. Errors if full.
    pub fn record(&mut self, p: ColoredPtr) -> (r: Result<(), RuntimeError>)
        requires
            old(self).wf(),
        ensures
            final(self).wf(),
            old(self)@.len() >= SATB_CAP ==> r == Err::<(), RuntimeError>(
                RuntimeError::StackOverflow,
            ) && final(self)@ == old(self)@,
            old(self)@.len() < SATB_CAP ==> r is Ok && final(self)@ == old(self)@.push(p),
    {
        if self.count >= SATB_CAP {
            return Err(RuntimeError::StackOverflow);
        }
        let pos = (self.head + self.count) % SATB_CAP;
        self.entries.set(pos, Some(p));
        self.count = self.count + 1;
        assert(self@ =~= old(self)@.push(p));
        Ok(())
    }

    /// Drain all recorded values, oldest first, leaving the buffer empty.
    pub fn drain(&mut self) -> (r: Vec<ColoredPtr>)
        requires
            old(self).wf(),
        ensures
            final(self).wf(),
            r@ == old(self)@,
            final(self)@ == Seq::<ColoredPtr>::empty(),
    {
        let mut out: Vec<ColoredPtr> = Vec::new();
        let ghost snapshot = self@;
        let mut i: usize = 0;
        while i < self.count
            invariant
                self.entries@.len() == SATB_CAP,
                self.head == 0,
                self.count <= SATB_CAP,
                i <= self.count,
                snapshot.len() == self.count,
                forall|j: int| i <= j < self.count ==> self.entries@[j] is Some,
                forall|j: int| i <= j < self.count ==> self.entries@[j].unwrap() == snapshot[j],
                out@ == snapshot.take(i as int),
            decreases self.count - i,
        {
            let pos = (self.head + i) % SATB_CAP;
            let e = self.entries[pos];
            self.entries.set(pos, None);
            if let Some(p) = e {
                out.push(p);
            }
            assert(out@ =~= snapshot.take(i + 1));
            i = i + 1;
        }
        self.head = 0;
        self.count = 0;
        assert(self@ =~= Seq::<ColoredPtr>::empty());
        assert(out@ =~= snapshot);
        out
    }

    /// Whether the buffer is empty.
    pub fn is_empty(&self) -> (r: bool)
        requires
            self.wf(),
        ensures
            r == (self@.len() == 0),
    {
        self.count == 0
    }
}

impl Default for SatbBuffer {
    fn default() -> (r: SatbBuffer)
        ensures
            r.wf(),
            r@ == Seq::<ColoredPtr>::empty(),
    {
        SatbBuffer::new()
    }
}

} // verus!
