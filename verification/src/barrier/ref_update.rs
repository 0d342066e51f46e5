//! Reference-update buffer: tracks field updates for relocation remap.
use crate::colored::ColoredPtr;
use crate::error::RuntimeError;
use vstd::prelude::*;

verus! {

/// Capacity of the update buffer.
pub const REF_UPDATE_CAP: usize = 256;

#[derive(Clone, Copy, Debug)]
struct Entry {
    field: usize,
    old: ColoredPtr,
}

/// Field update log.
pub struct RefUpdateBuffer {
    entries: Vec<Option<Entry>>,
    head: usize,
    count: usize,
}

impl View for RefUpdateBuffer {
    type V = Seq<(usize, ColoredPtr)>;

    /// The recorded `(field, old value)` pairs, oldest first.
    closed spec fn view(&self) -> Seq<(usize, ColoredPtr)> {
        Seq::new(
            self.count as nat,
            |i: int|
                (
                    self.entries@[self.head + i].unwrap().field,
                    self.entries@[self.head + i].unwrap().old,
                ),
        )
    }
}

impl RefUpdateBuffer {
    /// Internal consistency: the recorded pairs occupy the first `count`
    /// slots of a buffer of `REF_UPDATE_CAP` slots.
    pub closed spec fn wf(&self) -> bool {
        &&& self.entries@.len() == REF_UPDATE_CAP
        &&& self.head == 0
        &&& self.count <= REF_UPDATE_CAP
        &&& forall|i: int| 0 <= i < self.count ==> self.entries@[i] is Some
    }

    /// Create an empty buffer.
    pub fn new() -> (r: RefUpdateBuffer)
        ensures
            r.wf(),
            r@ == Seq::<(usize, ColoredPtr)>::empty(),
    {
        let mut entries: Vec<Option<Entry>> = Vec::new();
        while entries.len() < REF_UPDATE_CAP
            invariant
                entries@.len() <= REF_UPDATE_CAP,
            decreases REF_UPDATE_CAP - entries@.len(),
        {
            entries.push(None);
        }
        let r = RefUpdateBuffer { entries, head: 0, count: 0 };
        assert(r@ =~= Seq::<(usize, ColoredPtr)>::empty());
        r
    }

    /// Record a field update. Errors if full.
    pub fn record(&mut self, field: usize, prev: ColoredPtr) -> (r: Result<(), RuntimeError>)
        requires
            old(self).wf(),
        ensures
            final(self).wf(),
            old(self)@.len() >= REF_UPDATE_CAP ==> r == Err::<(), RuntimeError>(
                RuntimeError::StackOverflow,
            ) && final(self)@ == old(self)@,
            old(self)@.len() < REF_UPDATE_CAP ==> r is Ok && final(self)@ == old(self)@.push(
                (field, prev),
            ),
    {
        if self.count >= REF_UPDATE_CAP {
            return Err(RuntimeError::StackOverflow);
        }
        let pos = (self.head + self.count) % REF_UPDATE_CAP;
        self.entries.set(pos, Some(Entry { field, old: prev }));
        self.count = self.count + 1;
        assert(self@ =~= old(self)@.push((field, prev)));
        Ok(())
    }

    /// Drain all recorded pairs, oldest first, leaving the buffer empty.
    pub fn drain(&mut self) -> (r: Vec<(usize, ColoredPtr)>)
        requires
            old(self).wf(),
        ensures
            final(self).wf(),
            r@ == old(self)@,
            final(self)@ == Seq::<(usize, ColoredPtr)>::empty(),
    {
        let mut out: Vec<(usize, ColoredPtr)> = Vec::new();
        let ghost snapshot = self@;
        let mut i: usize = 0;
        while i < self.count
            invariant
                self.entries@.len() == REF_UPDATE_CAP,
                self.head == 0,
                self.count <= REF_UPDATE_CAP,
                i <= self.count,
                snapshot.len() == self.count,
                forall|j: int| i <= j < self.count ==> self.entries@[j] is Some,
                forall|j: int|
                    i <= j < self.count ==> (self.entries@[j].unwrap().field,
                    self.entries@[j].unwrap().old) == snapshot[j],
                out@ == snapshot.take(i as int),
            decreases self.count - i,
        {
            let pos = (self.head + i) % REF_UPDATE_CAP;
            let e = self.entries[pos];
            self.entries.set(pos, None);
            if let Some(Entry { field, old }) = e {
                out.push((field, old));
            }
            assert(out@ =~= snapshot.take(i + 1));
            i = i + 1;
        }
        self.head = 0;
        self.count = 0;
        assert(self@ =~= Seq::<(usize, ColoredPtr)>::empty());
        assert(out@ =~= snapshot);
        out
    }
}

impl Default for RefUpdateBuffer {
    fn default() -> (r: RefUpdateBuffer)
        ensures
            r.wf(),
            r@ == Seq::<(usize, ColoredPtr)>::empty(),
    {
        RefUpdateBuffer::new()
    }
}

} // verus!
