//! Relocation: tracks old→new pointer remapping.
use crate::colored::{ColoredPtr, ptr_addr};
use crate::error::RuntimeError;
use vstd::prelude::*;

verus! {

/// Capacity of the relocation map.
pub const RELOC_CAP: usize = 1024;

/// Statistics from a relocation pass.
#[derive(Debug, Clone, Copy, Default, PartialEq, Eq, Structural)]
pub struct RelocStats {
    /// Number of objects moved.
    pub moved: u32,
    /// Number skipped (pinned, etc.).
    pub skipped: u32,
}

/// Relocator: records old→new mappings.
pub struct Relocator {
    mappings: Vec<(ColoredPtr, ColoredPtr)>,
    count: usize,
    active: bool,
    skipped: u32,
}

/// Where `ptr` is forwarded by the moves from position `from` on: the new
/// location of the first move whose old address is `ptr`'s address, or
/// `ptr` itself when there is none.
pub open spec fn forward_from(moves: Seq<(ColoredPtr, ColoredPtr)>, ptr: ColoredPtr, from: int) -> ColoredPtr
    decreases moves.len() - from,
{
    if from < 0 || from >= moves.len() {
        ptr
    } else if ptr_addr(moves[from].0) == ptr_addr(ptr) {
        moves[from].1
    } else {
        forward_from(moves, ptr, from + 1)
    }
}

/// Where a relocator with the given moves and activity forwards `ptr`.
pub open spec fn forward_spec(moves: Seq<(ColoredPtr, ColoredPtr)>, active: bool, ptr: ColoredPtr) -> ColoredPtr {
    if !active {
        ptr
    } else {
        forward_from(moves, ptr, 0)
    }
}

impl Relocator {
    /// The recorded `(old, new)` moves, in recording order.
    pub closed spec fn moves(&self) -> Seq<(ColoredPtr, ColoredPtr)> {
        self.mappings@.take(self.count as int)
    }

    /// Whether a relocation pass is in progress.
    pub closed spec fn is_active(&self) -> bool {
        self.active
    }

    /// Number of objects skipped (pinned, etc.) since the last `finish`.
    pub closed spec fn skips(&self) -> u32 {
        self.skipped
    }

    /// Internal consistency: `RELOC_CAP` slots, `count` of them recorded.
    pub closed spec fn wf(&self) -> bool {
        &&& self.mappings@.len() == RELOC_CAP
        &&& self.count <= RELOC_CAP
    }

    /// Construct an empty, inactive relocator.
    pub fn new() -> (r: Relocator)
        ensures
            r.wf(),
            r.moves() == Seq::<(ColoredPtr, ColoredPtr)>::empty(),
            !r.is_active(),
            r.skips() == 0,
    {
        let mut mappings: Vec<(ColoredPtr, ColoredPtr)> = Vec::new();
        while mappings.len() < RELOC_CAP
            invariant
                mappings@.len() <= RELOC_CAP,
            decreases RELOC_CAP - mappings@.len(),
        {
            mappings.push((ColoredPtr(0), ColoredPtr(0)));
        }
        let r = Relocator { mappings, count: 0, active: false, skipped: 0 };
        assert(r.moves() =~= Seq::<(ColoredPtr, ColoredPtr)>::empty());
        r
    }

    /// Begin a relocation pass.
    pub fn begin(&mut self)
        requires
            old(self).wf(),
        ensures
            final(self).wf(),
            final(self).moves() == old(self).moves(),
            final(self).is_active(),
            final(self).skips() == old(self).skips(),
    {
        self.active = true;
    }

    /// Count an object the pass skips (pinned, etc.), saturating.
    pub fn record_skip(&mut self)
        requires
            old(self).wf(),
        ensures
            final(self).wf(),
            final(self).moves() == old(self).moves(),
            final(self).is_active() == old(self).is_active(),
            final(self).skips() == (if old(self).skips() == u32::MAX {
                u32::MAX
            } else {
                (old(self).skips() + 1) as u32
            }),
    {
        self.skipped = self.skipped.saturating_add(1);
    }

    /// Record a single move; errors if the map is full.
    pub fn record_move(&mut self, old_ptr: ColoredPtr, new_ptr: ColoredPtr) -> (r: Result<(), RuntimeError>)
        requires
            old(self).wf(),
        ensures
            final(self).wf(),
            final(self).is_active() == old(self).is_active(),
            final(self).skips() == old(self).skips(),
            old(self).moves().len() >= RELOC_CAP ==> r == Err::<(), RuntimeError>(
                RuntimeError::StackOverflow,
            ) && final(self).moves() == old(self).moves(),
            old(self).moves().len() < RELOC_CAP ==> r is Ok && final(self).moves() == old(
                self,
            ).moves().push((old_ptr, new_ptr)),
    {
        if self.count >= RELOC_CAP {
            return Err(RuntimeError::StackOverflow);
        }
        self.mappings.set(self.count, (old_ptr, new_ptr));
        self.count = self.count + 1;
        assert(self.moves() =~= old(self).moves().push((old_ptr, new_ptr)));
        Ok(())
    }

    /// Forward a pointer through the relocation map. While a pass is
    /// active, a pointer whose address was recorded as moved is mapped to
    /// its new location (the first recorded move for that address wins);
    /// otherwise the pointer is returned unchanged.
    pub fn forward(&self, ptr: ColoredPtr) -> (r: ColoredPtr)
        requires
            self.wf(),
        ensures
            r == forward_spec(self.moves(), self.is_active(), ptr),
    {
        if !self.active {
            return ptr;
        }
        let mut i: usize = 0;
        while i < self.count
            invariant
                self.wf(),
                self.active,
                i <= self.count,
                forward_from(self.moves(), ptr, 0) == forward_from(self.moves(), ptr, i as int),
            decreases self.count - i,
        {
            let (old_ptr, new_ptr) = self.mappings[i];
            assert(self.moves()[i as int] == (old_ptr, new_ptr));
            if old_ptr.addr() == ptr.addr() {
                return new_ptr;
            }
            i = i + 1;
        }
        ptr
    }

    /// Finish the pass: report the number of moves and of skipped objects,
    /// forget them, and become inactive.
    pub fn finish(&mut self) -> (r: RelocStats)
        requires
            old(self).wf(),
        ensures
            final(self).wf(),
            r == (RelocStats { moved: old(self).moves().len() as u32, skipped: old(self).skips() }),
            final(self).moves() == Seq::<(ColoredPtr, ColoredPtr)>::empty(),
            !final(self).is_active(),
            final(self).skips() == 0,
    {
        let stats = RelocStats { moved: self.count as u32, skipped: self.skipped };
        self.count = 0;
        self.skipped = 0;
        self.active = false;
        assert(self.moves() =~= Seq::<(ColoredPtr, ColoredPtr)>::empty());
        stats
    }
}

impl Default for Relocator {
    fn default() -> (r: Relocator)
        ensures
            r.wf(),
            r.moves() == Seq::<(ColoredPtr, ColoredPtr)>::empty(),
            !r.is_active(),
            r.skips() == 0,
    {
        Relocator::new()
    }
}

/// While no pass is active, forwarding is the identity.
pub proof fn law_forward_inactive(moves: Seq<(ColoredPtr, ColoredPtr)>, ptr: ColoredPtr)
    ensures
        forward_spec(moves, false, ptr) == ptr,
{
}

/// During a pass, a pointer whose address was recorded as moved (and not
/// recorded earlier) is forwarded to its new location.
pub proof fn law_forward_recorded(
    moves: Seq<(ColoredPtr, ColoredPtr)>,
    old_ptr: ColoredPtr,
    new_ptr: ColoredPtr,
)
    requires
        forall|i: int| 0 <= i < moves.len() ==> ptr_addr(moves[i].0) != ptr_addr(old_ptr),
    ensures
        forward_spec(moves.push((old_ptr, new_ptr)), true, old_ptr) == new_ptr,
{
    lemma_forward_skips(moves.push((old_ptr, new_ptr)), old_ptr, 0, moves.len() as int);
}

/// During a pass, a pointer whose address no move mentions is returned
/// unchanged.
pub proof fn law_forward_unmapped(moves: Seq<(ColoredPtr, ColoredPtr)>, ptr: ColoredPtr)
    requires
        forall|i: int| 0 <= i < moves.len() ==> ptr_addr(moves[i].0) != ptr_addr(ptr),
    ensures
        forward_spec(moves, true, ptr) == ptr,
{
    lemma_forward_skips(moves, ptr, 0, moves.len() as int);
}

/// Moves in `[from, to)` that do not mention `ptr`'s address are skipped.
proof fn lemma_forward_skips(
    moves: Seq<(ColoredPtr, ColoredPtr)>,
    ptr: ColoredPtr,
    from: int,
    to: int,
)
    requires
        0 <= from <= to <= moves.len(),
        forall|i: int| from <= i < to ==> ptr_addr(moves[i].0) != ptr_addr(ptr),
    ensures
        forward_from(moves, ptr, from) == forward_from(moves, ptr, to),
    decreases to - from,
{
    if from < to {
        lemma_forward_skips(moves, ptr, from + 1, to);
    }
}

} // verus!
