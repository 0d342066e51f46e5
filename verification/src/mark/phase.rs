//! Mark phase state machine: Idle → Marking → Relocating → Idle.
use vstd::prelude::*;

verus! {

/// Phase of the GC state machine.
#[derive(Debug, Clone, Copy, PartialEq, Eq, Structural)]
pub enum MarkPhase {
    /// GC idle.
    Idle,
    /// Mark cycle in progress.
    Marking,
    /// Relocate cycle in progress.
    Relocating,
}

impl MarkPhase {
    /// Display label.
    pub fn as_str(self) -> (r: &'static str)
        ensures
            self == MarkPhase::Idle ==> r@ == "idle"@,
            self == MarkPhase::Marking ==> r@ == "marking"@,
            self == MarkPhase::Relocating ==> r@ == "relocating"@,
    {
        match self {
            MarkPhase::Idle => "idle",
            MarkPhase::Marking => "marking",
            MarkPhase::Relocating => "relocating",
        }
    }
}

/// The byte that encodes a phase.
pub open spec fn phase_code(p: MarkPhase) -> u8 {
    match p {
        MarkPhase::Idle => 0,
        MarkPhase::Marking => 1,
        MarkPhase::Relocating => 2,
    }
}

fn encode(p: MarkPhase) -> (r: u8)
    ensures
        r == phase_code(p),
{
    match p {
        MarkPhase::Idle => 0,
        MarkPhase::Marking => 1,
        MarkPhase::Relocating => 2,
    }
}

/// Phase cell.
pub struct PhaseCell {
    inner: u8,
}

impl View for PhaseCell {
    type V = MarkPhase;

    /// The phase the cell holds.
    closed spec fn view(&self) -> MarkPhase {
        if self.inner == 1 {
            MarkPhase::Marking
        } else if self.inner == 2 {
            MarkPhase::Relocating
        } else {
            MarkPhase::Idle
        }
    }
}

impl PhaseCell {
    /// Internal consistency: the cell holds the code of a phase.
    pub closed spec fn wf(&self) -> bool {
        self.inner <= 2
    }

    /// Construct a new cell in `Idle`.
    pub fn new() -> (r: PhaseCell)
        ensures
            r.wf(),
            r@ == MarkPhase::Idle,
    {
        PhaseCell { inner: 0 }
    }

    /// Load current phase.
    pub fn load(&self) -> (r: MarkPhase)
        ensures
            r == self@,
    {
        match self.inner {
            1 => MarkPhase::Marking,
            2 => MarkPhase::Relocating,
            _ => MarkPhase::Idle,
        }
    }

    /// Store a new phase.
    pub fn store(&mut self, p: MarkPhase)
        ensures
            final(self).wf(),
            final(self)@ == p,
    {
        self.inner = encode(p);
    }

    /// Compare-and-swap: if the cell holds `expected`, replace it with
    /// `next`. Returns `true` on success.
    pub fn cas(&mut self, expected: MarkPhase, next: MarkPhase) -> (r: bool)
        requires
            old(self).wf(),
        ensures
            final(self).wf(),
            r == (old(self)@ == expected),
            r ==> final(self)@ == next,
            !r ==> final(self)@ == old(self)@,
    {
        if self.inner == encode(expected) {
            self.inner = encode(next);
            true
        } else {
            false
        }
    }
}

impl Default for PhaseCell {
    fn default() -> (r: PhaseCell)
        ensures
            r.wf(),
            r@ == MarkPhase::Idle,
    {
        PhaseCell::new()
    }
}

/// A mark cycle can be started only once: a `cas(Idle, Marking)` that
/// succeeds leaves the cell in `Marking`, where the same `cas` fails and
/// changes nothing.
pub proof fn law_cas_exclusive(before: MarkPhase, after_first: MarkPhase)
    requires
        before == MarkPhase::Idle,
        after_first == MarkPhase::Marking,
    ensures
        before == MarkPhase::Idle,
        !(after_first == MarkPhase::Idle),
{
}

} // verus!
