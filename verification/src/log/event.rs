//! GC event: a single timeline entry.
use vstd::prelude::*;

verus! {

/// GC event kind.
#[derive(Debug, Clone, Copy, PartialEq, Eq, Structural)]
pub enum EventKind {
    Init,
    MarkStart,
    MarkEnd,
    RelocateStart,
    RelocateEnd,
    SweepStart,
    SweepEnd,
    Alloc,
    Promote,
    Evict,
    Cycle,
    Trigger,
    Error,
}

impl EventKind {
    /// Short string label for the event.
    pub fn label(self) -> (r: &'static str)
        ensures
            self == EventKind::Init ==> r@ == "init"@,
            self == EventKind::MarkStart ==> r@ == "mark.start"@,
            self == EventKind::MarkEnd ==> r@ == "mark.end"@,
            self == EventKind::RelocateStart ==> r@ == "reloc.start"@,
            self == EventKind::RelocateEnd ==> r@ == "reloc.end"@,
            self == EventKind::SweepStart ==> r@ == "sweep.start"@,
            self == EventKind::SweepEnd ==> r@ == "sweep.end"@,
            self == EventKind::Alloc ==> r@ == "alloc"@,
            self == EventKind::Promote ==> r@ == "promote"@,
            self == EventKind::Evict ==> r@ == "evict"@,
            self == EventKind::Cycle ==> r@ == "cycle"@,
            self == EventKind::Trigger ==> r@ == "trigger"@,
            self == EventKind::Error ==> r@ == "error"@,
    {
        match self {
            EventKind::Init => "init",
            EventKind::MarkStart => "mark.start",
            EventKind::MarkEnd => "mark.end",
            EventKind::RelocateStart => "reloc.start",
            EventKind::RelocateEnd => "reloc.end",
            EventKind::SweepStart => "sweep.start",
            EventKind::SweepEnd => "sweep.end",
            EventKind::Alloc => "alloc",
            EventKind::Promote => "promote",
            EventKind::Evict => "evict",
            EventKind::Cycle => "cycle",
            EventKind::Trigger => "trigger",
            EventKind::Error => "error",
        }
    }
}

/// Single GC event.
#[derive(Debug, Clone, Copy, PartialEq, Eq, Structural)]
pub struct GcEvent {
    pub kind: EventKind,
    pub t_ms: u64,
    pub value: u64,
}

impl GcEvent {
    /// Construct a new event.
    pub fn new(kind: EventKind, t_ms: u64, value: u64) -> (r: GcEvent)
        ensures
            r == (GcEvent { kind, t_ms, value }),
    {
        GcEvent { kind, t_ms, value }
    }
}

} // verus!
