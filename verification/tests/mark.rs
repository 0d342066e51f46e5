use xgc::{Color, ColoredPtr, MarkPhase, PhaseCell, RuntimeError, WORKLIST_CAP, Worklist};

#[test]
fn phase_labels() {
    assert_eq!(MarkPhase::Idle.as_str(), "idle");
    assert_eq!(MarkPhase::Marking.as_str(), "marking");
    assert_eq!(MarkPhase::Relocating.as_str(), "relocating");
}

#[test]
fn phase_cell_cas() {
    let mut c = PhaseCell::new();
    assert_eq!(c.load(), MarkPhase::Idle);
    assert!(c.cas(MarkPhase::Idle, MarkPhase::Marking));
    assert_eq!(c.load(), MarkPhase::Marking);
    assert!(!c.cas(MarkPhase::Idle, MarkPhase::Marking));
    assert_eq!(c.load(), MarkPhase::Marking);
    c.store(MarkPhase::Relocating);
    assert_eq!(c.load(), MarkPhase::Relocating);
    assert_eq!(PhaseCell::default().load(), MarkPhase::Idle);
}

#[test]
fn worklist_is_lifo() {
    let mut w = Worklist::new();
    assert!(w.is_empty());
    let a = ColoredPtr::new(0x10, Color::Grey);
    let b = ColoredPtr::new(0x20, Color::Grey);
    w.push(a).unwrap();
    w.push(b).unwrap();
    assert_eq!(w.len(), 2);
    assert_eq!(w.pop(), Some(b));
    assert_eq!(w.pop(), Some(a));
    assert_eq!(w.pop(), None);
}

#[test]
fn worklist_overflow_and_clear() {
    let mut w = Worklist::default();
    for i in 0..WORKLIST_CAP {
        w.push(ColoredPtr::new(i * 8, Color::Grey)).unwrap();
    }
    assert_eq!(w.push(ColoredPtr::new(0, Color::Grey)), Err(RuntimeError::StackOverflow));
    w.clear();
    assert!(w.is_empty());
    assert_eq!(w.pop(), None);
}
