use xgc::relocate::Relocator;
use xgc::{Color, ColoredPtr, RuntimeError};

#[test]
fn forward_returns_unchanged_when_inactive() {
    let reloc = Relocator::new();
    let ptr = ColoredPtr::new(0x1000, Color::White);
    let result = reloc.forward(ptr);
    assert_eq!(result, ptr);
}

#[test]
fn forward_returns_new_when_mapped() {
    let mut reloc = Relocator::new();
    reloc.begin();
    let old = ColoredPtr::new(0x1000, Color::White);
    let new = ColoredPtr::new(0x2000, Color::Black);
    reloc.record_move(old, new).unwrap();
    let result = reloc.forward(old);
    assert_eq!(result.addr(), 0x2000);
}

#[test]
fn forward_ignores_unmapped_ptr() {
    let mut reloc = Relocator::new();
    reloc.begin();
    let moved = ColoredPtr::new(0x1000, Color::White);
    let new = ColoredPtr::new(0x2000, Color::Black);
    reloc.record_move(moved, new).unwrap();

    let other = ColoredPtr::new(0x9999, Color::White);
    assert_eq!(reloc.forward(other), other);
}

#[test]
fn forward_first_recorded_move_wins() {
    let mut reloc = Relocator::new();
    reloc.begin();
    let old = ColoredPtr::new(0x1000, Color::Grey);
    reloc.record_move(old, ColoredPtr::new(0x2000, Color::Black)).unwrap();
    reloc.record_move(ColoredPtr::new(0x1000, Color::White), ColoredPtr::new(0x3000, Color::White)).unwrap();
    assert_eq!(reloc.forward(ColoredPtr::new(0x1000, Color::Black)).addr(), 0x2000);
}

#[test]
fn finish_reports_moves_and_deactivates() {
    let mut reloc = Relocator::new();
    reloc.begin();
    let old = ColoredPtr::new(0x1000, Color::White);
    reloc.record_move(old, ColoredPtr::new(0x2000, Color::White)).unwrap();
    reloc.record_move(ColoredPtr::new(0x4000, Color::White), ColoredPtr::new(0x5000, Color::White)).unwrap();
    let stats = reloc.finish();
    assert_eq!(stats.moved, 2);
    assert_eq!(stats.skipped, 0);
    assert_eq!(reloc.forward(old), old);
}

#[test]
fn finish_reports_skips_and_resets_them() {
    let mut reloc = Relocator::new();
    reloc.begin();
    reloc.record_skip();
    reloc.record_skip();
    let stats = reloc.finish();
    assert_eq!((stats.moved, stats.skipped), (0, 2));
    assert_eq!(reloc.finish().skipped, 0);
}

#[test]
fn record_move_overflows_at_capacity() {
    let mut reloc = Relocator::new();
    for i in 0..1024usize {
        reloc.record_move(ColoredPtr::new(i * 8, Color::White), ColoredPtr::new(i * 8 + 0x10000, Color::White)).unwrap();
    }
    assert_eq!(
        reloc.record_move(ColoredPtr::new(0x99990, Color::White), ColoredPtr(0)),
        Err(RuntimeError::StackOverflow)
    );
}
