use xgc::{Color, ColoredPtr, MarkEpoch, RefUpdateBuffer, RuntimeError, SatbBuffer};

#[test]
fn epoch_advances_and_stales_old_epochs() {
    let mut e = MarkEpoch::new();
    assert_eq!(e.current(), 0);
    assert!(!e.is_stale(0));
    assert_eq!(e.advance(), 1);
    assert_eq!(e.current(), 1);
    assert!(e.is_stale(0));
    assert!(!e.is_stale(1));
    assert_eq!(e.advance(), 2);
    assert_eq!(MarkEpoch::default().current(), 0);
}

#[test]
fn satb_records_and_drains_in_order() {
    let mut b = SatbBuffer::new();
    assert!(b.is_empty());
    let a = ColoredPtr::new(0x10, Color::White);
    let c = ColoredPtr::new(0x20, Color::Grey);
    b.record(a).unwrap();
    b.record(c).unwrap();
    assert!(!b.is_empty());
    assert_eq!(b.drain(), vec![a, c]);
    assert!(b.is_empty());
    assert_eq!(b.drain(), vec![]);
}

#[test]
fn satb_overflows_at_capacity() {
    let mut b = SatbBuffer::default();
    for i in 0..256usize {
        b.record(ColoredPtr::new(i * 8, Color::White)).unwrap();
    }
    assert_eq!(b.record(ColoredPtr::new(0, Color::White)), Err(RuntimeError::StackOverflow));
    assert_eq!(b.drain().len(), 256);
    assert!(b.record(ColoredPtr::new(0, Color::White)).is_ok());
}

#[test]
fn ref_updates_record_and_drain_in_order() {
    let mut b = RefUpdateBuffer::new();
    let a = ColoredPtr::new(0x40, Color::Black);
    b.record(7, a).unwrap();
    b.record(9, a).unwrap();
    assert_eq!(b.drain(), vec![(7, a), (9, a)]);
    assert_eq!(b.drain(), vec![]);
}

#[test]
fn ref_updates_overflow_at_capacity() {
    let mut b = RefUpdateBuffer::default();
    for i in 0..256usize {
        b.record(i, ColoredPtr::new(0, Color::White)).unwrap();
    }
    assert_eq!(b.record(1, ColoredPtr::new(0, Color::White)), Err(RuntimeError::StackOverflow));
}
