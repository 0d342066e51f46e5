use xgc::{Color, ColoredPtr, FinalizationQueue, FinalizerId, QUEUE_CAP, RuntimeError, WEAK_TABLE_CAP, WeakRef, WeakTable, try_upgrade};

#[test]
fn finalization_queue_is_fifo_with_fresh_ids() {
    let mut q = FinalizationQueue::new();
    assert!(q.is_empty());
    let a = ColoredPtr::new(0x10, Color::White);
    let b = ColoredPtr::new(0x20, Color::White);
    assert_eq!(q.enqueue(a, 1), Ok(FinalizerId(1)));
    assert_eq!(q.enqueue(b, 2), Ok(FinalizerId(2)));
    assert_eq!(q.len(), 2);
    let e = q.dequeue().unwrap();
    assert_eq!((e.object, e.type_id, e.id), (a, 1, FinalizerId(1)));
    let e = q.dequeue().unwrap();
    assert_eq!((e.object, e.type_id, e.id), (b, 2, FinalizerId(2)));
    assert!(q.dequeue().is_none());
}

#[test]
fn finalization_queue_wraps_around() {
    let mut q = FinalizationQueue::default();
    for i in 0..QUEUE_CAP {
        q.enqueue(ColoredPtr::new(i * 8, Color::White), 0).unwrap();
    }
    assert_eq!(q.enqueue(ColoredPtr::new(0, Color::White), 0), Err(RuntimeError::StackOverflow));
    for _ in 0..10 {
        q.dequeue().unwrap();
    }
    for i in 0..10usize {
        q.enqueue(ColoredPtr::new(0x10000 + i * 8, Color::White), 7).unwrap();
    }
    assert_eq!(q.len(), QUEUE_CAP);
    assert_eq!(q.dequeue().unwrap().object.addr(), 80);
}

#[test]
fn weak_refs_upgrade_until_invalidated() {
    let mut t = WeakTable::new();
    assert!(t.is_empty());
    let target = ColoredPtr::new(0x100, Color::Black);
    let w1 = t.create(target).unwrap();
    let w2 = t.create(target).unwrap();
    let other = t.create(ColoredPtr::new(0x200, Color::Black)).unwrap();
    assert_eq!(w1, WeakRef(1));
    assert_eq!(w2, WeakRef(2));
    assert_eq!(t.len(), 3);
    assert_eq!(t.upgrade(w1), Some(target));
    assert!(t.contains(w2));
    assert_eq!(t.invalidate(target), 2);
    assert_eq!(t.upgrade(w1), None);
    assert!(!t.contains(w2));
    assert_eq!(t.len(), 1);
    assert_eq!(try_upgrade(&t, w1), Err(RuntimeError::NoParkingPermit));
    assert_eq!(try_upgrade(&t, other), Ok(ColoredPtr::new(0x200, Color::Black)));
}

#[test]
fn weak_table_reuses_dead_slots_and_fills_up() {
    let mut t = WeakTable::default();
    for i in 0..WEAK_TABLE_CAP {
        assert!(t.create(ColoredPtr::new(i * 8, Color::White)).is_some());
    }
    assert_eq!(t.create(ColoredPtr::new(0x9999_0, Color::White)), None);
    assert_eq!(t.invalidate(ColoredPtr::new(0, Color::White)), 1);
    let w = t.create(ColoredPtr::new(0x9999_0, Color::White)).unwrap();
    assert_eq!(w, WeakRef(WEAK_TABLE_CAP as u32 + 1));
    assert_eq!(t.upgrade(w), Some(ColoredPtr::new(0x9999_0, Color::White)));
}
