use xgc::pin::registry::REGISTRY_CAP;
use xgc::{Color, ColoredPtr, PinRegistry, PinnedObject, RuntimeError, handle_from_id};

#[test]
fn handle_validity() {
    assert!(!handle_from_id(0).is_valid());
    assert!(handle_from_id(3).is_valid());
    assert_eq!(handle_from_id(3).id(), 3);
    let p = ColoredPtr::new(0x4000, Color::White);
    let o = PinnedObject::new(p, handle_from_id(1));
    assert_eq!(o.ptr, p);
    assert_eq!(o.handle.id(), 1);
}

#[test]
fn pin_then_unpin_releases() {
    let mut r = PinRegistry::new();
    assert!(r.is_empty());
    let p = ColoredPtr::new(0x1000, Color::White);
    let h = r.pin(p).unwrap();
    assert_eq!(h.id(), 1);
    assert!(r.is_pinned(p));
    assert_eq!(r.len(), 1);
    assert!(r.unpin(h));
    assert!(!r.is_pinned(p));
    assert!(r.is_empty());
}

#[test]
fn pinning_twice_counts() {
    let mut r = PinRegistry::new();
    let p = ColoredPtr::new(0x1000, Color::White);
    let h1 = r.pin(p).unwrap();
    let h2 = r.pin(p).unwrap();
    assert_eq!(h1, h2);
    assert_eq!(r.len(), 1);
    assert!(!r.unpin(h1));
    assert!(r.is_pinned(p));
    assert!(r.unpin(h2));
    assert!(!r.is_pinned(p));
}

#[test]
fn distinct_objects_get_distinct_slots() {
    let mut r = PinRegistry::new();
    let a = r.pin(ColoredPtr::new(0x1000, Color::White)).unwrap();
    let b = r.pin(ColoredPtr::new(0x2000, Color::White)).unwrap();
    assert_eq!(a.id(), 1);
    assert_eq!(b.id(), 2);
    assert_eq!(r.len(), 2);
}

#[test]
fn unpin_invalid_handles() {
    let mut r = PinRegistry::new();
    assert!(!r.unpin(handle_from_id(0)));
    assert!(!r.unpin(handle_from_id(5)));
    assert!(!r.unpin(handle_from_id(1000)));
}

#[test]
fn full_registry_reports_out_of_memory() {
    let mut r = PinRegistry::new();
    for i in 0..REGISTRY_CAP {
        r.pin(ColoredPtr::new(0x1000 * (i + 1), Color::White)).unwrap();
    }
    assert_eq!(r.len(), REGISTRY_CAP);
    let e = r.pin(ColoredPtr::new(0x1000_0000, Color::White));
    assert_eq!(e, Err(RuntimeError::OutOfMemory));
    // An object that is already pinned can still be pinned again.
    assert!(r.pin(ColoredPtr::new(0x1000, Color::White)).is_ok());
}

#[test]
fn only_the_kth_unpin_releases() {
    let mut r = PinRegistry::new();
    let other = r.pin(ColoredPtr::new(0x8000, Color::White)).unwrap();
    let p = ColoredPtr::new(0x1000, Color::White);
    let h = r.pin(p).unwrap();
    for _ in 0..2 {
        assert_eq!(r.pin(p).unwrap(), h);
        assert_eq!(r.len(), 2);
    }
    assert!(!r.unpin(h));
    assert!(r.is_pinned(p) && r.len() == 2);
    assert!(!r.unpin(h));
    assert!(r.is_pinned(p) && r.len() == 2);
    assert!(r.unpin(h));
    assert!(!r.is_pinned(p));
    assert_eq!(r.len(), 1);
    assert!(r.unpin(other));
}
