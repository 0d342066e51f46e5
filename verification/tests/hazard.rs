use xgc::{HazardRecord, HazardSlot};

#[test]
fn hazard_slot_publish_and_clear() {
    let mut s = HazardSlot::new();
    assert!(!s.is_active());
    assert_eq!(s.get(), 0);
    s.publish(0xdead_0000);
    assert!(s.is_active());
    assert_eq!(s.get(), 0xdead_0000);
    s.clear();
    assert!(!s.is_active());
    assert_eq!(s.get(), 0);
    assert!(!HazardSlot::default().is_active());
}

#[test]
fn hazard_record_slots() {
    let mut r = HazardRecord::new();
    assert!(!r.any_active());
    r.publish(3, 0x1000);
    assert!(r.is_active(3));
    assert!(!r.is_active(2));
    assert!(r.any_active());
    r.publish(16, 0x2000);
    assert!(!r.is_active(16));
    r.clear(3);
    assert!(!r.any_active());
    r.publish(0, 1);
    r.publish(15, 2);
    r.clear_all();
    assert!(!r.any_active());
    assert!(!HazardRecord::default().any_active());
}
