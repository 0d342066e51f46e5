use xgc::region::bitmap::MarkBitmap;
use xgc::region::descriptor::RegionDescriptor;
use xgc::region::table::MAX_REGIONS;
use xgc::{REGION_SIZE, Region, RegionTable, RuntimeError};

#[test]
fn region_availability_and_free() {
    let r = Region::unbound();
    assert_eq!(r.capacity, REGION_SIZE);
    assert!(!r.is_available());
    let bound = Region { start: 0x10_0000, used: 100, capacity: REGION_SIZE, occupied: false };
    assert!(bound.is_available());
    assert_eq!(bound.free(), REGION_SIZE - 100);
    let over = Region { start: 0x10_0000, used: REGION_SIZE + 1, capacity: REGION_SIZE, occupied: true };
    assert!(!over.is_available());
    assert_eq!(over.free(), 0);
}

#[test]
fn descriptor_capacity() {
    let mut d = RegionDescriptor::empty(0x20_0000);
    assert_eq!(d.capacity(), 0x10_0000);
    assert_eq!(d.free(), 0x10_0000);
    d.used = 0x1000;
    assert_eq!(d.free(), 0x10_0000 - 0x1000);
}

#[test]
fn table_rejects_too_many_regions() {
    assert!(matches!(RegionTable::new(MAX_REGIONS + 1), Err(RuntimeError::OutOfMemory)));
    let t = RegionTable::new(4).unwrap();
    assert_eq!(t.len(), 4);
    assert!(!t.is_empty());
    assert_eq!(t.total_bytes(), 4 * REGION_SIZE);
    assert!(t.get(4).is_none());
    assert_eq!(*t.get(0).unwrap(), Region::unbound());
}

#[test]
fn table_reserves_bound_regions_in_order() {
    let mut t = RegionTable::new(4).unwrap();
    assert_eq!(t.reserve_next(), None);
    t.get_mut(1).unwrap().start = 0x10_0000;
    t.get_mut(3).unwrap().start = 0x30_0000;
    t.reset_cursor();
    assert_eq!(t.reserve_next(), Some(1));
    assert_eq!(t.reserve_next(), Some(3));
    assert_eq!(t.reserve_next(), None);
    t.reset_cursor();
    assert_eq!(t.reserve_next(), Some(1));
    assert!(t.get_mut(9).is_none());
}

#[test]
fn bitmap_mark_unmark() {
    let mut b = MarkBitmap::new();
    assert!(!b.is_marked(5));
    b.mark(5);
    b.mark(64);
    b.mark(700);
    assert!(b.is_marked(5));
    assert!(b.is_marked(64));
    assert!(!b.is_marked(6));
    assert_eq!(b.for_each_marked(), vec![5, 64, 700]);
    b.unmark(64);
    assert!(!b.is_marked(64));
    assert_eq!(b.for_each_marked(), vec![5, 700]);
    b.mark(5000);
    assert!(b.is_marked(5000));
    assert!(!b.is_marked(4999) && !b.is_marked(5001));
    b.mark(131_071);
    assert!(b.is_marked(131_071));
    assert_eq!(b.for_each_marked(), vec![5, 700, 5000, 131_071]);
    b.mark(131_072);
    assert!(!b.is_marked(131_072));
    b.clear();
    assert!(b.for_each_marked().is_empty());
}
