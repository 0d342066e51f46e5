use xgc::page::table::PageTable;
use xgc::{PAGE_SIZE, PageDescriptor, PageState, REGION_PAGE_COUNT, is_page_aligned, page_round_down, page_round_up};

#[test]
fn rounding() {
    assert_eq!(page_round_up(0), 0);
    assert_eq!(page_round_up(1), 4096);
    assert_eq!(page_round_up(4096), 4096);
    assert_eq!(page_round_up(4097), 8192);
    assert_eq!(page_round_down(4097), 4096);
    assert_eq!(page_round_down(4095), 0);
    assert!(is_page_aligned(8192));
    assert!(!is_page_aligned(8193));
    assert_eq!(REGION_PAGE_COUNT, 256);
    assert_eq!(PAGE_SIZE, 4096);
}

#[test]
fn page_states() {
    assert_eq!(PageState::from_byte(0), PageState::Free);
    assert_eq!(PageState::from_byte(1), PageState::Used);
    assert_eq!(PageState::from_byte(2), PageState::Reserved);
    assert_eq!(PageState::from_byte(3), PageState::Dirty);
    assert_eq!(PageState::from_byte(9), PageState::Free);
    let mut d = PageDescriptor::free();
    assert!(d.is_free());
    d.mark_used();
    assert!(d.is_used());
    d.mark_dirty();
    assert!(d.is_used() && !d.is_free());
    d.mark_free();
    assert!(d.is_free());
}

#[test]
fn page_table_ranges() {
    let mut t = PageTable::new();
    assert_eq!(t.len(), 256);
    assert!(!t.is_empty());
    assert_eq!(t.used_count(), 0);
    t.mark_range_used(4000, 200);
    assert_eq!(t.used_count(), 2);
    assert!(t.get(0).unwrap().is_used());
    assert!(t.get(1).unwrap().is_used());
    assert!(t.get(2).unwrap().is_free());
    t.mark_range_dirty(8192, 1);
    assert_eq!(t.get(2).unwrap().state, PageState::Dirty);
    assert_eq!(t.used_count(), 3);
    let dirty: Vec<usize> = t.for_each_in(PageState::Dirty).iter().map(|(i, _)| *i).collect();
    assert_eq!(dirty, vec![2]);
    t.mark_range_used(255 * 4096, usize::MAX);
    assert!(t.get(255).unwrap().is_used());
    assert!(t.get(256).is_none());
    t.clear();
    assert_eq!(t.used_count(), 0);
    assert_eq!(PageTable::default().used_count(), 0);
}

#[test]
fn page_table_empty_range_marks_nothing() {
    let mut t = PageTable::new();
    t.mark_range_used(4096, 0);
    t.mark_range_used(4100, 0);
    t.mark_range_dirty(9000, 0);
    assert_eq!(t.used_count(), 0);
    t.mark_range_used(4095, 2);
    assert_eq!(t.used_count(), 2);
}
