use xgc::{CARD_SIZE, CARDS_PER_REGION, CardByte, CardState, CardTable, REGION_SIZE};

#[test]
fn card_state_decoding() {
    assert_eq!(CardState::from_byte(0), CardState::Clean);
    assert_eq!(CardState::from_byte(1), CardState::Dirty);
    assert_eq!(CardState::from_byte(200), CardState::Dirty);
}

#[test]
fn card_byte_store_load() {
    let mut c = CardByte::new();
    assert_eq!(c.load(), CardState::Clean);
    c.mark_dirty();
    assert_eq!(c.load(), CardState::Dirty);
    c.store(CardState::Clean);
    assert_eq!(c.load(), CardState::Clean);
    c.store(CardState::Dirty);
    assert_eq!(c.0, 1);
}

#[test]
fn card_table_marks_the_covering_card() {
    let mut t = CardTable::new();
    assert_eq!(t.len(), CARDS_PER_REGION);
    assert_eq!(CARDS_PER_REGION, 2048);
    assert!(!t.is_empty());
    t.mark_dirty_at(CARD_SIZE + 5);
    assert!(t.is_dirty_at(CARD_SIZE));
    assert!(t.is_dirty_at(2 * CARD_SIZE - 1));
    assert!(!t.is_dirty_at(0));
    assert!(!t.is_dirty_at(2 * CARD_SIZE));
    t.mark_dirty_at(REGION_SIZE - 1);
    assert_eq!(t.for_each_dirty(), vec![1, CARDS_PER_REGION - 1]);
}

#[test]
fn card_table_ignores_offsets_beyond_region() {
    let mut t = CardTable::default();
    t.mark_dirty_at(REGION_SIZE);
    assert!(!t.is_dirty_at(REGION_SIZE));
    assert_eq!(t.for_each_dirty(), Vec::<usize>::new());
}

#[test]
fn card_table_clear() {
    let mut t = CardTable::new();
    t.mark_dirty_at(0);
    t.mark_dirty_at(4096);
    t.clear();
    assert_eq!(t.for_each_dirty(), Vec::<usize>::new());
}
