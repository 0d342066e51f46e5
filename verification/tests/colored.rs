use xgc::{Color, ColoredPtr, LoadBarrier};

#[test]
fn colored_ptr_roundtrips_address_and_color() {
    for c in [Color::White, Color::Grey, Color::Black] {
        let p = ColoredPtr::new(0x1000, c);
        assert_eq!(p.addr(), 0x1000);
        assert_eq!(p.color(), c);
        assert!(!p.is_relocated());
    }
}

#[test]
fn colored_ptr_packs_color_in_low_bits() {
    assert_eq!(ColoredPtr::new(0x1000, Color::White).0, 0x1000);
    assert_eq!(ColoredPtr::new(0x1000, Color::Grey).0, 0x1001);
    assert_eq!(ColoredPtr::new(0x1000, Color::Black).0, 0x1002);
}

#[test]
fn mark_relocated_keeps_address_and_color() {
    let mut p = ColoredPtr::new(0x2000, Color::Grey);
    p.mark_relocated();
    assert!(p.is_relocated());
    assert_eq!(p.addr(), 0x2000);
    assert_eq!(p.color(), Color::Grey);
    let once = p;
    p.mark_relocated();
    assert_eq!(p, once);
}

#[test]
fn addr_masks_low_three_bits() {
    let p = ColoredPtr(0x100f);
    assert_eq!(p.addr(), 0x1008);
    assert_eq!(p.color(), Color::Black);
    assert!(p.is_relocated());
}

#[test]
fn color_labels() {
    assert_eq!(Color::White.label(), "white");
    assert_eq!(Color::Grey.label(), "grey");
    assert_eq!(Color::Black.label(), "black");
}

#[test]
fn load_barrier_returns_pointer() {
    let p = ColoredPtr::new(0x3000, Color::Black);
    assert_eq!(p.load(), p);
}
