use xgc::{Alignment, Color, ColoredPtr, HEADER_MAGIC, ObjectHeader, SizeClass, Trace, Visitor};

#[test]
fn size_classes() {
    assert_eq!(SizeClass::for_payload(0), SizeClass::S32);
    assert_eq!(SizeClass::for_payload(32), SizeClass::S32);
    assert_eq!(SizeClass::for_payload(33), SizeClass::S64);
    assert_eq!(SizeClass::for_payload(128), SizeClass::S128);
    assert_eq!(SizeClass::for_payload(129), SizeClass::S256);
    assert_eq!(SizeClass::for_payload(512), SizeClass::S512);
    assert_eq!(SizeClass::for_payload(2048), SizeClass::S2K);
    assert_eq!(SizeClass::for_payload(2049), SizeClass::Large);
}

#[test]
fn alignment_bytes() {
    assert_eq!(Alignment::A8.bytes(), 8);
    assert_eq!(Alignment::A16.bytes(), 16);
    assert_eq!(Alignment::A64.bytes(), 64);
}

#[test]
fn header_color_and_magic() {
    let mut h = ObjectHeader::new(42, SizeClass::S64, Alignment::A16);
    assert!(h.is_valid());
    assert_eq!(h.magic, HEADER_MAGIC);
    assert_eq!(h.id, 42);
    assert_eq!(h.color(), Color::White);
    h.set_color(Color::Black);
    assert_eq!(h.color(), Color::Black);
    assert_eq!(h.size_class, SizeClass::S64);
    h.magic = 0;
    assert!(!h.is_valid());
}

struct Collect(Vec<ColoredPtr>);

impl Visitor for Collect {
    fn visit(&mut self, r: ColoredPtr) {
        self.0.push(r);
    }
}

#[test]
fn primitives_have_no_references() {
    let mut c = Collect(Vec::new());
    5u8.trace(&mut c);
    7u64.trace(&mut c);
    (-1i32).trace(&mut c);
    true.trace(&mut c);
    9usize.trace(&mut c);
    assert!(c.0.is_empty());
}
