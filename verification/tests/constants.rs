use xgc::{ColoredPtr, Instant, NodeId, PinHandle, SiteId, SlabSize};

#[test]
fn named_values() {
    assert_eq!(ColoredPtr::null().0, 0);
    assert_eq!(ColoredPtr::null().addr(), 0);
    assert!(!PinHandle::invalid().is_valid());
    assert_eq!(SiteId::anon(), SiteId(0));
    assert_eq!(Instant::zero().ms(), 0);
    assert_eq!(NodeId::local(), NodeId(0));
    assert_eq!(NodeId::any(), NodeId(u8::MAX));
    assert_eq!(SlabSize::s16(), SlabSize(16));
    assert_eq!(SlabSize::s512(), SlabSize(512));
    let all = SlabSize::all();
    assert_eq!(all.iter().map(|s| s.0).collect::<Vec<_>>(), vec![16, 32, 64, 128, 256, 512]);
    for s in all {
        assert_eq!(SlabSize::for_bytes(s.0 as usize), s);
    }
}
