use xgc::slab::page::Slab;
use xgc::{Color, SlabAllocator, SlabSize};

#[test]
fn slab_size_classes() {
    assert_eq!(SlabSize::for_bytes(0).0, 16);
    assert_eq!(SlabSize::for_bytes(16).0, 16);
    assert_eq!(SlabSize::for_bytes(17).0, 32);
    assert_eq!(SlabSize::for_bytes(100).0, 128);
    assert_eq!(SlabSize::for_bytes(256).0, 256);
    assert_eq!(SlabSize::for_bytes(10_000).0, 512);
    assert_eq!(SlabSize(64).slots_per_page(), 64);
    assert_eq!(SlabSize(16).slots_per_page(), 256);
}

#[test]
fn slab_allocates_lowest_free_slot() {
    let mut s = Slab::new(SlabSize(512), 0x1000);
    assert_eq!(s.allocate(), None);
    s.init_full();
    assert_eq!(s.free_count(), 8);
    assert_eq!(s.allocate(), Some(0));
    assert_eq!(s.allocate(), Some(1));
    assert_eq!(s.used(), 2);
    s.free(0);
    assert_eq!(s.allocate(), Some(0));
    s.free(1);
    s.free(1);
    assert_eq!(s.free_count(), 7);
    assert_eq!(s.base(), 0x1000);
    assert_eq!(s.size(), SlabSize(512));
}

#[test]
fn allocator_grows_and_hands_out_white_pointers() {
    let mut a = SlabAllocator::new(0x10_0000);
    assert_eq!(a.slab_count(), 0);
    let p1 = a.allocate(24).unwrap();
    assert_eq!(a.slab_count(), 1);
    assert_eq!(a.reserved(), 4096);
    assert_eq!(p1.addr(), 0x10_0000);
    assert_eq!(p1.color(), Color::White);
    let p2 = a.allocate(30).unwrap();
    assert_eq!(p2.addr(), 0x10_0000 + 32);
    let p3 = a.allocate(200).unwrap();
    assert_eq!(a.slab_count(), 2);
    assert_eq!(p3.addr(), 0x10_0000 + 4096);
}

#[test]
fn allocator_free_then_allocate_reuses_slot() {
    let mut a = SlabAllocator::new(0x10_0000);
    let p1 = a.allocate(8).unwrap();
    let _p2 = a.allocate(8).unwrap();
    a.free(p1.addr() as u64, 8);
    let p3 = a.allocate(8).unwrap();
    assert_eq!(p3.addr(), p1.addr());
    // Addresses outside the managed range are ignored.
    a.free(0x10, 8);
    a.free(0x10_0000 + 40 * 4096, 8);
    assert_eq!(a.slab_count(), 1);
}

#[test]
fn allocator_runs_out_of_slabs() {
    let mut a = SlabAllocator::new(0x10_0000);
    let mut n = 0;
    while a.allocate(512).is_some() {
        n += 1;
    }
    assert_eq!(n, 32 * 8);
    assert_eq!(a.slab_count(), 32);
    assert!(a.allocate(16).is_none());
}

#[test]
fn allocator_refuses_objects_no_slab_fits() {
    let mut a = SlabAllocator::new(0);
    assert!(a.allocate(1000).is_none());
    assert!(a.allocate(513).is_none());
    assert_eq!(a.slab_count(), 0);
    assert!(a.allocate(512).is_some());
    assert_eq!(a.slab_count(), 1);
}

#[test]
fn live_blocks_never_overlap() {
    let mut a = SlabAllocator::new(0x10_0000);
    let mut live: Vec<(usize, usize)> = Vec::new();
    let sizes = [8usize, 40, 100, 300, 16, 500, 60];
    for round in 0..200usize {
        let bytes = sizes[round % sizes.len()];
        if round % 3 == 2 && !live.is_empty() {
            let (addr, b) = live.remove(round % live.len());
            a.free(addr as u64, b);
        }
        if let Some(p) = a.allocate(bytes) {
            let size = SlabSize::for_bytes(bytes).0 as usize;
            for &(addr, b) in &live {
                let s2 = SlabSize::for_bytes(b).0 as usize;
                assert!(p.addr() + size <= addr || addr + s2 <= p.addr());
            }
            live.push((p.addr(), bytes));
        }
    }
    assert!(!live.is_empty());
}
