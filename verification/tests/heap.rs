use xgc::{Color, ColoredPtr, MarkPhase, RuntimeError, Xgc};

#[test]
fn new_rejects_zero_and_too_many_regions() {
    assert!(matches!(Xgc::new(0), Err(RuntimeError::OutOfMemory)));
    assert!(matches!(Xgc::new(4097), Err(RuntimeError::OutOfMemory)));
    assert!(Xgc::new(4096).is_ok());
}

#[test]
fn init_and_shutdown_alternate() {
    let mut gc = Xgc::new(16).unwrap();
    assert_eq!(gc.shutdown(), Err(RuntimeError::NotInitialized));
    assert_eq!(gc.init(), Ok(()));
    assert_eq!(gc.init(), Err(RuntimeError::AlreadyInitialized));
    assert_eq!(gc.shutdown(), Ok(()));
    assert_eq!(gc.init(), Ok(()));
}

#[test]
fn mark_cycle_lifecycle() {
    let mut gc = Xgc::new(16).unwrap();
    assert_eq!(gc.phase(), MarkPhase::Idle);
    assert_eq!(gc.allocation_color(), Color::White);
    assert_eq!(gc.begin_mark(), Ok(1));
    assert_eq!(gc.phase(), MarkPhase::Marking);
    assert_eq!(gc.allocation_color(), Color::Grey);
    assert_eq!(gc.begin_mark(), Err(RuntimeError::AlreadyMarking));
    let a = ColoredPtr::new(0x100, Color::Grey);
    let b = ColoredPtr::new(0x200, Color::Grey);
    gc.push_root(a).unwrap();
    gc.push_root(b).unwrap();
    assert_eq!(gc.pop_work(), Some(b));
    gc.finish_mark();
    assert_eq!(gc.phase(), MarkPhase::Idle);
    assert_eq!(gc.begin_mark(), Ok(2));
    assert_eq!(gc.pop_work(), None);
    assert_eq!(gc.epoch(), 2);
    assert_eq!(gc.cycle_count(), 2);
}

#[test]
fn relocation_skips_pinned_objects() {
    let mut gc = Xgc::new(16).unwrap();
    let pinned = ColoredPtr::new(0x1000, Color::White);
    let moved = ColoredPtr::new(0x2000, Color::White);
    let h = gc.pin(pinned).unwrap();
    gc.begin_relocate();
    assert_eq!(gc.phase(), MarkPhase::Relocating);
    gc.record_move(pinned, ColoredPtr::new(0x9000, Color::White)).unwrap();
    gc.record_move(moved, ColoredPtr::new(0xa000, Color::White)).unwrap();
    assert_eq!(gc.forward(pinned), pinned);
    assert_eq!(gc.forward(moved).addr(), 0xa000);
    let stats = gc.finish_relocate();
    assert_eq!(stats.moved, 1);
    assert_eq!(stats.skipped, 1);
    assert_eq!(gc.phase(), MarkPhase::Idle);
    assert_eq!(gc.forward(moved), moved);
    assert!(gc.unpin(h));
}

#[test]
fn barrier_records_go_through() {
    let mut gc = Xgc::new(1).unwrap();
    let p = ColoredPtr::new(0x40, Color::White);
    for _ in 0..256 {
        gc.satb_record(p).unwrap();
        gc.ref_update_record(8, p).unwrap();
    }
    assert_eq!(gc.satb_record(p), Err(RuntimeError::StackOverflow));
    assert_eq!(gc.ref_update_record(8, p), Err(RuntimeError::StackOverflow));
}

#[test]
fn allocation_size_adds_header_and_rounds_to_64() {
    let mut gc = Xgc::new(1).unwrap();
    assert_eq!(gc.allocation_size(0), Ok(64));
    assert_eq!(gc.allocation_size(52), Ok(64));
    assert_eq!(gc.allocation_size(53), Ok(128));
    assert_eq!(gc.allocation_size(1000), Ok(1024));
    assert_eq!(gc.allocation_size(isize::MAX as usize), Err(RuntimeError::OutOfMemory));
}

#[test]
fn should_collect_after_enough_allocation() {
    let mut gc = Xgc::new(1).unwrap();
    assert!(!gc.should_collect());
    // Before any cycle, any allocation calls for a first collection.
    gc.allocation_size(16).unwrap();
    assert!(gc.should_collect());
    gc.finish_mark();
    assert!(!gc.should_collect());
    gc.allocation_size(800_000).unwrap();
    assert!(!gc.should_collect());
    gc.allocation_size(100_000).unwrap();
    assert!(gc.should_collect());
    gc.finish_mark();
    assert!(!gc.should_collect());
}

#[test]
fn sweep_frees_white_unpinned_objects() {
    let mut gc = Xgc::new(1).unwrap();
    gc.track_allocation(0x1000, 64);
    gc.track_allocation(0x2000, 128);
    gc.track_allocation(0x3000, 64);
    gc.track_allocation(0x4000, 256);
    gc.pin(ColoredPtr::new(0x3000, Color::White)).unwrap();
    assert_eq!(gc.scan_objects(), vec![0x1000, 0x2000, 0x3000, 0x4000]);
    let colors = vec![Color::White, Color::Black, Color::White, Color::White];
    let (freed, reclaimed, gone) = gc.sweep(&colors);
    assert_eq!(freed, 2);
    assert_eq!(reclaimed, 320);
    assert_eq!(gone.iter().map(|o| o.base).collect::<Vec<_>>(), vec![0x1000, 0x4000]);
    assert_eq!(gc.scan_objects(), vec![0x2000, 0x3000]);
    // A second sweep with the kept objects' colors frees nothing.
    let again = vec![Color::Black, Color::White];
    assert!(gc.sweep_fits(&again));
    let (freed, reclaimed, gone) = gc.sweep(&again);
    assert_eq!((freed, reclaimed, gone.len()), (0, 0, 0));
    assert_eq!(gc.scan_objects(), vec![0x2000, 0x3000]);
}

#[test]
fn sweep_fits_checks_colors_and_totals() {
    let mut gc = Xgc::new(1).unwrap();
    gc.track_allocation(0x1000, usize::MAX);
    gc.track_allocation(0x2000, usize::MAX);
    assert!(!gc.sweep_fits(&vec![Color::White]));
    assert!(gc.sweep_fits(&vec![Color::White, Color::Black]));
    assert!(!gc.sweep_fits(&vec![Color::White, Color::White]));
}
