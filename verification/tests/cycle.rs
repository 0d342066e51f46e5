use xgc::{Color, ColoredPtr, CycleCandidate, CycleDetector, CycleQueue, CycleStats, RuntimeError, WeakRef, WeakTable};

fn cand(w: u32) -> CycleCandidate {
    CycleCandidate { object: ColoredPtr::new(0x100 * w as usize, Color::White), weak_ref: w }
}

#[test]
fn cycle_queue_is_fifo_and_rewinds() {
    let mut q = CycleQueue::new();
    assert!(q.is_empty());
    q.enqueue(cand(1)).unwrap();
    q.enqueue(cand(2)).unwrap();
    assert_eq!(q.len(), 2);
    assert_eq!(q.dequeue().unwrap().weak_ref, 1);
    assert_eq!(q.len(), 1);
    assert_eq!(q.dequeue().unwrap().weak_ref, 2);
    assert_eq!(q.len(), 0);
    assert!(q.is_empty());
    assert!(q.dequeue().is_none());
}

#[test]
fn cycle_queue_full_after_capacity_slots() {
    let mut q = CycleQueue::default();
    for i in 0..64u32 {
        q.enqueue(cand(i)).unwrap();
    }
    assert_eq!(q.enqueue(cand(99)), Err(RuntimeError::StackOverflow));
    q.dequeue();
    assert_eq!(q.enqueue(cand(99)), Err(RuntimeError::StackOverflow));
}

#[test]
fn run_pass_counts_dead_references() {
    let mut wt = WeakTable::new();
    let live = wt.create(ColoredPtr::new(0x500, Color::White)).unwrap();
    let mut d = CycleDetector::new();
    assert_eq!(d.pending(), 0);
    d.submit(cand(live.0));
    d.submit(cand(live.0 + 100));
    d.submit(cand(live.0 + 200));
    assert_eq!(d.pending(), 3);
    let stats = d.run_pass(&wt);
    assert_eq!(stats.candidates, 3);
    assert_eq!(stats.reclaimed, 2);
    assert_eq!(d.pending(), 0);
    assert!(wt.contains(WeakRef(live.0)));
}

#[test]
fn should_dfs_above_threshold() {
    let mut d = CycleDetector::default();
    assert_eq!(d.dfs_threshold, 8);
    for i in 0..8u32 {
        d.submit(cand(i));
    }
    assert_eq!(d.pending(), 8);
    assert!(!d.should_dfs());
    d.submit(cand(8));
    assert!(d.should_dfs());
    d.reset_stats();
    assert_eq!(d.pending(), 9);
}

#[test]
fn cycle_stats_start_at_zero() {
    let s = CycleStats::new();
    assert_eq!((s.candidates, s.reclaimed), (0, 0));
    let d = CycleStats::default();
    assert_eq!((d.candidates, d.reclaimed), (0, 0));
}
