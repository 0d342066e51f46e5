use xgc::sched::deque::DEQUE_CAP;
use xgc::sched::pool::MAX_WORKERS;
use xgc::{Color, ColoredPtr, WorkDeque, WorkerPool};

fn p(n: usize) -> ColoredPtr {
    ColoredPtr::new(n * 0x100, Color::Grey)
}

#[test]
fn deque_pop_is_lifo_and_steal_is_fifo() {
    let mut d = WorkDeque::new();
    assert!(d.is_empty());
    assert!(d.push(p(1)));
    assert!(d.push(p(2)));
    assert!(d.push(p(3)));
    assert_eq!(d.len(), 3);
    assert_eq!(d.pop(), Some(p(3)));
    assert_eq!(d.steal(), Some(p(1)));
    assert_eq!(d.pop(), Some(p(2)));
    assert_eq!(d.pop(), None);
    assert_eq!(d.steal(), None);
    assert_eq!(d.capacity(), DEQUE_CAP);
}

#[test]
fn deque_push_fails_when_full() {
    let mut d = WorkDeque::new();
    for i in 0..DEQUE_CAP {
        assert!(d.push(p(i + 1)));
    }
    assert!(!d.push(p(99)));
    assert_eq!(d.len(), DEQUE_CAP);
}

#[test]
fn pool_register_and_steal() {
    let mut pool = WorkerPool::new();
    let a = pool.register().unwrap();
    let b = pool.register().unwrap();
    assert_eq!((a, b), (0, 1));
    assert_eq!(pool.worker_count(), 2);
    assert!(pool.local_push(a, p(1)));
    assert!(pool.local_push(a, p(2)));
    assert_eq!(pool.total_pending(), 2);
    // Worker b steals the oldest item of worker a.
    assert_eq!(pool.steal(b), Some(p(1)));
    // A thief never steals from itself.
    assert_eq!(pool.steal(a), None);
    assert_eq!(pool.local_pop(a), Some(p(2)));
    assert_eq!(pool.local_pop(b), None);
    assert_eq!(pool.total_pending(), 0);
}

#[test]
fn pool_register_caps_workers() {
    let mut pool = WorkerPool::new();
    for i in 0..MAX_WORKERS {
        assert_eq!(pool.register(), Some(i as u8));
    }
    assert_eq!(pool.register(), None);
}

#[test]
fn deque_reuses_slots_freed_by_steals() {
    let mut d = WorkDeque::new();
    for i in 0..DEQUE_CAP {
        assert!(d.push(p(i + 1)));
    }
    assert_eq!(d.steal(), Some(p(1)));
    assert!(d.push(p(100)));
    assert_eq!(d.len(), DEQUE_CAP);
    assert!(!d.push(p(101)));
    assert_eq!(d.steal(), Some(p(2)));
    assert_eq!(d.pop(), Some(p(100)));
    assert_eq!(d.pop(), Some(p(DEQUE_CAP)));
    for _ in 0..DEQUE_CAP {
        d.steal();
    }
    assert!(d.is_empty());
    assert!(d.push(p(7)));
    assert_eq!(d.len(), 1);
}
