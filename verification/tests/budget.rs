use xgc::{BudgetTracker, CycleBudget, Instant, duration_ms};

#[test]
fn elapsed_saturates_at_zero() {
    let a = Instant::from_ms(100);
    let b = Instant::from_ms(250);
    assert_eq!(a.ms(), 100);
    assert_eq!(a.elapsed_ms(b), 150);
    assert_eq!(b.elapsed_ms(a), 0);
    assert_eq!(duration_ms(a, b), 150);
    assert_eq!(duration_ms(a, a), 0);
}

#[test]
fn budget_presets() {
    let s = CycleBudget::default_soft();
    assert_eq!((s.mark_ms, s.sweep_ms, s.relocate_ms, s.remap_ms), (5, 5, 5, 5));
    let g = CycleBudget::default_generous();
    assert_eq!((g.mark_ms, g.sweep_ms, g.relocate_ms, g.remap_ms), (50, 20, 50, 10));
    let u = CycleBudget::unbounded();
    assert_eq!(u.mark_ms, u64::MAX);
}

#[test]
fn tracker_detects_exceeded_phases() {
    let mut t = BudgetTracker::new(CycleBudget::default_soft(), Instant::from_ms(1000));
    assert_eq!(t.elapsed(), 0);
    t.tick(Instant::from_ms(1003));
    assert_eq!(t.elapsed(), 3);
    assert!(!t.mark_exceeded());
    assert!(!t.sweep_exceeded());
    assert!(!t.relocate_exceeded());
    assert!(!t.remap_exceeded());
    t.tick(Instant::from_ms(1005));
    assert!(!t.mark_exceeded());
    t.tick(Instant::from_ms(1006));
    assert!(t.mark_exceeded());
    assert!(t.sweep_exceeded());
    assert!(t.relocate_exceeded());
    assert!(t.remap_exceeded());
    t.reset(Instant::from_ms(2000));
    assert_eq!(t.elapsed(), 0);
    t.tick(Instant::from_ms(1500));
    assert_eq!(t.elapsed(), 0);
}

#[test]
fn unbounded_budget_never_exceeded() {
    let mut t = BudgetTracker::new(CycleBudget::unbounded(), Instant::from_ms(0));
    t.tick(Instant::from_ms(u64::MAX));
    assert!(!t.mark_exceeded() && !t.sweep_exceeded() && !t.relocate_exceeded() && !t.remap_exceeded());
}
