use xgc::{GcTrigger, PressureConfig, PressureMeter};

#[test]
fn default_config_and_trigger_bytes() {
    let c = PressureConfig::default_for(1000);
    assert_eq!(c.trigger_ratio, 80);
    assert_eq!(c.min_interval, 0);
    assert_eq!(c.trigger_bytes(), 800);
}

#[test]
fn meter_counts_and_saturates() {
    let mut m = PressureMeter::new();
    m.record_alloc(100);
    m.record_free(30);
    assert_eq!(m.live(), 70);
    m.record_alloc(u64::MAX);
    assert_eq!(m.allocated, u64::MAX);
    m.end_cycle();
    assert_eq!(m.allocated, 0);
    assert_eq!(m.freed, 30);
    assert_eq!(m.cycles, 1);
    assert_eq!(m.live(), -30);
}

#[test]
fn trigger_fires_at_threshold() {
    let c = PressureConfig::default_for(1000);
    let mut m = PressureMeter::new();
    let t = GcTrigger::new();
    assert!(!t.should_trigger(&c, &m, 0));
    m.record_alloc(1);
    // No cycle seen yet and some allocation: trigger.
    assert!(t.should_trigger(&c, &m, 0));
    m.end_cycle();
    m.record_alloc(799);
    assert!(!t.should_trigger(&c, &m, 0));
    m.record_alloc(1);
    assert!(t.should_trigger(&c, &m, 0));
}

#[test]
fn trigger_respects_min_interval() {
    let c = PressureConfig { heap_bytes: 1000, trigger_ratio: 50, min_interval: 3 };
    let mut m = PressureMeter::new();
    m.record_alloc(600);
    let mut t = GcTrigger::new();
    t.mark_triggered(5);
    assert!(!t.should_trigger(&c, &m, 5));
    assert!(!t.should_trigger(&c, &m, 7));
    assert!(t.should_trigger(&c, &m, 8));
}
