use xgc::profile::AllocProfiler;
use xgc::{SiteId, SiteStats};

#[test]
fn site_stats_live_bytes() {
    let mut s = SiteStats::new();
    s.record_alloc(100);
    s.record_alloc(50);
    s.record_free(30);
    assert_eq!(s.alloc_count, 2);
    assert_eq!(s.alloc_bytes, 150);
    assert_eq!(s.live_bytes(), 120);
    s.record_free(500);
    assert_eq!(s.live_bytes(), 0);
}

#[test]
fn alloc_then_free_restores_live() {
    let mut s = SiteStats::new();
    s.record_alloc(10);
    let before = s.live_bytes();
    s.record_alloc(64);
    s.record_free(64);
    assert_eq!(s.live_bytes(), before);
}

#[test]
fn profiler_records_per_site() {
    let mut p = AllocProfiler::new();
    assert_eq!(p.site_count(), 0);
    assert!(p.get(SiteId(1)).is_none());
    p.record_alloc(SiteId(1), 100);
    p.record_alloc(SiteId(2), 40);
    p.record_alloc(SiteId(1), 20);
    assert_eq!(p.site_count(), 2);
    assert_eq!(p.get(SiteId(1)).unwrap().alloc_count, 2);
    assert_eq!(p.get(SiteId(1)).unwrap().alloc_bytes, 120);
    assert_eq!(p.total_alloc_bytes(), 160);
    p.record_free(SiteId(1), 70);
    assert_eq!(p.get(SiteId(1)).unwrap().live_bytes(), 50);
    // A free at an unknown site is ignored.
    p.record_free(SiteId(9), 5);
    assert!(p.get(SiteId(9)).is_none());
}

#[test]
fn profiler_keeps_distinct_sites_apart() {
    let mut p = AllocProfiler::new();
    p.record_alloc(SiteId(1), 10);
    p.record_alloc(SiteId(65), 20);
    assert_eq!(p.site_count(), 2);
    assert_eq!(p.get(SiteId(1)).unwrap().alloc_bytes, 10);
    assert_eq!(p.get(SiteId(65)).unwrap().alloc_bytes, 20);
}

#[test]
fn profiler_tracks_at_most_its_slot_count() {
    let mut p = AllocProfiler::new();
    for i in 0..64u32 {
        p.record_alloc(SiteId(i), 1);
    }
    assert_eq!(p.site_count(), 64);
    p.record_alloc(SiteId(1000), 5);
    assert_eq!(p.site_count(), 64);
    assert!(p.get(SiteId(1000)).is_none());
    p.record_alloc(SiteId(3), 5);
    assert_eq!(p.get(SiteId(3)).unwrap().alloc_bytes, 6);
}

#[test]
fn profiler_reset_keeps_sites() {
    let mut p = AllocProfiler::new();
    p.record_alloc(SiteId(4), 10);
    p.reset();
    assert_eq!(p.site_count(), 1);
    assert_eq!(p.get(SiteId(4)).unwrap().alloc_bytes, 0);
    assert_eq!(p.total_alloc_bytes(), 0);
}
