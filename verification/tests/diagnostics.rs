use xgc::diagnostics::dump::{HeapDump, dump_region_table};
use xgc::diagnostics::stats::{GcStats, format_stats};
use xgc::RegionTable;

#[test]
fn heap_dump_writes_and_reads_lines() {
    let mut d = HeapDump::new();
    assert_eq!(d.line_count(), 0);
    d.write_line("hello");
    assert_eq!(d.line_count(), 1);
    assert_eq!(d.get_line(0), b"hello");
    assert_eq!(d.get_line(1), b"");
}

#[test]
fn heap_dump_truncates_long_lines_and_caps_lines() {
    let mut d = HeapDump::default();
    let long = "x".repeat(100);
    d.write_line(&long);
    assert_eq!(d.get_line(0).len(), 64);
    for _ in 0..70 {
        d.write_line("y");
    }
    assert_eq!(d.line_count(), 64);
    assert_eq!(d.get_line(63), b"y");
}

#[test]
fn dump_region_table_summarizes_regions() {
    let mut t = RegionTable::new(3).unwrap();
    t.get_mut(1).unwrap().start = 0x4000_0000;
    let mut d = HeapDump::new();
    dump_region_table(&t, &mut d);
    assert_eq!(d.line_count(), 4);
    assert_eq!(d.get_line(0), b"=== Region Table Dump ===");
    assert_eq!(d.get_line(1), b"R: bound");
    assert_eq!(d.get_line(2), b"R: free");
    assert_eq!(d.get_line(3), b"R: bound");
}

#[test]
fn dump_region_table_caps_at_63_regions() {
    let t = RegionTable::new(100).unwrap();
    let mut d = HeapDump::new();
    dump_region_table(&t, &mut d);
    assert_eq!(d.line_count(), 64);
}

#[test]
fn gc_stats_counters() {
    let mut s = GcStats::new();
    s.record_alloc(100);
    s.record_alloc(u64::MAX);
    assert_eq!(s.bytes_allocated, u64::MAX);
    s.record_free(40);
    assert_eq!(s.bytes_freed, 40);
    s.update_peak(10);
    s.update_peak(5);
    assert_eq!(s.peak_live_bytes, 10);
    let mut t = GcStats::default();
    t.record_alloc(100);
    t.record_free(30);
    assert_eq!(t.live_bytes(), 70);
    t.record_free(100);
    assert_eq!(t.live_bytes(), -30);
    assert_eq!(format_stats(&t).addr(), 96);
}
