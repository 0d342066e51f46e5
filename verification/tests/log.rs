use xgc::log::{EventKind, EventLog, GcEvent};

#[test]
fn event_labels() {
    assert_eq!(EventKind::Init.label(), "init");
    assert_eq!(EventKind::MarkStart.label(), "mark.start");
    assert_eq!(EventKind::RelocateEnd.label(), "reloc.end");
    assert_eq!(EventKind::Error.label(), "error");
    let e = GcEvent::new(EventKind::Alloc, 5, 6);
    assert_eq!((e.kind, e.t_ms, e.value), (EventKind::Alloc, 5, 6));
}

#[test]
fn log_keeps_events_in_order() {
    let mut log = EventLog::new();
    assert!(log.is_empty());
    log.record(EventKind::MarkStart, 1, 10);
    log.record(EventKind::MarkEnd, 2, 20);
    assert_eq!(log.total(), 2);
    assert_eq!(log.len(), 2);
    let evs = log.iter_chrono();
    assert_eq!(evs.len(), 2);
    assert_eq!(evs[0].kind, EventKind::MarkStart);
    assert_eq!(evs[1].value, 20);
}

#[test]
fn log_overwrites_oldest_when_full() {
    let mut log = EventLog::default();
    for i in 0..300u64 {
        log.record(EventKind::Cycle, i, i * 2);
    }
    assert_eq!(log.total(), 300);
    assert_eq!(log.len(), 256);
    let evs = log.iter_chrono();
    assert_eq!(evs.len(), 256);
    assert_eq!(evs[0].t_ms, 44);
    assert_eq!(evs[255].t_ms, 299);
    for w in evs.windows(2) {
        assert_eq!(w[0].t_ms + 1, w[1].t_ms);
    }
}
