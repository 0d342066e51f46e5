use xgc::{NodeId, NumaTopology};

#[test]
fn node_ids() {
    let n = NodeId::new(3);
    assert_eq!(n.raw(), 3);
    assert!(n.is_valid());
    assert!(!NodeId(u8::MAX).is_valid());
    assert_eq!(NodeId::default(), NodeId(0));
}

#[test]
fn register_and_query_capacity() {
    let mut t = NumaTopology::new();
    assert_eq!(t.node_count(), 0);
    assert!(t.capacity(NodeId(0)).is_none());
    t.register(NodeId(0), 1000);
    t.register(NodeId(1), 2000);
    assert_eq!(t.node_count(), 2);
    assert_eq!(t.capacity(NodeId(1)).unwrap().total_bytes, 2000);
    for i in 0..20u8 {
        t.register(NodeId(10 + i), 1);
    }
    assert_eq!(t.node_count(), 16);
}

#[test]
fn reserve_and_release() {
    let mut t = NumaTopology::default();
    t.register(NodeId(0), 1000);
    assert!(t.reserve(NodeId(0), 600));
    assert!(!t.reserve(NodeId(0), 500));
    assert!(!t.reserve(NodeId(9), 1));
    let c = *t.capacity(NodeId(0)).unwrap();
    assert_eq!((c.used_bytes, c.region_count), (600, 1));
    t.release(NodeId(0), 600);
    let c = *t.capacity(NodeId(0)).unwrap();
    assert_eq!((c.used_bytes, c.region_count), (0, 0));
    t.release(NodeId(0), 600);
    let c = *t.capacity(NodeId(0)).unwrap();
    assert_eq!((c.used_bytes, c.region_count), (0, 0));
}

#[test]
fn most_free_prefers_last_among_ties() {
    let mut t = NumaTopology::new();
    assert_eq!(t.most_free(), None);
    t.register(NodeId(0), 1000);
    t.register(NodeId(1), 3000);
    t.register(NodeId(2), 3000);
    t.register(NodeId(3), 500);
    assert_eq!(t.most_free(), Some(NodeId(2)));
    t.reserve(NodeId(2), 1);
    assert_eq!(t.most_free(), Some(NodeId(1)));
}
