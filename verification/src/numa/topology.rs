//! NUMA topology: maps regions to nodes and tracks per-node capacity.
use crate::numa::node::NodeId;
use vstd::prelude::*;

verus! {

/// Maximum number of registered nodes.
pub const MAX_NODES: usize = 16;

/// One NUMA node's capacity.
#[derive(Debug, Clone, Copy, Default, PartialEq, Eq, Structural)]
pub struct NodeCapacity {
    pub node: NodeId,
    pub total_bytes: u64,
    pub used_bytes: u64,
    pub region_count: u32,
}

/// Free bytes of a node (zero if over-committed).
pub open spec fn free_of(n: NodeCapacity) -> int {
    if n.total_bytes >= n.used_bytes {
        n.total_bytes - n.used_bytes
    } else {
        0
    }
}

/// The first registered node with id `id`, searching from `from`.
pub open spec fn find_node(v: Seq<NodeCapacity>, id: NodeId, from: int) -> Option<int>
    decreases v.len() - from,
{
    if from < 0 || from >= v.len() {
        None
    } else if v[from].node == id {
        Some(from)
    } else {
        find_node(v, id, from + 1)
    }
}

/// Among the first `n` nodes, the index of one with the most free space;
/// of several such nodes the last wins.
pub open spec fn most_free_upto(v: Seq<NodeCapacity>, n: int) -> Option<int>
    decreases n,
{
    if n <= 0 {
        None
    } else {
        match most_free_upto(v, n - 1) {
            Some(b) => if free_of(v[n - 1]) >= free_of(v[b]) {
                Some(n - 1)
            } else {
                Some(b)
            },
            None => Some(n - 1),
        }
    }
}

/// The nodes after `reserve(id, bytes)`, and what it returns.
pub open spec fn reserve_spec(v: Seq<NodeCapacity>, id: NodeId, bytes: u64) -> (Seq<NodeCapacity>, bool) {
    match find_node(v, id, 0) {
        Some(i) => if free_of(v[i]) >= bytes {
            (
                v.update(
                    i,
                    NodeCapacity {
                        used_bytes: (v[i].used_bytes + bytes) as u64,
                        region_count: (v[i].region_count + 1) as u32,
                        ..v[i]
                    },
                ),
                true,
            )
        } else {
            (v, false)
        },
        None => (v, false),
    }
}

/// The nodes after `release(id, bytes)`.
pub open spec fn release_spec(v: Seq<NodeCapacity>, id: NodeId, bytes: u64) -> Seq<NodeCapacity> {
    match find_node(v, id, 0) {
        Some(i) => v.update(
            i,
            NodeCapacity {
                used_bytes: if v[i].used_bytes >= bytes {
                    (v[i].used_bytes - bytes) as u64
                } else {
                    0
                },
                region_count: if v[i].region_count > 0 {
                    (v[i].region_count - 1) as u32
                } else {
                    0
                },
                ..v[i]
            },
        ),
        None => v,
    }
}

/// NUMA topology.
pub struct NumaTopology {
    nodes: Vec<NodeCapacity>,
    active: u8,
}

impl View for NumaTopology {
    type V = Seq<NodeCapacity>;

    /// The registered nodes, in registration order.
    closed spec fn view(&self) -> Seq<NodeCapacity> {
        self.nodes@.take(self.active as int)
    }
}

impl NumaTopology {
    /// Internal consistency: `MAX_NODES` slots, `active` of them in use.
    pub closed spec fn wf(&self) -> bool {
        &&& self.nodes@.len() == MAX_NODES
        &&& self.active <= MAX_NODES
    }

    /// Construct an empty topology.
    pub fn new() -> (r: NumaTopology)
        ensures
            r.wf(),
            r@ == Seq::<NodeCapacity>::empty(),
    {
        let mut nodes: Vec<NodeCapacity> = Vec::new();
        while nodes.len() < MAX_NODES
            invariant
                nodes@.len() <= MAX_NODES,
            decreases MAX_NODES - nodes@.len(),
        {
            nodes.push(NodeCapacity { node: NodeId(0), total_bytes: 0, used_bytes: 0, region_count: 0 });
        }
        let r = NumaTopology { nodes, active: 0 };
        assert(r@ =~= Seq::<NodeCapacity>::empty());
        r
    }

    /// Register a node with `total_bytes` of capacity (ignored when
    /// `MAX_NODES` nodes are registered).
    pub fn register(&mut self, id: NodeId, total_bytes: u64)
        requires
            old(self).wf(),
        ensures
            final(self).wf(),
            old(self)@.len() >= MAX_NODES ==> final(self)@ == old(self)@,
            old(self)@.len() < MAX_NODES ==> final(self)@ == old(self)@.push(
                NodeCapacity { node: id, total_bytes, used_bytes: 0, region_count: 0 },
            ),
    {
        if (self.active as usize) >= MAX_NODES {
            return;
        }
        self.nodes.set(
            self.active as usize,
            NodeCapacity { node: id, total_bytes, used_bytes: 0, region_count: 0 },
        );
        self.active = self.active + 1;
        assert(self@ =~= old(self)@.push(
            NodeCapacity { node: id, total_bytes, used_bytes: 0, region_count: 0 },
        ));
    }

    /// Get capacity for a node (the first registered with that id).
    pub fn capacity(&self, id: NodeId) -> (r: Option<&NodeCapacity>)
        requires
            self.wf(),
        ensures
            r == match find_node(self@, id, 0) {
                Some(i) => Some(&self@[i]),
                None => None,
            },
    {
        let mut i: usize = 0;
        while i < self.active as usize
            invariant
                self.wf(),
                i <= self.active,
                find_node(self@, id, 0) == find_node(self@, id, i as int),
            decreases self.active - i,
        {
            if self.nodes[i].node == id {
                return Some(&self.nodes[i]);
            }
            i = i + 1;
        }
        None
    }

    /// Get the node with the most free space (the last one among ties).
    pub fn most_free(&self) -> (r: Option<NodeId>)
        requires
            self.wf(),
        ensures
            r == match most_free_upto(self@, self@.len() as int) {
                Some(i) => Some(self@[i].node),
                None => None,
            },
            r is None <==> self@.len() == 0,
            r matches Some(id) ==> exists|i: int|
                0 <= i < self@.len() && self@[i].node == id && forall|j: int|
                    0 <= j < self@.len() ==> free_of(#[trigger] self@[j]) <= free_of(self@[i]),
    {
        proof {
            law_most_free_is_max(self@, self@.len() as int);
        }
        let mut best: Option<usize> = None;
        let mut best_free: u64 = 0;
        let mut i: usize = 0;
        while i < self.active as usize
            invariant
                self.wf(),
                i <= self.active,
                best == match most_free_upto(self@, i as int) {
                    Some(b) => Some(b as usize),
                    None => None::<usize>,
                },
                most_free_upto(self@, i as int) matches Some(b) ==> 0 <= b < i && best_free
                    == free_of(self@[b]),
            decreases self.active - i,
        {
            let n = self.nodes[i];
            let f = n.total_bytes.saturating_sub(n.used_bytes);
            if best.is_none() || f >= best_free {
                best = Some(i);
                best_free = f;
            }
            i = i + 1;
        }
        match best {
            Some(b) => Some(self.nodes[b].node),
            None => None,
        }
    }

    /// Number of registered nodes.
    pub fn node_count(&self) -> (r: u8)
        requires
            self.wf(),
        ensures
            r == self@.len(),
    {
        self.active
    }

    /// Reserve `bytes` on `node` if it has that much free; counts one more
    /// region there. Returns whether the reservation was made.
    pub fn reserve(&mut self, node: NodeId, bytes: u64) -> (r: bool)
        requires
            old(self).wf(),
            find_node(old(self)@, node, 0) matches Some(i) ==> old(self)@[i].region_count
                < u32::MAX,
        ensures
            final(self).wf(),
            (final(self)@, r) == reserve_spec(old(self)@, node, bytes),
    {
        let mut i: usize = 0;
        while i < self.active as usize
            invariant
                self.wf(),
                self@ == old(self)@,
                self.active == old(self).active,
                i <= self.active,
                find_node(self@, node, 0) == find_node(self@, node, i as int),
                find_node(old(self)@, node, 0) matches Some(j) ==> old(self)@[j].region_count
                    < u32::MAX,
            decreases self.active - i,
        {
            let n = self.nodes[i];
            if n.node == node {
                if n.total_bytes.saturating_sub(n.used_bytes) >= bytes {
                    self.nodes.set(
                        i,
                        NodeCapacity {
                            used_bytes: n.used_bytes + bytes,
                            region_count: n.region_count + 1,
                            ..n
                        },
                    );
                    assert(self@ =~= reserve_spec(old(self)@, node, bytes).0);
                    return true;
                }
                return false;
            }
            i = i + 1;
        }
        false
    }

    /// Release `bytes` on `node` (saturating) and count one region fewer.
    pub fn release(&mut self, node: NodeId, bytes: u64)
        requires
            old(self).wf(),
        ensures
            final(self).wf(),
            final(self)@ == release_spec(old(self)@, node, bytes),
    {
        let mut i: usize = 0;
        while i < self.active as usize
            invariant
                self.wf(),
                self@ == old(self)@,
                self.active == old(self).active,
                i <= self.active,
                find_node(self@, node, 0) == find_node(self@, node, i as int),
            decreases self.active - i,
        {
            let n = self.nodes[i];
            if n.node == node {
                let rc = if n.region_count > 0 {
                    n.region_count - 1
                } else {
                    n.region_count
                };
                self.nodes.set(
                    i,
                    NodeCapacity {
                        used_bytes: n.used_bytes.saturating_sub(bytes),
                        region_count: rc,
                        ..n
                    },
                );
                assert(self@ =~= release_spec(old(self)@, node, bytes));
                return;
            }
            i = i + 1;
        }
    }
}

impl Default for NumaTopology {
    fn default() -> (r: NumaTopology)
        ensures
            r.wf(),
            r@ == Seq::<NodeCapacity>::empty(),
    {
        NumaTopology::new()
    }
}

/// A successful reservation is undone by releasing the same bytes on the
/// same node: the topology is back to what it was.
pub proof fn law_reserve_release(v: Seq<NodeCapacity>, id: NodeId, bytes: u64)
    requires
        find_node(v, id, 0) matches Some(i) ==> v[i].region_count < u32::MAX,
        reserve_spec(v, id, bytes).1,
    ensures
        release_spec(reserve_spec(v, id, bytes).0, id, bytes) == v,
{
    lemma_find_node(v, id, 0);
    let i = find_node(v, id, 0)->0;
    let v2 = reserve_spec(v, id, bytes).0;
    lemma_find_node_update(v, id, i, v2[i]);
    assert(release_spec(v2, id, bytes) =~= v);
}

/// What `find_node` finds.
pub proof fn lemma_find_node(v: Seq<NodeCapacity>, id: NodeId, from: int)
    requires
        0 <= from,
    ensures
        find_node(v, id, from) matches Some(i) ==> from <= i < v.len() && v[i].node == id
            && forall|j: int| from <= j < i ==> v[j].node != id,
        find_node(v, id, from) is None ==> forall|j: int| from <= j < v.len() ==> v[j].node != id,
    decreases v.len() - from,
{
    if from < v.len() {
        lemma_find_node(v, id, from + 1);
    }
}

/// Updating the found node without changing its id keeps it the one found.
pub proof fn lemma_find_node_update(v: Seq<NodeCapacity>, id: NodeId, i: int, n: NodeCapacity)
    requires
        find_node(v, id, 0) == Some(i),
        n.node == id,
    ensures
        find_node(v.update(i, n), id, 0) == Some(i),
{
    lemma_find_node(v, id, 0);
    let v2 = v.update(i, n);
    lemma_find_node(v2, id, 0);
    assert(v2[i].node == id);
    match find_node(v2, id, 0) {
        Some(k) => {
            if k < i {
                assert(v2[k] == v[k]);
            }
        },
        None => {},
    }
}

/// The node picked as having the most free space has at least as many free
/// bytes as every node considered, and a node is picked whenever some node
/// is considered.
pub proof fn law_most_free_is_max(v: Seq<NodeCapacity>, n: int)
    requires
        0 <= n <= v.len(),
    ensures
        most_free_upto(v, n) is None <==> n == 0,
        most_free_upto(v, n) matches Some(i) ==> 0 <= i < n && forall|j: int|
            0 <= j < n ==> free_of(#[trigger] v[j]) <= free_of(v[i]),
    decreases n,
{
    if n > 0 {
        law_most_free_is_max(v, n - 1);
    }
}

} // verus!
