//! NUMA node id: opaque identifier for a non-uniform memory access node.
use vstd::prelude::*;

verus! {

/// Opaque NUMA node identifier. Node 0 is the local node by default;
/// `u8::MAX` stands for "any node".
#[derive(Debug, Clone, Copy, PartialEq, Eq, Hash, Default, Structural)]
pub struct NodeId(pub u8);

impl NodeId {
    /// The local node (node 0).
    pub fn local() -> (r: NodeId)
        ensures
            r == NodeId(0),
    {
        NodeId(0)
    }

    /// "Any node" (`u8::MAX`).
    pub fn any() -> (r: NodeId)
        ensures
            r == NodeId(u8::MAX),
    {
        NodeId(u8::MAX)
    }

    /// Construct a node id.
    pub fn new(id: u8) -> (r: NodeId)
        ensures
            r == NodeId(id),
    {
        NodeId(id)
    }

    /// Raw node number.
    pub fn raw(self) -> (r: u8)
        ensures
            r == self.0,
    {
        self.0
    }

    /// Whether the node id is valid (not the "any node" sentinel).
    pub fn is_valid(self) -> (r: bool)
        ensures
            r == (self.0 != u8::MAX),
    {
        self.0 != u8::MAX
    }
}

} // verus!
