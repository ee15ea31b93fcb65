use vstd::prelude::*;

use std::collections::HashMap;

use crate::raft::NodeId;

verus! {

/// A network whose nodes share one address space.
pub struct SharedMemoryNetwork {
    connections: HashMap<NodeId, Connection>,
}

/// A connection to one node of a shared-memory network.
pub struct Connection {}

impl View for SharedMemoryNetwork {
    type V = Map<NodeId, Connection>;

    /// The open connections, by node.
    closed spec fn view(&self) -> Map<NodeId, Connection> {
        self.connections@
    }
}

impl SharedMemoryNetwork {
    /// A network with no connection.
    pub fn new() -> (n: Self)
        ensures
            n@ == Map::<NodeId, Connection>::empty(),
    {
        Self { connections: HashMap::new() }
    }
}

} // verus!
