//! Cluster membership: its size and node records.

use vstd::prelude::*;

verus! {

/// A handle on the service; it holds no state.
#[derive(Debug, Clone, Copy, PartialEq, Eq, Structural)]
pub struct ClusterManager;

/// A handle on the service; it holds no state.
#[derive(Debug, Clone, Copy, PartialEq, Eq, Structural)]
pub struct NodeManager;

/// The service's configuration.
#[derive(Debug, Clone, Copy, PartialEq, Eq, Structural)]
pub struct ClusterConfig {
    pub node_count: usize,
}

impl Default for ClusterConfig {
    /// A single node.
    fn default() -> (c: Self)
        ensures
            c == (ClusterConfig { node_count: 1 }),
    {
        ClusterConfig { node_count: 1 }
    }
}

/// A node of the cluster and its status.
#[derive(Debug, Clone)]
pub struct NodeInfo {
    pub id: String,
    pub status: String,
}

} // verus!
