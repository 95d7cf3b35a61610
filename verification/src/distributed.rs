//! Distributed execution of WASM plugin tasks: the node registry, the task
//! scheduler, load balancing, failure detection and message routing.

use std::collections::hash_map::DefaultHasher;
use std::collections::HashMap;
use std::hash::{Hash, Hasher};
use vstd::prelude::*;
use crate::seqs::{lemma_filter_no_duplicates, lemma_filter_push};
use crate::text::{clone_strings, contains_str, seq_without, string_views, str_eq, without_str};
use crate::clock::{system_now_millis, DURATION_MAX_NANOS};
use crate::keyed::KeyedList;
use crate::text::owned;
use crate::wasm_error::{WasmError, WasmResult};

verus! {

/// The role a node plays in the cluster.
#[derive(Debug, Clone, Copy, PartialEq, Eq, Hash, Structural)]
pub enum NodeRole {
    /// Schedules tasks and manages the cluster.
    Coordinator,
    /// Executes plugin tasks.
    Worker,
    /// Both schedules and executes.
    Hybrid,
}

/// The health of a node.
#[derive(Debug, Clone, Copy, PartialEq, Eq, Structural)]
pub enum NodeStatus {
    /// Healthy.
    Healthy,
    /// Degraded.
    Warning,
    /// Failing.
    Unhealthy,
    /// Not reachable.
    Offline,
}

/// The load a node reports. Usage ratios are kept in thousandths
/// (0 stands for 0.0 and 1000 for 1.0).
#[derive(Debug, Clone, Copy, PartialEq, Eq, Structural)]
pub struct NodeLoadInfo {
    /// CPU usage, in thousandths.
    pub cpu_usage_permille: u32,
    /// Memory usage, in thousandths.
    pub memory_usage_permille: u32,
    /// Tasks running on the node.
    pub current_tasks: usize,
    /// The most tasks the node accepts.
    pub max_tasks: usize,
    /// Network latency in milliseconds.
    pub network_latency: u64,
    /// Tasks completed per second.
    pub throughput: u64,
}

/// A node of the cluster as the registry knows it.
#[derive(Debug, Clone)]
pub struct NodeInfo {
    /// Identifier, unique in a registry.
    pub node_id: String,
    /// Role in the cluster.
    pub role: NodeRole,
    /// Network address.
    pub address: String,
    /// Port.
    pub port: u16,
    /// Time of the last heartbeat, in milliseconds since the Unix epoch.
    pub last_heartbeat: u64,
    /// Health.
    pub status: NodeStatus,
    /// Reported load.
    pub load_info: NodeLoadInfo,
    /// Plugins the node runs; an empty list means every plugin.
    pub supported_plugins: Vec<String>,
    /// Free-form metadata.
    pub metadata: HashMap<String, String>,
}

/// The identifiers of a list of nodes, in order.
pub open spec fn node_ids(nodes: Seq<NodeInfo>) -> Seq<Seq<char>> {
    nodes.map_values(|n: NodeInfo| n.node_id@)
}

/// A list of nodes with distinct identifiers, read as a map from identifier to node.
pub open spec fn nodes_as_map(nodes: Seq<NodeInfo>) -> Map<Seq<char>, NodeInfo> {
    Map::new(
        |k: Seq<char>| node_ids(nodes).contains(k),
        |k: Seq<char>| nodes[node_ids(nodes).index_of(k)],
    )
}

/// Whether a node runs the plugin `plugin`.
pub open spec fn supports_plugin(node: NodeInfo, plugin: Seq<char>) -> bool {
    string_views(node.supported_plugins@).contains(plugin) || node.supported_plugins@.len() == 0
}

proof fn lemma_map_at(nodes: Seq<NodeInfo>, i: int)
    requires
        node_ids(nodes).no_duplicates(),
        0 <= i < nodes.len(),
    ensures
        nodes_as_map(nodes).contains_key(nodes[i].node_id@),
        nodes_as_map(nodes)[nodes[i].node_id@] == nodes[i],
{
    let ids = node_ids(nodes);
    assert(ids[i] == nodes[i].node_id@);
    assert(ids.contains(ids[i]));
    let j = ids.index_of(ids[i]);
    assert(0 <= j < ids.len() && ids[j] == ids[i]);
}

proof fn lemma_map_update(nodes: Seq<NodeInfo>, i: int, v: NodeInfo)
    requires
        node_ids(nodes).no_duplicates(),
        0 <= i < nodes.len(),
        nodes[i].node_id@ == v.node_id@,
    ensures
        node_ids(nodes.update(i, v)).no_duplicates(),
        nodes_as_map(nodes.update(i, v)) == nodes_as_map(nodes).insert(v.node_id@, v),
{
    let n2 = nodes.update(i, v);
    assert(node_ids(n2) =~= node_ids(nodes));
    let m1 = nodes_as_map(nodes).insert(v.node_id@, v);
    let m2 = nodes_as_map(n2);
    assert(node_ids(nodes)[i] == v.node_id@);
    assert(node_ids(nodes).contains(v.node_id@));
    assert forall|k: Seq<char>| #[trigger] m2.contains_key(k) == m1.contains_key(k) by {
        assert(m2.contains_key(k) == node_ids(n2).contains(k));
        assert(m1.contains_key(k) == (node_ids(nodes).contains(k) || k == v.node_id@));
    }
    assert forall|k: Seq<char>| m2.contains_key(k) implies #[trigger] m2[k] == m1[k] by {
        let j = node_ids(n2).index_of(k);
        assert(0 <= j < n2.len() && node_ids(n2)[j] == k);
        lemma_map_at(n2, j);
        if j != i {
            lemma_map_at(nodes, j);
        }
    }
    assert(m2 =~= m1);
}

proof fn lemma_map_push(nodes: Seq<NodeInfo>, v: NodeInfo)
    requires
        node_ids(nodes).no_duplicates(),
        !node_ids(nodes).contains(v.node_id@),
    ensures
        node_ids(nodes.push(v)).no_duplicates(),
        nodes_as_map(nodes.push(v)) == nodes_as_map(nodes).insert(v.node_id@, v),
{
    let n2 = nodes.push(v);
    assert(node_ids(n2) =~= node_ids(nodes).push(v.node_id@));
    assert forall|a: int, b: int| 0 <= a < node_ids(n2).len() && 0 <= b < node_ids(n2).len() && a != b
        implies node_ids(n2)[a] != node_ids(n2)[b] by {
        if a == nodes.len() as int {
            assert(node_ids(nodes)[b] == node_ids(n2)[b]);
        } else if b == nodes.len() as int {
            assert(node_ids(nodes)[a] == node_ids(n2)[a]);
        }
    }
    let m1 = nodes_as_map(nodes).insert(v.node_id@, v);
    let m2 = nodes_as_map(n2);
    assert forall|k: Seq<char>| #[trigger] m2.contains_key(k) == m1.contains_key(k) by {
        assert(m2.contains_key(k) == node_ids(n2).contains(k));
        assert(m1.contains_key(k) == (node_ids(nodes).contains(k) || k == v.node_id@));
        assert(node_ids(n2)[nodes.len() as int] == v.node_id@);
        if node_ids(nodes).contains(k) {
            let j = choose|j: int| 0 <= j < node_ids(nodes).len() && node_ids(nodes)[j] == k;
            assert(node_ids(n2)[j] == k);
        }
        if node_ids(n2).contains(k) && k != v.node_id@ {
            let j = choose|j: int| 0 <= j < node_ids(n2).len() && node_ids(n2)[j] == k;
            assert(node_ids(nodes)[j] == k);
        }
    }
    assert forall|k: Seq<char>| m2.contains_key(k) implies #[trigger] m2[k] == m1[k] by {
        let j = node_ids(n2).index_of(k);
        assert(0 <= j < n2.len() && node_ids(n2)[j] == k);
        lemma_map_at(n2, j);
        if j != nodes.len() as int {
            lemma_map_at(nodes, j);
        }
    }
    assert(m2 =~= m1);
}

proof fn lemma_map_remove(nodes: Seq<NodeInfo>, i: int)
    requires
        node_ids(nodes).no_duplicates(),
        0 <= i < nodes.len(),
    ensures
        node_ids(nodes.remove(i)).no_duplicates(),
        nodes_as_map(nodes.remove(i)) == nodes_as_map(nodes).remove(nodes[i].node_id@),
{
    let n2 = nodes.remove(i);
    let ids = node_ids(nodes);
    let ids2 = node_ids(n2);
    assert(ids2.len() == ids.len() - 1);
    assert forall|a: int| 0 <= a < ids2.len() implies #[trigger] ids2[a] == (if a < i { ids[a] } else { ids[a + 1] }) by {}
    assert forall|a: int, b: int| 0 <= a < ids2.len() && 0 <= b < ids2.len() && a != b
        implies ids2[a] != ids2[b] by {
        let a1 = if a < i { a } else { a + 1 };
        let b1 = if b < i { b } else { b + 1 };
        assert(ids2[a] == ids[a1] && ids2[b] == ids[b1]);
    }
    let m1 = nodes_as_map(nodes).remove(nodes[i].node_id@);
    let m2 = nodes_as_map(n2);
    assert forall|k: Seq<char>| #[trigger] m2.contains_key(k) == m1.contains_key(k) by {
        assert(m2.contains_key(k) == ids2.contains(k));
        assert(m1.contains_key(k) == (ids.contains(k) && k != nodes[i].node_id@));
        assert(ids[i] == nodes[i].node_id@);
        if ids2.contains(k) {
            let a = choose|a: int| 0 <= a < ids2.len() && ids2[a] == k;
            let a1 = if a < i { a } else { a + 1 };
            assert(ids[a1] == k);
            assert(a1 != i);
            assert(ids.contains(k));
        }
        if ids.contains(k) && k != nodes[i].node_id@ {
            let a = choose|a: int| 0 <= a < ids.len() && ids[a] == k;
            assert(a != i);
            let a2 = if a < i { a } else { a - 1 };
            assert(ids2[a2] == k);
        }
    }
    assert forall|k: Seq<char>| m2.contains_key(k) implies #[trigger] m2[k] == m1[k] by {
        let a = ids2.index_of(k);
        assert(0 <= a < ids2.len() && ids2[a] == k);
        lemma_map_at(n2, a);
        let a1 = if a < i { a } else { a + 1 };
        assert(n2[a] == nodes[a1]);
        lemma_map_at(nodes, a1);
    }
    assert(m2 =~= m1);
}

/// Index of the node with identifier `id`, if one is listed.
fn find_node_index(nodes: &Vec<NodeInfo>, id: &str) -> (r: Option<usize>)
    ensures
        match r {
            Some(i) => i < nodes@.len() && nodes@[i as int].node_id@ == id@
                && forall|j: int| 0 <= j < i ==> nodes@[j].node_id@ != id@,
            None => !node_ids(nodes@).contains(id@),
        },
{
    let mut i: usize = 0;
    while i < nodes.len()
        invariant
            i <= nodes@.len(),
            forall|j: int| 0 <= j < i ==> nodes@[j].node_id@ != id@,
        decreases nodes.len() - i,
    {
        if str_eq(nodes[i].node_id.as_str(), id) {
            return Some(i);
        }
        i = i + 1;
    }
    proof {
        if node_ids(nodes@).contains(id@) {
            let j = choose|j: int| 0 <= j < node_ids(nodes@).len() && node_ids(nodes@)[j] == id@;
            assert(nodes@[j].node_id@ == id@);
        }
    }
    None
}


/// The nodes known to this executor, grouped by role and by health.
#[derive(Debug)]
pub struct NodeRegistry {
    nodes: Vec<NodeInfo>,
    coordinators: Vec<String>,
    workers: Vec<String>,
    hybrids: Vec<String>,
    healthy_nodes: Vec<String>,
}

impl NodeRegistry {
    /// Node identifiers are unique, and the healthy list holds registered
    /// nodes without repeats.
    pub closed spec fn wf(self) -> bool {
        &&& node_ids(self.nodes@).no_duplicates()
        &&& string_views(self.healthy_nodes@).no_duplicates()
        &&& forall|i: int| 0 <= i < self.healthy_nodes@.len()
            ==> #[trigger] nodes_as_map(self.nodes@).contains_key(self.healthy_nodes@[i]@)
    }

    proof fn lemma_healthy_from_contains(self)
        requires
            forall|k: Seq<char>| #[trigger] self.healthy().contains(k) ==> self.node_map().contains_key(k),
        ensures
            forall|i: int| 0 <= i < self.healthy_nodes@.len()
                ==> #[trigger] nodes_as_map(self.nodes@).contains_key(self.healthy_nodes@[i]@),
    {
        assert forall|i: int| 0 <= i < self.healthy_nodes@.len()
            implies #[trigger] nodes_as_map(self.nodes@).contains_key(self.healthy_nodes@[i]@) by {
            assert(self.healthy()[i] == self.healthy_nodes@[i]@);
            assert(self.healthy().contains(self.healthy_nodes@[i]@));
        }
    }

    /// Every node on the healthy list is registered, and the list holds no repeats.
    pub proof fn lemma_healthy_registered(self)
        requires
            self.wf(),
        ensures
            self.healthy().no_duplicates(),
            forall|k: Seq<char>| #[trigger] self.healthy().contains(k) ==> self.node_map().contains_key(k),
    {
        assert forall|k: Seq<char>| #[trigger] self.healthy().contains(k) implies self.node_map().contains_key(k) by {
            let i = choose|i: int| 0 <= i < self.healthy().len() && self.healthy()[i] == k;
            assert(self.healthy_nodes@[i]@ == k);
        }
    }

    /// The registered nodes, by identifier.
    pub closed spec fn node_map(self) -> Map<Seq<char>, NodeInfo> {
        nodes_as_map(self.nodes@)
    }

    /// The identifiers on the healthy list, in the order they joined it.
    pub closed spec fn healthy(self) -> Seq<Seq<char>> {
        string_views(self.healthy_nodes@)
    }

    /// The identifiers filed under `role`, in registration order.
    pub closed spec fn role_members(self, role: NodeRole) -> Seq<Seq<char>> {
        match role {
            NodeRole::Coordinator => string_views(self.coordinators@),
            NodeRole::Worker => string_views(self.workers@),
            NodeRole::Hybrid => string_views(self.hybrids@),
        }
    }

    /// An empty registry.
    pub fn new() -> (r: Self)
        ensures
            r.wf(),
            r.node_map() == Map::<Seq<char>, NodeInfo>::empty(),
            r.healthy() == Seq::<Seq<char>>::empty(),
            forall|role: NodeRole| #[trigger] r.role_members(role) == Seq::<Seq<char>>::empty(),
    {
        let r = NodeRegistry {
            nodes: Vec::new(),
            coordinators: Vec::new(),
            workers: Vec::new(),
            hybrids: Vec::new(),
            healthy_nodes: Vec::new(),
        };
        assert(r.node_map() =~= Map::<Seq<char>, NodeInfo>::empty());
        assert(r.healthy() =~= Seq::<Seq<char>>::empty());
        assert forall|role: NodeRole| #[trigger] r.role_members(role) == Seq::<Seq<char>>::empty() by {
            assert(string_views(Seq::<String>::empty()) =~= Seq::<Seq<char>>::empty());
        }
        r
    }

    fn push_role_member(&mut self, role: NodeRole, id: String)
        ensures
            final(self).nodes == old(self).nodes,
            final(self).healthy_nodes == old(self).healthy_nodes,
            final(self).role_members(role) == old(self).role_members(role).push(id@),
            forall|r: NodeRole| r != role ==> #[trigger] final(self).role_members(r) == old(self).role_members(r),
    {
        let ghost id_view = id@;
        match role {
            NodeRole::Coordinator => {
                self.coordinators.push(id);
                assert(string_views(self.coordinators@) =~= string_views(old(self).coordinators@).push(id_view));
            },
            NodeRole::Worker => {
                self.workers.push(id);
                assert(string_views(self.workers@) =~= string_views(old(self).workers@).push(id_view));
            },
            NodeRole::Hybrid => {
                self.hybrids.push(id);
                assert(string_views(self.hybrids@) =~= string_views(old(self).hybrids@).push(id_view));
            },
        }
    }

    fn remove_role_member(&mut self, role: NodeRole, id: &str)
        ensures
            final(self).nodes == old(self).nodes,
            final(self).healthy_nodes == old(self).healthy_nodes,
            final(self).role_members(role) == old(self).role_members(role).filter(|x: Seq<char>| x != id@),
            forall|r: NodeRole| r != role ==> #[trigger] final(self).role_members(r) == old(self).role_members(r),
    {
        match role {
            NodeRole::Coordinator => {
                self.coordinators = without_str(&self.coordinators, id);
            },
            NodeRole::Worker => {
                self.workers = without_str(&self.workers, id);
            },
            NodeRole::Hybrid => {
                self.hybrids = without_str(&self.hybrids, id);
            },
        }
    }

    /// Registers `node_info`, replacing any node with the same identifier.
    /// The identifier is filed under the node's role, and put on the healthy
    /// list when the node is healthy and not on it yet.
    pub fn register_node(&mut self, node_info: NodeInfo)
        requires
            old(self).wf(),
        ensures
            final(self).wf(),
            final(self).node_map() == old(self).node_map().insert(node_info.node_id@, node_info),
            final(self).role_members(node_info.role) == old(self).role_members(node_info.role).push(node_info.node_id@),
            forall|r: NodeRole| r != node_info.role ==> #[trigger] final(self).role_members(r) == old(self).role_members(r),
            final(self).healthy() == (if node_info.status == NodeStatus::Healthy
                && !old(self).healthy().contains(node_info.node_id@) {
                old(self).healthy().push(node_info.node_id@)
            } else {
                old(self).healthy()
            }),
    {
        let ghost info = node_info;
        let ghost start = *old(self);
        let id = node_info.node_id.clone();
        let role = node_info.role;
        let healthy = node_info.status == NodeStatus::Healthy;
        match find_node_index(&self.nodes, id.as_str()) {
            Some(i) => {
                proof { lemma_map_update(self.nodes@, i as int, info); }
                self.nodes.set(i, node_info);
            },
            None => {
                proof { lemma_map_push(self.nodes@, info); }
                self.nodes.push(node_info);
            },
        }
        self.push_role_member(role, id.clone());
        let ghost mid = *self;
        if healthy {
            if !contains_str(&self.healthy_nodes, id.as_str()) {
                let ghost before = self.healthy_nodes@;
                self.healthy_nodes.push(id);
                assert(string_views(self.healthy_nodes@) =~= string_views(before).push(info.node_id@));
            }
        }
        assert forall|r: NodeRole| r != info.role implies #[trigger] self.role_members(r) == start.role_members(r) by {
            assert(self.role_members(r) == mid.role_members(r));
        }
    }

    /// Removes the node `node_id`, with its entries in the role lists and on
    /// the healthy list. Nothing changes when no such node is registered.
    pub fn deregister_node(&mut self, node_id: &str)
        requires
            old(self).wf(),
        ensures
            final(self).wf(),
            !old(self).node_map().contains_key(node_id@) ==> *final(self) == *old(self),
            old(self).node_map().contains_key(node_id@) ==> {
                let role = old(self).node_map()[node_id@].role;
                &&& final(self).node_map() == old(self).node_map().remove(node_id@)
                &&& final(self).role_members(role) == old(self).role_members(role).filter(|x: Seq<char>| x != node_id@)
                &&& forall|r: NodeRole| r != role ==> #[trigger] final(self).role_members(r) == old(self).role_members(r)
                &&& final(self).healthy() == seq_without(old(self).healthy(), node_id@)
            },
    {
        match find_node_index(&self.nodes, node_id) {
            Some(i) => {
                proof {
                    lemma_map_remove(self.nodes@, i as int);
                    lemma_map_at(self.nodes@, i as int);
                }
                let node = self.nodes.remove(i);
                let ghost role = node.role;
                self.remove_role_member(node.role, node_id);
                let ghost mid = *self;
                let ghost before = self.healthy();
                self.healthy_nodes = without_str(&self.healthy_nodes, node_id);
                proof {
                    lemma_filter_no_duplicates(before, |x: Seq<char>| x != node_id@);
                    old(self).lemma_healthy_registered();
                    crate::seqs::lemma_filter_subset(before, |x: Seq<char>| x != node_id@);
                    assert forall|k: Seq<char>| #[trigger] self.healthy().contains(k) implies self.node_map().contains_key(k) by {
                        assert(before.filter(|x: Seq<char>| x != node_id@).contains(k));
                    }
                    self.lemma_healthy_from_contains();
                }
                assert forall|r: NodeRole| r != role implies #[trigger] self.role_members(r) == old(self).role_members(r) by {
                    assert(self.role_members(r) == mid.role_members(r));
                }
                assert(self.role_members(role) == mid.role_members(role));
            },
            None => {},
        }
    }

    /// Sets the status of node `node_id`. A node that becomes healthy joins the
    /// healthy list unless it is on it; a node that is not healthy leaves it.
    /// Nothing changes when no such node is registered.
    pub fn update_node_status(&mut self, node_id: &str, status: NodeStatus)
        requires
            old(self).wf(),
        ensures
            final(self).wf(),
            !old(self).node_map().contains_key(node_id@) ==> *final(self) == *old(self),
            old(self).node_map().contains_key(node_id@) ==> {
                let old_node = old(self).node_map()[node_id@];
                &&& final(self).node_map() == old(self).node_map().insert(node_id@, NodeInfo { status: status, ..old_node })
                &&& forall|r: NodeRole| #[trigger] final(self).role_members(r) == old(self).role_members(r)
                &&& final(self).healthy() == (if status == NodeStatus::Healthy {
                    if old_node.status == NodeStatus::Healthy || old(self).healthy().contains(node_id@) {
                        old(self).healthy()
                    } else {
                        old(self).healthy().push(node_id@)
                    }
                } else {
                    seq_without(old(self).healthy(), node_id@)
                })
            },
    {
        match find_node_index(&self.nodes, node_id) {
            Some(i) => {
                proof { lemma_map_at(self.nodes@, i as int); }
                let mut node = self.nodes.remove(i);
                let old_status = node.status;
                node.status = status;
                let ghost updated = node;
                self.nodes.insert(i, node);
                proof {
                    assert(self.nodes@ =~= old(self).nodes@.update(i as int, updated));
                    lemma_map_update(old(self).nodes@, i as int, updated);
                }
                proof { old(self).lemma_healthy_registered(); }
                if status == NodeStatus::Healthy {
                    if old_status != NodeStatus::Healthy {
                        if !contains_str(&self.healthy_nodes, node_id) {
                            let ghost before = self.healthy_nodes@;
                            self.healthy_nodes.push(String::from_str(node_id));
                            assert(string_views(self.healthy_nodes@) =~= string_views(before).push(node_id@));
                            proof { crate::seqs::lemma_push_no_duplicates(string_views(before), node_id@); }
                        }
                    }
                    assert forall|k: Seq<char>| #[trigger] self.healthy().contains(k) implies self.node_map().contains_key(k) by {
                        if k != node_id@ {
                            assert(old(self).healthy().contains(k)) by {
                                let w = choose|w: int| 0 <= w < self.healthy().len() && self.healthy()[w] == k;
                                if w < old(self).healthy().len() {
                                    assert(old(self).healthy()[w] == k);
                                }
                            }
                        }
                    }
                    proof { self.lemma_healthy_from_contains(); }
                } else {
                    let ghost before = self.healthy();
                    self.healthy_nodes = without_str(&self.healthy_nodes, node_id);
                    proof {
                        lemma_filter_no_duplicates(before, |x: Seq<char>| x != node_id@);
                        crate::seqs::lemma_filter_subset(before, |x: Seq<char>| x != node_id@);
                        assert forall|k: Seq<char>| #[trigger] self.healthy().contains(k) implies self.node_map().contains_key(k) by {
                            assert(before.filter(|x: Seq<char>| x != node_id@).contains(k));
                        }
                        self.lemma_healthy_from_contains();
                    }
                }
            },
            None => {},
        }
    }

    /// The healthy nodes that run `plugin_id`, in healthy-list order. A node
    /// with no listed plugins runs every plugin.
    pub fn get_nodes_supporting_plugin(&self, plugin_id: &str) -> (r: Vec<String>)
        requires
            self.wf(),
        ensures
            string_views(r@) == self.healthy().filter(|k: Seq<char>|
                self.node_map().contains_key(k) && supports_plugin(self.node_map()[k], plugin_id@)),
    {
        let ghost pred = |k: Seq<char>|
            self.node_map().contains_key(k) && supports_plugin(self.node_map()[k], plugin_id@);
        let mut r: Vec<String> = Vec::new();
        let mut i: usize = 0;
        while i < self.healthy_nodes.len()
            invariant
                self.wf(),
                i <= self.healthy_nodes@.len(),
                pred == (|k: Seq<char>| self.node_map().contains_key(k) && supports_plugin(self.node_map()[k], plugin_id@)),
                string_views(r@) == self.healthy().subrange(0, i as int).filter(pred),
            decreases self.healthy_nodes.len() - i,
        {
            let ghost before = self.healthy().subrange(0, i as int);
            let id = &self.healthy_nodes[i];
            assert(self.healthy().subrange(0, i + 1) =~= before.push(id@));
            proof { lemma_filter_push(before, pred, id@); }
            let keep = match find_node_index(&self.nodes, id.as_str()) {
                Some(j) => {
                    proof { lemma_map_at(self.nodes@, j as int); }
                    let node = &self.nodes[j];
                    contains_str(&node.supported_plugins, plugin_id) || node.supported_plugins.len() == 0
                },
                None => false,
            };
            if keep {
                r.push(id.clone());
                assert(string_views(r@) =~= before.filter(pred).push(id@));
            }
            i = i + 1;
        }
        assert(self.healthy().subrange(0, i as int) =~= self.healthy());
        r
    }

    /// The identifiers filed under `role`.
    pub fn get_nodes_by_role(&self, role: NodeRole) -> (r: Vec<String>)
        ensures
            string_views(r@) == self.role_members(role),
    {
        match role {
            NodeRole::Coordinator => clone_strings(&self.coordinators),
            NodeRole::Worker => clone_strings(&self.workers),
            NodeRole::Hybrid => clone_strings(&self.hybrids),
        }
    }

    /// The healthy list.
    pub fn get_healthy_nodes(&self) -> (r: &Vec<String>)
        ensures
            string_views(r@) == self.healthy(),
    {
        &self.healthy_nodes
    }

    /// The node registered as `node_id`, if any.
    pub fn get_node(&self, node_id: &str) -> (r: Option<&NodeInfo>)
        requires
            self.wf(),
        ensures
            match r {
                Some(n) => self.node_map().contains_key(node_id@) && *n == self.node_map()[node_id@],
                None => !self.node_map().contains_key(node_id@),
            },
    {
        match find_node_index(&self.nodes, node_id) {
            Some(i) => {
                proof { lemma_map_at(self.nodes@, i as int); }
                Some(&self.nodes[i])
            },
            None => None,
        }
    }

    /// How many nodes are registered.
    pub fn node_count(&self) -> (n: usize)
        requires
            self.wf(),
        ensures
            n == self.node_map().dom().len(),
    {
        proof { lemma_map_len(self.nodes@); }
        self.nodes.len()
    }
}

proof fn lemma_map_len(nodes: Seq<NodeInfo>)
    requires
        node_ids(nodes).no_duplicates(),
    ensures
        nodes_as_map(nodes).dom().len() == nodes.len(),
{
    let ids = node_ids(nodes);
    ids.unique_seq_to_set();
    assert(nodes_as_map(nodes).dom() =~= ids.to_set());
}


/// The kind of work a task carries.
#[derive(Debug, Clone, PartialEq, Eq)]
pub enum TaskType {
    /// Data processing.
    DataProcessing,
    /// Data transformation.
    DataTransformation,
    /// Data filtering.
    DataFiltering,
    /// Data aggregation.
    DataAggregation,
    /// A kind named by the user.
    Custom(String),
}

/// Task priority, from lowest to highest.
#[derive(Debug, Clone, Copy, PartialEq, Eq, PartialOrd, Ord, Hash, Structural)]
pub enum TaskPriority {
    /// Rank 1.
    Low,
    /// Rank 2.
    Normal,
    /// Rank 3.
    High,
    /// Rank 4.
    Critical,
}

/// The rank of a priority: 1 for `Low` up to 4 for `Critical`.
pub open spec fn priority_rank(p: TaskPriority) -> nat {
    match p {
        TaskPriority::Low => 1,
        TaskPriority::Normal => 2,
        TaskPriority::High => 3,
        TaskPriority::Critical => 4,
    }
}

impl TaskPriority {
    /// The numeric rank of the priority (1 to 4).
    pub fn rank(&self) -> (r: u8)
        ensures
            r as nat == priority_rank(*self),
    {
        match self {
            TaskPriority::Low => 1,
            TaskPriority::Normal => 2,
            TaskPriority::High => 3,
            TaskPriority::Critical => 4,
        }
    }
}

/// How a failed task is retried.
#[derive(Debug, Clone, Copy, PartialEq, Eq)]
pub struct TaskRetryConfig {
    /// The most attempts.
    pub max_attempts: u32,
    /// Pause between attempts, in milliseconds.
    pub retry_interval_ms: u64,
    /// Whether the pause doubles after each attempt.
    pub exponential_backoff: bool,
    /// The longest pause, in milliseconds.
    pub max_backoff_ms: u64,
}

impl TaskRetryConfig {
    /// Three attempts, one second apart, with exponential backoff up to one minute.
    pub fn default_config() -> (c: Self)
        ensures
            c.max_attempts == 3,
            c.retry_interval_ms == 1000,
            c.exponential_backoff,
            c.max_backoff_ms == 60000,
    {
        TaskRetryConfig { max_attempts: 3, retry_interval_ms: 1000, exponential_backoff: true, max_backoff_ms: 60000 }
    }
}

/// A unit of plugin work submitted to the cluster.
#[derive(Debug, Clone)]
pub struct DistributedTask {
    /// Identifier.
    pub task_id: String,
    /// The plugin that runs the task.
    pub plugin_id: String,
    /// Kind of work.
    pub task_type: TaskType,
    /// Input bytes.
    pub input_data: Vec<u8>,
    /// Priority.
    pub priority: TaskPriority,
    /// Creation time, in milliseconds since the Unix epoch.
    pub created_at: u64,
    /// Time limit, in milliseconds.
    pub timeout_ms: u64,
    /// Retry policy.
    pub retry_config: TaskRetryConfig,
    /// Free-form metadata.
    pub metadata: HashMap<String, String>,
}

/// Whether two tasks carry the same identifier, plugin, input, priority and timing.
pub open spec fn same_task(a: DistributedTask, b: DistributedTask) -> bool {
    &&& a.task_id@ == b.task_id@
    &&& a.plugin_id@ == b.plugin_id@
    &&& a.input_data@ == b.input_data@
    &&& a.priority == b.priority
    &&& a.created_at == b.created_at
    &&& a.timeout_ms == b.timeout_ms
    &&& a.retry_config == b.retry_config
    &&& a.metadata@ == b.metadata@
}

fn copy_bytes(v: &Vec<u8>) -> (r: Vec<u8>)
    ensures
        r@ == v@,
{
    let mut r: Vec<u8> = Vec::new();
    let mut i: usize = 0;
    while i < v.len()
        invariant
            i <= v.len(),
            r@ == v@.subrange(0, i as int),
        decreases v.len() - i,
    {
        r.push(v[i]);
        i = i + 1;
        assert(r@ =~= v@.subrange(0, i as int));
    }
    assert(r@ =~= v@);
    r
}

fn copy_task(t: &DistributedTask) -> (r: DistributedTask)
    ensures
        same_task(r, *t),
{
    let task_type = match &t.task_type {
        TaskType::DataProcessing => TaskType::DataProcessing,
        TaskType::DataTransformation => TaskType::DataTransformation,
        TaskType::DataFiltering => TaskType::DataFiltering,
        TaskType::DataAggregation => TaskType::DataAggregation,
        TaskType::Custom(name) => TaskType::Custom(name.clone()),
    };
    DistributedTask {
        task_id: t.task_id.clone(),
        plugin_id: t.plugin_id.clone(),
        task_type,
        input_data: copy_bytes(&t.input_data),
        priority: t.priority,
        created_at: t.created_at,
        timeout_ms: t.timeout_ms,
        retry_config: t.retry_config,
        metadata: t.metadata.clone(),
    }
}

/// The state of a task's execution.
#[derive(Debug, Clone, Copy, PartialEq, Eq, Structural)]
pub enum TaskExecutionStatus {
    /// Waiting.
    Pending,
    /// Running.
    Running,
    /// Finished successfully.
    Success,
    /// Finished with an error.
    Failed,
    /// Cancelled.
    Cancelled,
    /// Ran out of time.
    Timeout,
}

/// Resources a task used.
#[derive(Debug, Clone, Copy, PartialEq, Eq)]
pub struct ExecutionStats {
    /// Bytes processed.
    pub bytes_processed: u64,
    /// Peak memory, in bytes.
    pub peak_memory_usage: u64,
    /// CPU time, in milliseconds.
    pub cpu_time_ms: u64,
    /// Network traffic, in bytes.
    pub network_io_bytes: u64,
    /// Disk traffic, in bytes.
    pub disk_io_bytes: u64,
}

impl ExecutionStats {
    /// All counters at zero.
    pub fn zero() -> (s: Self)
        ensures
            s.bytes_processed == 0 && s.peak_memory_usage == 0 && s.cpu_time_ms == 0
                && s.network_io_bytes == 0 && s.disk_io_bytes == 0,
    {
        ExecutionStats { bytes_processed: 0, peak_memory_usage: 0, cpu_time_ms: 0, network_io_bytes: 0, disk_io_bytes: 0 }
    }
}

/// The outcome of a task.
#[derive(Debug, Clone)]
pub struct TaskExecutionResult {
    /// The task.
    pub task_id: String,
    /// Final state.
    pub status: TaskExecutionStatus,
    /// Output bytes.
    pub output_data: Option<Vec<u8>>,
    /// Error message, when the task failed.
    pub error_message: Option<String>,
    /// Run time, in milliseconds.
    pub execution_time_ms: u64,
    /// Node that ran the task.
    pub executed_on_node: String,
    /// Completion time, in milliseconds since the Unix epoch.
    pub completed_at: u64,
    /// Resources used.
    pub execution_stats: ExecutionStats,
}

/// A task that has been handed out for execution.
#[derive(Debug, Clone)]
pub struct TaskExecution {
    /// The task.
    pub task: DistributedTask,
    /// The node it runs on.
    pub assigned_node: String,
    /// Start time, in milliseconds since the Unix epoch.
    pub started_at: u64,
    /// Retries so far.
    pub retry_count: u32,
}

/// The order in which pending tasks are run.
#[derive(Debug, Clone, Copy, PartialEq, Eq, Structural)]
pub enum SchedulingStrategy {
    /// First in, first out.
    FIFO,
    /// Highest priority first.
    Priority,
    /// Smallest input first.
    ShortestJobFirst,
    /// Oldest first.
    FairShare,
}

/// Counts of tasks in each stage.
#[derive(Debug, Clone, Copy, PartialEq, Eq)]
pub struct TaskStats {
    /// Waiting tasks.
    pub pending_count: usize,
    /// Running tasks.
    pub running_count: usize,
    /// Finished tasks.
    pub completed_count: usize,
    /// Finished tasks that succeeded.
    pub success_count: usize,
    /// Finished tasks that failed.
    pub failed_count: usize,
}

/// Whether pending tasks are ordered from highest to lowest priority.
pub open spec fn sorted_by_priority(tasks: Seq<DistributedTask>) -> bool {
    forall|i: int, j: int| 0 <= i < j < tasks.len()
        ==> priority_rank(#[trigger] tasks[i].priority) >= priority_rank(#[trigger] tasks[j].priority)
}

/// The identifiers of the running tasks.
pub open spec fn running_ids(running: Seq<TaskExecution>) -> Seq<Seq<char>> {
    running.map_values(|e: TaskExecution| e.task.task_id@)
}

/// How many filed results have status `status`.
pub open spec fn count_status(results: Seq<(String, TaskExecutionResult)>, status: TaskExecutionStatus) -> nat {
    results.filter(|e: (String, TaskExecutionResult)| e.1.status == status).len()
}

fn find_running(running: &Vec<TaskExecution>, id: &str) -> (r: Option<usize>)
    ensures
        match r {
            Some(i) => i < running@.len() && running@[i as int].task.task_id@ == id@,
            None => !running_ids(running@).contains(id@),
        },
{
    let mut i: usize = 0;
    while i < running.len()
        invariant
            i <= running@.len(),
            forall|j: int| 0 <= j < i ==> running@[j].task.task_id@ != id@,
        decreases running.len() - i,
    {
        if str_eq(running[i].task.task_id.as_str(), id) {
            return Some(i);
        }
        i = i + 1;
    }
    proof {
        if running_ids(running@).contains(id@) {
            let j = choose|j: int| 0 <= j < running_ids(running@).len() && running_ids(running@)[j] == id@;
            assert(running@[j].task.task_id@ == id@);
        }
    }
    None
}

/// Holds pending, running and finished tasks; pending tasks run highest
/// priority first, and in arrival order within a priority.
#[derive(Debug)]
pub struct TaskScheduler {
    pending_tasks: Vec<DistributedTask>,
    running_tasks: Vec<TaskExecution>,
    completed_tasks: KeyedList<TaskExecutionResult>,
    scheduling_strategy: SchedulingStrategy,
}

impl TaskScheduler {
    /// Pending tasks are sorted by priority, and running and finished tasks
    /// are filed under distinct identifiers.
    pub closed spec fn wf(self) -> bool {
        &&& self.scheduling_strategy == SchedulingStrategy::Priority
        &&& sorted_by_priority(self.pending_tasks@)
        &&& running_ids(self.running_tasks@).no_duplicates()
        &&& self.completed_tasks.wf()
    }

    /// The pending tasks, in the order they will run.
    pub closed spec fn pending(self) -> Seq<DistributedTask> {
        self.pending_tasks@
    }

    /// The pending tasks of a well-formed scheduler run from the highest
    /// priority to the lowest: no task waits behind one of lower priority,
    /// so a critical task is preceded only by critical ones, a high one only
    /// by critical or high ones, and a normal one by no low one.
    pub proof fn lemma_pending_sorted(self)
        requires
            self.wf(),
        ensures
            sorted_by_priority(self.pending()),
            forall|i: int, j: int| 0 <= i < j < self.pending().len() ==> match (#[trigger] self.pending()[j]).priority {
                TaskPriority::Critical => (#[trigger] self.pending()[i]).priority == TaskPriority::Critical,
                TaskPriority::High => self.pending()[i].priority == TaskPriority::Critical || self.pending()[i].priority
                    == TaskPriority::High,
                TaskPriority::Normal => self.pending()[i].priority != TaskPriority::Low,
                TaskPriority::Low => true,
            },
    {
        let p = self.pending();
        assert forall|i: int, j: int| 0 <= i < j < p.len() implies match (#[trigger] p[j]).priority {
            TaskPriority::Critical => (#[trigger] p[i]).priority == TaskPriority::Critical,
            TaskPriority::High => p[i].priority == TaskPriority::Critical || p[i].priority == TaskPriority::High,
            TaskPriority::Normal => p[i].priority != TaskPriority::Low,
            TaskPriority::Low => true,
        } by {
            assert(priority_rank(p[i].priority) >= priority_rank(p[j].priority));
        }
    }

    /// The running tasks.
    pub closed spec fn running(self) -> Seq<TaskExecution> {
        self.running_tasks@
    }

    /// The finished tasks, by the key they were filed under.
    pub closed spec fn completed(self) -> Map<Seq<char>, TaskExecutionResult> {
        self.completed_tasks.map()
    }

    /// The finished tasks as filed, in filing order.
    pub closed spec fn completed_entries(self) -> Seq<(String, TaskExecutionResult)> {
        self.completed_tasks.entries()
    }

    /// An empty scheduler that orders by priority.
    pub fn new() -> (s: Self)
        ensures
            s.wf(),
            s.pending() == Seq::<DistributedTask>::empty(),
            s.running() == Seq::<TaskExecution>::empty(),
            s.completed() == Map::<Seq<char>, TaskExecutionResult>::empty(),
    {
        let s = TaskScheduler {
            pending_tasks: Vec::new(),
            running_tasks: Vec::new(),
            completed_tasks: KeyedList::new(),
            scheduling_strategy: SchedulingStrategy::Priority,
        };
        assert(running_ids(s.running_tasks@) =~= Seq::<Seq<char>>::empty());
        s
    }

    /// Queues `task` behind every pending task of equal or higher priority and
    /// ahead of every pending task of lower priority.
    pub fn add_task(&mut self, task: DistributedTask) -> (r: WasmResult<()>)
        requires
            old(self).wf(),
        ensures
            final(self).wf(),
            r is Ok,
            final(self).running() == old(self).running(),
            final(self).completed() == old(self).completed(),
            sorted_by_priority(final(self).pending()),
            exists|k: int| #![trigger old(self).pending().insert(k, task)] 0 <= k <= old(self).pending().len()
                && final(self).pending() == old(self).pending().insert(k, task)
                && (forall|i: int| 0 <= i < k ==> priority_rank(#[trigger] old(self).pending()[i].priority) >= priority_rank(task.priority))
                && (forall|i: int| k <= i < old(self).pending().len() ==> priority_rank(#[trigger] old(self).pending()[i].priority) < priority_rank(task.priority)),
    {
        let rank = task.priority.rank();
        let mut k: usize = 0;
        while k < self.pending_tasks.len() && self.pending_tasks[k].priority.rank() >= rank
            invariant
                k <= self.pending_tasks@.len(),
                self.pending_tasks@ == old(self).pending_tasks@,
                rank as nat == priority_rank(task.priority),
                forall|i: int| 0 <= i < k ==> priority_rank(#[trigger] self.pending_tasks@[i].priority) >= rank,
            decreases self.pending_tasks.len() - k,
        {
            k = k + 1;
        }
        let ghost p = self.pending_tasks@;
        assert(sorted_by_priority(p));
        assert forall|i: int| k <= i < p.len() implies priority_rank(#[trigger] p[i].priority) < rank by {
            assert(priority_rank(p[k as int].priority) < rank);
        }
        let ghost t = task;
        self.pending_tasks.insert(k, task);
        assert forall|i: int, j: int| 0 <= i < j < self.pending_tasks@.len()
            implies priority_rank(#[trigger] self.pending_tasks@[i].priority) >= priority_rank(#[trigger] self.pending_tasks@[j].priority) by {
            let q = self.pending_tasks@;
            assert(q == p.insert(k as int, task));
            if j < k {
                assert(q[i] == p[i] && q[j] == p[j]);
            } else if j == k {
                assert(q[i] == p[i]);
            } else if i < k {
                assert(q[i] == p[i] && q[j] == p[j - 1]);
            } else if i == k {
                assert(q[j] == p[j - 1]);
            } else {
                assert(q[j] == p[j - 1] && q[i] == p[i - 1]);
            }
        }
        assert(p == old(self).pending());
        assert(self.pending_tasks@ == old(self).pending().insert(k as int, t));
        assert(0 <= k <= old(self).pending().len()
            && self.pending() == old(self).pending().insert(k as int, t)
            && (forall|i: int| 0 <= i < k ==> priority_rank(#[trigger] old(self).pending()[i].priority) >= priority_rank(t.priority))
            && (forall|i: int| k <= i < old(self).pending().len() ==> priority_rank(#[trigger] old(self).pending()[i].priority) < priority_rank(t.priority)));
        Ok(())
    }

    /// Takes the first pending task, records it as running on the local node,
    /// and returns it; `None` when nothing is pending.
    pub fn get_next_task(&mut self) -> (r: Option<DistributedTask>)
        requires
            old(self).wf(),
        ensures
            final(self).wf(),
            final(self).completed() == old(self).completed(),
            old(self).pending().len() == 0 ==> r is None && *final(self) == *old(self),
            old(self).pending().len() > 0 ==> {
                let t = old(self).pending()[0];
                &&& r == Some(t)
                &&& final(self).pending() == old(self).pending().drop_first()
                &&& running_ids(final(self).running()) == (if running_ids(old(self).running()).contains(t.task_id@) {
                    running_ids(old(self).running())
                } else {
                    running_ids(old(self).running()).push(t.task_id@)
                })
                &&& exists|e: TaskExecution| #[trigger] final(self).running().contains(e)
                    && same_task(e.task, t) && e.assigned_node@ == "local"@ && e.retry_count == 0
            },
    {
        if self.pending_tasks.len() == 0 {
            return None;
        }
        let task = self.pending_tasks.remove(0);
        let ghost p = old(self).pending_tasks@;
        assert(self.pending_tasks@ =~= p.drop_first());
        assert forall|i: int, j: int| 0 <= i < j < self.pending_tasks@.len()
            implies priority_rank(#[trigger] self.pending_tasks@[i].priority) >= priority_rank(#[trigger] self.pending_tasks@[j].priority) by {
            assert(self.pending_tasks@[i] == p[i + 1] && self.pending_tasks@[j] == p[j + 1]);
        }
        let execution = TaskExecution {
            task: copy_task(&task),
            assigned_node: owned("local"),
            started_at: system_now_millis(),
            retry_count: 0,
        };
        let ghost e = execution;
        let ghost t = task;
        assert(t == p[0]);
        self.put_running(execution);
        assert(self.running_tasks@.contains(e));
        assert(same_task(e.task, t));
        assert(e.assigned_node@ == "local"@);
        assert(self.pending_tasks@ == p.drop_first());
        Some(task)
    }

    fn put_running(&mut self, execution: TaskExecution)
        requires
            running_ids(old(self).running_tasks@).no_duplicates(),
        ensures
            running_ids(final(self).running_tasks@).no_duplicates(),
            final(self).running_tasks@.contains(execution),
            running_ids(final(self).running_tasks@) == (if running_ids(old(self).running_tasks@).contains(execution.task.task_id@) {
                running_ids(old(self).running_tasks@)
            } else {
                running_ids(old(self).running_tasks@).push(execution.task.task_id@)
            }),
            final(self).pending_tasks == old(self).pending_tasks,
            final(self).completed_tasks == old(self).completed_tasks,
            final(self).scheduling_strategy == old(self).scheduling_strategy,
    {
        let ghost ex = execution;
        let ghost ids = running_ids(self.running_tasks@);
        match find_running(&self.running_tasks, execution.task.task_id.as_str()) {
            Some(i) => {
                assert(ids[i as int] == ex.task.task_id@);
                assert(ids.contains(ex.task.task_id@));
                self.running_tasks.set(i, execution);
                assert(running_ids(self.running_tasks@) =~= ids);
                assert(self.running_tasks@[i as int] == ex);
            },
            None => {
                self.running_tasks.push(execution);
                assert(running_ids(self.running_tasks@) =~= ids.push(ex.task.task_id@));
                assert(self.running_tasks@[self.running_tasks@.len() - 1] == ex);
                proof { crate::seqs::lemma_push_no_duplicates(ids, ex.task.task_id@); }
            },
        }
    }

    /// Moves task `task_id` from running to finished, filing `result` under
    /// `task_id` and replacing any result filed there before.
    pub fn complete_task(&mut self, task_id: String, result: TaskExecutionResult)
        requires
            old(self).wf(),
        ensures
            final(self).wf(),
            final(self).pending() == old(self).pending(),
            running_ids(final(self).running()) == running_ids(old(self).running()).filter(|x: Seq<char>| x != task_id@),
            forall|e: TaskExecution| #[trigger] final(self).running().contains(e)
                <==> old(self).running().contains(e) && e.task.task_id@ != task_id@,
            final(self).completed() == old(self).completed().insert(task_id@, result),
    {
        let ghost ids = running_ids(self.running_tasks@);
        let found = find_running(&self.running_tasks, task_id.as_str());
        if found.is_some() {
            let i = found.unwrap();
            let ghost r0 = self.running_tasks@;
            assert(ids[i as int] == task_id@);
            self.running_tasks.remove(i);
            proof {
                crate::seqs::lemma_remove_unique_is_filter(ids, i as int);
                assert(running_ids(self.running_tasks@) =~= ids.remove(i as int));
                crate::seqs::lemma_remove_unique_is_filter(ids, i as int);
                assert forall|e: TaskExecution| #[trigger] self.running_tasks@.contains(e)
                    <==> r0.contains(e) && e.task.task_id@ != task_id@ by {
                    if self.running_tasks@.contains(e) {
                        let a = choose|a: int| 0 <= a < self.running_tasks@.len() && self.running_tasks@[a] == e;
                        let a1 = if a < i { a } else { a + 1 };
                        assert(r0[a1] == e);
                        assert(a1 != i);
                        assert(ids[a1] != ids[i as int]);
                    }
                    if r0.contains(e) && e.task.task_id@ != task_id@ {
                        let a = choose|a: int| 0 <= a < r0.len() && r0[a] == e;
                        assert(a != i);
                        let a2 = if a < i { a } else { a - 1 };
                        assert(self.running_tasks@[a2] == e);
                    }
                }
            }
        } else {
            proof {
                assert(!ids.contains(task_id@));
                crate::seqs::lemma_filter_absent(ids, task_id@);
                assert forall|e: TaskExecution| #[trigger] self.running_tasks@.contains(e)
                    implies e.task.task_id@ != task_id@ by {
                    let a = choose|a: int| 0 <= a < self.running_tasks@.len() && self.running_tasks@[a] == e;
                    assert(ids[a] == e.task.task_id@);
                }
            }
        }
        self.completed_tasks.insert(task_id, result);
    }

    /// Counts of pending, running and finished tasks, and of finished tasks
    /// that succeeded or failed.
    pub fn get_task_stats(&self) -> (st: TaskStats)
        requires
            self.wf(),
        ensures
            st.pending_count == self.pending().len(),
            st.running_count == self.running().len(),
            st.completed_count == self.completed().dom().len(),
            st.success_count == count_status(self.completed_entries(), TaskExecutionStatus::Success),
            st.failed_count == count_status(self.completed_entries(), TaskExecutionStatus::Failed),
    {
        let completed_count = self.completed_tasks.len();
        let success_count = self.count_completed(TaskExecutionStatus::Success);
        let failed_count = self.count_completed(TaskExecutionStatus::Failed);
        TaskStats {
            pending_count: self.pending_tasks.len(),
            running_count: self.running_tasks.len(),
            completed_count,
            success_count,
            failed_count,
        }
    }

    fn count_completed(&self, status: TaskExecutionStatus) -> (n: usize)
        ensures
            n == count_status(self.completed_entries(), status),
    {
        let ghost pred = |e: (String, TaskExecutionResult)| e.1.status == status;
        let ghost es = self.completed_tasks.entries();
        let mut n: usize = 0;
        let mut i: usize = 0;
        while i < self.completed_tasks.entry_count()
            invariant
                es == self.completed_tasks.entries(),
                i <= es.len(),
                pred == (|e: (String, TaskExecutionResult)| e.1.status == status),
                n == es.subrange(0, i as int).filter(pred).len(),
                n <= i,
            decreases es.len() - i,
        {
            proof {
                assert(es.subrange(0, i + 1) =~= es.subrange(0, i as int).push(es[i as int]));
                lemma_filter_push(es.subrange(0, i as int), pred, es[i as int]);
            }
            let (_k, r) = self.completed_tasks.entry_at(i);
            if r.status == status {
                n = n + 1;
            }
            i = i + 1;
        }
        assert(es.subrange(0, i as int) =~= es);
        n
    }
}


/// How the load balancer picks a node.
#[derive(Debug, Clone, Copy, PartialEq, Eq, Structural)]
pub enum LoadBalancingStrategy {
    /// Each node in turn.
    RoundRobin,
    /// The node running the fewest tasks.
    LeastConnections,
    /// The node with the lowest CPU plus memory usage.
    LeastLoad,
    /// Each node in turn, as often as its weight says.
    WeightedRoundRobin,
    /// A node picked by a hash of the current time.
    ConsistentHash,
}

/// A ring of virtual nodes for consistent hashing.
#[derive(Debug)]
pub struct ConsistentHashRing {
    /// Virtual node positions and the node each stands for.
    pub virtual_nodes: HashMap<u64, String>,
    /// Virtual nodes per node.
    pub virtual_nodes_per_node: usize,
}

/// The number of running tasks by which a node is ranked; a node missing
/// from the registry ranks last.
pub open spec fn connections_key(nodes: Map<Seq<char>, NodeInfo>, id: Seq<char>) -> int {
    if nodes.contains_key(id) {
        nodes[id].load_info.current_tasks as int
    } else {
        usize::MAX as int
    }
}

/// CPU plus memory usage (in thousandths) by which a node is ranked; a node
/// missing from the registry ranks last.
pub open spec fn load_key(nodes: Map<Seq<char>, NodeInfo>, id: Seq<char>) -> int {
    if nodes.contains_key(id) {
        nodes[id].load_info.cpu_usage_permille as int + nodes[id].load_info.memory_usage_permille as int
    } else {
        u64::MAX as int
    }
}

/// Index `i` holds the smallest key of `ids`, and no earlier index does.
pub open spec fn is_first_min(ids: Seq<Seq<char>>, key: spec_fn(Seq<char>) -> int, i: int) -> bool {
    &&& 0 <= i < ids.len()
    &&& forall|j: int| 0 <= j < ids.len() ==> key(#[trigger] ids[j]) >= key(ids[i])
    &&& forall|j: int| 0 <= j < i ==> key(#[trigger] ids[j]) > key(ids[i])
}

/// Under least load, the node picked at `i` is registered whenever some
/// available node is, its CPU plus memory usage is at most that of every
/// registered available node, and every registered node before it uses
/// strictly more.
pub proof fn lemma_least_load_pick(nodes: Map<Seq<char>, NodeInfo>, ids: Seq<Seq<char>>, i: int)
    requires
        is_first_min(ids, |id: Seq<char>| load_key(nodes, id), i),
    ensures
        forall|j: int| 0 <= j < ids.len() && #[trigger] nodes.contains_key(ids[j]) ==> nodes.contains_key(ids[i])
            && nodes[ids[i]].load_info.cpu_usage_permille + nodes[ids[i]].load_info.memory_usage_permille
            <= nodes[ids[j]].load_info.cpu_usage_permille + nodes[ids[j]].load_info.memory_usage_permille,
        forall|j: int| 0 <= j < i && #[trigger] nodes.contains_key(ids[j]) ==> nodes.contains_key(ids[i]) ==>
            nodes[ids[j]].load_info.cpu_usage_permille + nodes[ids[j]].load_info.memory_usage_permille
            > nodes[ids[i]].load_info.cpu_usage_permille + nodes[ids[i]].load_info.memory_usage_permille,
{
    let key = |id: Seq<char>| load_key(nodes, id);
    assert forall|j: int| 0 <= j < ids.len() && #[trigger] nodes.contains_key(ids[j]) implies nodes.contains_key(ids[i])
        && nodes[ids[i]].load_info.cpu_usage_permille + nodes[ids[i]].load_info.memory_usage_permille
        <= nodes[ids[j]].load_info.cpu_usage_permille + nodes[ids[j]].load_info.memory_usage_permille by {
        assert(key(ids[j]) >= key(ids[i]));
    }
    assert forall|j: int| 0 <= j < i && #[trigger] nodes.contains_key(ids[j]) implies nodes.contains_key(ids[i]) ==>
        nodes[ids[j]].load_info.cpu_usage_permille + nodes[ids[j]].load_info.memory_usage_permille
        > nodes[ids[i]].load_info.cpu_usage_permille + nodes[ids[i]].load_info.memory_usage_permille by {
        assert(key(ids[j]) > key(ids[i]));
    }
}

/// Under least connections, no registered available node runs fewer tasks
/// than the node picked at `i`: when the picked node is registered its task
/// count is at most theirs, and when it is not every registered one is full
/// to the largest count. Every registered node before it runs strictly
/// more.
pub proof fn lemma_least_connections_pick(nodes: Map<Seq<char>, NodeInfo>, ids: Seq<Seq<char>>, i: int)
    requires
        is_first_min(ids, |id: Seq<char>| connections_key(nodes, id), i),
    ensures
        forall|j: int| 0 <= j < ids.len() && #[trigger] nodes.contains_key(ids[j]) ==> if nodes.contains_key(ids[i]) {
            nodes[ids[i]].load_info.current_tasks <= nodes[ids[j]].load_info.current_tasks
        } else {
            nodes[ids[j]].load_info.current_tasks == usize::MAX
        },
        forall|j: int| 0 <= j < i && #[trigger] nodes.contains_key(ids[j]) ==> nodes.contains_key(ids[i]) ==>
            nodes[ids[j]].load_info.current_tasks > nodes[ids[i]].load_info.current_tasks,
{
    let key = |id: Seq<char>| connections_key(nodes, id);
    assert forall|j: int| 0 <= j < ids.len() && #[trigger] nodes.contains_key(ids[j]) implies if nodes.contains_key(ids[i]) {
        nodes[ids[i]].load_info.current_tasks <= nodes[ids[j]].load_info.current_tasks
    } else {
        nodes[ids[j]].load_info.current_tasks == usize::MAX
    } by {
        assert(key(ids[j]) >= key(ids[i]));
    }
    assert forall|j: int| 0 <= j < i && #[trigger] nodes.contains_key(ids[j]) implies nodes.contains_key(ids[i]) ==>
        nodes[ids[j]].load_info.current_tasks > nodes[ids[i]].load_info.current_tasks by {
        assert(key(ids[j]) > key(ids[i]));
    }
}

/// The weight of node `id`: its configured weight, or 1.
pub open spec fn weight_of(weights: Map<Seq<char>, u64>, id: Seq<char>) -> nat {
    if weights.contains_key(id) {
        weights[id] as nat
    } else {
        1
    }
}

/// The total weight of the first `k` nodes of `ids`.
pub open spec fn weight_prefix(ids: Seq<Seq<char>>, weights: Map<Seq<char>, u64>, k: int) -> nat
    decreases k,
{
    if k <= 0 {
        0
    } else {
        weight_prefix(ids, weights, k - 1) + weight_of(weights, ids[k - 1])
    }
}

/// The node that weighted round robin picks on turn `counter`: with total
/// weight `w`, the node whose share of the weight line covers `counter % w + 1`;
/// the first node when every weight is zero.
pub open spec fn is_weighted_pick(ids: Seq<Seq<char>>, weights: Map<Seq<char>, u64>, counter: nat, i: int) -> bool {
    let total = weight_prefix(ids, weights, ids.len() as int);
    if total == 0 {
        i == 0
    } else {
        let target = counter % total + 1;
        &&& 0 <= i < ids.len()
        &&& weight_prefix(ids, weights, i) < target
        &&& target <= weight_prefix(ids, weights, i + 1)
    }
}

/// The system clock's instants.
#[verifier::external_type_specification]
#[verifier::external_body]
pub struct ExSystemTime(std::time::SystemTime);

/// The current instant of the system clock, `SystemTime::now`. Nothing is
/// promised of it.
#[verifier::external_body]
fn system_time_now() -> std::time::SystemTime {
    std::time::SystemTime::now()
}

/// Feeds `t` to `hasher`, through `Hash::hash` for `SystemTime`. Nothing is
/// stated of the hasher's state afterwards.
#[verifier::external_body]
fn feed_system_time(t: &std::time::SystemTime, hasher: &mut DefaultHasher) {
    t.hash(hasher)
}

/// The time hash used by consistent hashing: the current system time fed to
/// a fresh `DefaultHasher`.
fn time_hash() -> u64 {
    let mut hasher = DefaultHasher::new();
    let now = system_time_now();
    feed_system_time(&now, &mut hasher);
    hasher.finish()
}

/// The node at position `hash % len` of `available_nodes`.
pub fn pick_by_hash(available_nodes: &[String], hash: u64) -> (r: String)
    requires
        available_nodes@.len() > 0,
    ensures
        r@ == available_nodes@[(hash as int) % (available_nodes@.len() as int)]@,
{
    let index = ((hash as u128) % (available_nodes.len() as u128)) as usize;
    available_nodes[index].clone()
}

/// Picks nodes for tasks by one of several strategies.
#[derive(Debug)]
pub struct LoadBalancer {
    strategy: LoadBalancingStrategy,
    node_weights: KeyedList<u64>,
    round_robin_counter: usize,
    consistent_hash_ring: Option<ConsistentHashRing>,
}

impl LoadBalancer {
    /// The weight table is a well-formed map.
    pub closed spec fn wf(self) -> bool {
        self.node_weights.wf()
    }

    /// The strategy in use.
    pub closed spec fn strategy(self) -> LoadBalancingStrategy {
        self.strategy
    }

    /// Configured node weights.
    pub closed spec fn weights(self) -> Map<Seq<char>, u64> {
        self.node_weights.map()
    }

    /// Turns taken so far by the round-robin strategies.
    pub closed spec fn counter(self) -> nat {
        self.round_robin_counter as nat
    }

    /// A balancer using `strategy`, with no weights and no turns taken.
    pub fn new(strategy: LoadBalancingStrategy) -> (lb: Self)
        ensures
            lb.wf(),
            lb.strategy() == strategy,
            lb.weights() == Map::<Seq<char>, u64>::empty(),
            lb.counter() == 0,
    {
        LoadBalancer { strategy, node_weights: KeyedList::new(), round_robin_counter: 0, consistent_hash_ring: None }
    }

    /// Sets the weight of node `node_id`.
    pub fn set_node_weight(&mut self, node_id: String, weight: u64)
        requires
            old(self).wf(),
        ensures
            final(self).wf(),
            final(self).weights() == old(self).weights().insert(node_id@, weight),
            final(self).strategy() == old(self).strategy(),
            final(self).counter() == old(self).counter(),
    {
        self.node_weights.insert(node_id, weight);
    }

    /// Picks one of `available_nodes` by the strategy; fails when the list is
    /// empty. Round robin takes the nodes in turn; least connections and least
    /// load take the first node with the smallest key; weighted round robin
    /// walks the weight line; consistent hashing takes the only node or one
    /// picked by a time hash. Only the round-robin strategies take a turn.
    pub fn select_node(&mut self, available_nodes: &[String], registry: &NodeRegistry) -> (r: WasmResult<String>)
        requires
            old(self).wf(),
            registry.wf(),
            available_nodes@.len() > 0 && (old(self).strategy() is RoundRobin || old(self).strategy() is WeightedRoundRobin)
                ==> old(self).counter() < usize::MAX,
        ensures
            final(self).wf(),
            final(self).strategy() == old(self).strategy(),
            final(self).weights() == old(self).weights(),
            available_nodes@.len() == 0 ==> (r matches Err(WasmError::Runtime(_))) && final(self).counter() == old(self).counter(),
            available_nodes@.len() > 0 ==> r is Ok && {
                let ids = string_views(available_nodes@);
                let picked = r->Ok_0@;
                match old(self).strategy() {
                    LoadBalancingStrategy::RoundRobin =>
                        picked == ids[(old(self).counter() % ids.len()) as int]
                        && final(self).counter() == old(self).counter() + 1,
                    LoadBalancingStrategy::LeastConnections =>
                        (exists|i: int| is_first_min(ids, |id: Seq<char>| connections_key(registry.node_map(), id), i) && picked == ids[i])
                        && final(self).counter() == old(self).counter(),
                    LoadBalancingStrategy::LeastLoad =>
                        (exists|i: int| is_first_min(ids, |id: Seq<char>| load_key(registry.node_map(), id), i) && picked == ids[i])
                        && final(self).counter() == old(self).counter(),
                    LoadBalancingStrategy::WeightedRoundRobin =>
                        (exists|i: int| is_weighted_pick(ids, old(self).weights(), old(self).counter(), i) && picked == ids[i])
                        && final(self).counter() == old(self).counter() + 1,
                    LoadBalancingStrategy::ConsistentHash =>
                        ids.contains(picked)
                        && (ids.len() == 1 ==> picked == ids[0])
                        && final(self).counter() == old(self).counter(),
                }
            },
            available_nodes@.len() > 0 && old(self).strategy() is LeastLoad ==> forall|j: int| 0 <= j < available_nodes@.len()
                && #[trigger] registry.node_map().contains_key(available_nodes@[j]@) ==> registry.node_map().contains_key(r->Ok_0@)
                && registry.node_map()[r->Ok_0@].load_info.cpu_usage_permille + registry.node_map()[r->Ok_0@].load_info.memory_usage_permille
                <= registry.node_map()[available_nodes@[j]@].load_info.cpu_usage_permille
                + registry.node_map()[available_nodes@[j]@].load_info.memory_usage_permille,
            available_nodes@.len() > 0 && old(self).strategy() is LeastConnections ==> forall|j: int| 0 <= j < available_nodes@.len()
                && #[trigger] registry.node_map().contains_key(available_nodes@[j]@) ==> if registry.node_map().contains_key(r->Ok_0@) {
                registry.node_map()[r->Ok_0@].load_info.current_tasks <= registry.node_map()[available_nodes@[j]@].load_info.current_tasks
            } else {
                registry.node_map()[available_nodes@[j]@].load_info.current_tasks == usize::MAX
            },
    {
        if available_nodes.len() == 0 {
            return Err(WasmError::runtime(crate::text::owned("没有可用节点")));
        }
        let ghost ids = string_views(available_nodes@);
        match self.strategy {
            LoadBalancingStrategy::RoundRobin => {
                let index = self.round_robin_counter % available_nodes.len();
                self.round_robin_counter = self.round_robin_counter + 1;
                assert(ids[index as int] == available_nodes@[index as int]@);
                Ok(available_nodes[index].clone())
            },
            LoadBalancingStrategy::LeastConnections => {
                let i = Self::first_min_connections(available_nodes, registry);
                assert(ids[i as int] == available_nodes@[i as int]@);
                proof {
                    lemma_least_connections_pick(registry.node_map(), ids, i as int);
                    assert forall|j: int| 0 <= j < available_nodes@.len() implies #[trigger] available_nodes@[j]@ == ids[j] by {}
                }
                Ok(available_nodes[i].clone())
            },
            LoadBalancingStrategy::LeastLoad => {
                let i = Self::first_min_load(available_nodes, registry);
                assert(ids[i as int] == available_nodes@[i as int]@);
                proof {
                    lemma_least_load_pick(registry.node_map(), ids, i as int);
                    assert forall|j: int| 0 <= j < available_nodes@.len() implies #[trigger] available_nodes@[j]@ == ids[j] by {}
                }
                Ok(available_nodes[i].clone())
            },
            LoadBalancingStrategy::WeightedRoundRobin => {
                let counter = self.round_robin_counter;
                let i = self.weighted_index(available_nodes, counter);
                self.round_robin_counter = counter + 1;
                assert(ids[i as int] == available_nodes@[i as int]@);
                Ok(available_nodes[i].clone())
            },
            LoadBalancingStrategy::ConsistentHash => {
                if available_nodes.len() == 1 {
                    assert(ids[0] == available_nodes@[0]@);
                    Ok(available_nodes[0].clone())
                } else {
                    let picked = pick_by_hash(available_nodes, time_hash());
                    assert(ids.contains(picked@)) by {
                        let k = (0 as int);
                        assert(ids[k] == available_nodes@[k]@);
                        let h = choose|k: int| 0 <= k < available_nodes@.len() && available_nodes@[k]@ == picked@;
                        assert(ids[h] == picked@);
                    }
                    Ok(picked)
                }
            },
        }
    }

    fn connections_of(registry: &NodeRegistry, id: &str) -> (k: usize)
        requires
            registry.wf(),
        ensures
            k as int == connections_key(registry.node_map(), id@),
    {
        match registry.get_node(id) {
            Some(n) => n.load_info.current_tasks,
            None => usize::MAX,
        }
    }

    fn load_of(registry: &NodeRegistry, id: &str) -> (k: u64)
        requires
            registry.wf(),
        ensures
            k as int == load_key(registry.node_map(), id@),
    {
        match registry.get_node(id) {
            Some(n) => n.load_info.cpu_usage_permille as u64 + n.load_info.memory_usage_permille as u64,
            None => u64::MAX,
        }
    }

    fn first_min_connections(available_nodes: &[String], registry: &NodeRegistry) -> (i: usize)
        requires
            registry.wf(),
            available_nodes@.len() > 0,
        ensures
            is_first_min(string_views(available_nodes@), |id: Seq<char>| connections_key(registry.node_map(), id), i as int),
    {
        let ghost ids = string_views(available_nodes@);
        let ghost key = |id: Seq<char>| connections_key(registry.node_map(), id);
        let mut best: usize = 0;
        let mut best_key = Self::connections_of(registry, available_nodes[0].as_str());
        let mut j: usize = 1;
        while j < available_nodes.len()
            invariant
                registry.wf(),
                ids == string_views(available_nodes@),
                key == (|id: Seq<char>| connections_key(registry.node_map(), id)),
                1 <= j <= available_nodes@.len(),
                best < j,
                best_key as int == key(ids[best as int]),
                forall|m: int| 0 <= m < j ==> key(#[trigger] ids[m]) >= key(ids[best as int]),
                forall|m: int| 0 <= m < best ==> key(#[trigger] ids[m]) > key(ids[best as int]),
            decreases available_nodes.len() - j,
        {
            let k = Self::connections_of(registry, available_nodes[j].as_str());
            assert(k as int == key(ids[j as int]));
            if k < best_key {
                best = j;
                best_key = k;
            }
            j = j + 1;
        }
        best
    }

    fn first_min_load(available_nodes: &[String], registry: &NodeRegistry) -> (i: usize)
        requires
            registry.wf(),
            available_nodes@.len() > 0,
        ensures
            is_first_min(string_views(available_nodes@), |id: Seq<char>| load_key(registry.node_map(), id), i as int),
    {
        let ghost ids = string_views(available_nodes@);
        let ghost key = |id: Seq<char>| load_key(registry.node_map(), id);
        let mut best: usize = 0;
        let mut best_key = Self::load_of(registry, available_nodes[0].as_str());
        let mut j: usize = 1;
        while j < available_nodes.len()
            invariant
                registry.wf(),
                ids == string_views(available_nodes@),
                key == (|id: Seq<char>| load_key(registry.node_map(), id)),
                1 <= j <= available_nodes@.len(),
                best < j,
                best_key as int == key(ids[best as int]),
                forall|m: int| 0 <= m < j ==> key(#[trigger] ids[m]) >= key(ids[best as int]),
                forall|m: int| 0 <= m < best ==> key(#[trigger] ids[m]) > key(ids[best as int]),
            decreases available_nodes.len() - j,
        {
            let k = Self::load_of(registry, available_nodes[j].as_str());
            assert(k as int == key(ids[j as int]));
            if k < best_key {
                best = j;
                best_key = k;
            }
            j = j + 1;
        }
        best
    }

    fn weight_for(&self, id: &str) -> (w: u64)
        requires
            self.wf(),
        ensures
            w as nat == weight_of(self.weights(), id@),
    {
        match self.node_weights.get(id) {
            Some(w) => *w,
            None => 1,
        }
    }

    fn weighted_index(&self, available_nodes: &[String], counter: usize) -> (i: usize)
        requires
            self.wf(),
            available_nodes@.len() > 0,
        ensures
            i < available_nodes@.len(),
            is_weighted_pick(string_views(available_nodes@), self.weights(), counter as nat, i as int),
    {
        let ghost ids = string_views(available_nodes@);
        let ghost w = self.weights();
        let n = available_nodes.len();
        let mut total: u128 = 0;
        let mut j: usize = 0;
        while j < n
            invariant
                self.wf(),
                n == available_nodes@.len(),
                ids == string_views(available_nodes@),
                w == self.weights(),
                j <= n,
                total as nat == weight_prefix(ids, w, j as int),
                total <= j as u128 * 0xFFFF_FFFF_FFFF_FFFFu128,
            decreases n - j,
        {
            let wj = self.weight_for(available_nodes[j].as_str());
            assert(ids[j as int] == available_nodes@[j as int]@);
            assert(total + wj <= (j + 1) as u128 * 0xFFFF_FFFF_FFFF_FFFFu128) by (nonlinear_arith)
                requires
                    total <= j as u128 * 0xFFFF_FFFF_FFFF_FFFFu128,
                    wj <= 0xFFFF_FFFF_FFFF_FFFFu64;
            total = total + wj as u128;
            j = j + 1;
        }
        if total == 0 {
            return 0;
        }
        let target: u128 = (counter as u128) % total + 1;
        let mut acc: u128 = 0;
        let mut k: usize = 0;
        while k < n
            invariant
                self.wf(),
                n == available_nodes@.len(),
                ids == string_views(available_nodes@),
                w == self.weights(),
                total as nat == weight_prefix(ids, w, n as int),
                total > 0,
                target as nat == (counter as nat) % (total as nat) + 1,
                k <= n,
                acc as nat == weight_prefix(ids, w, k as int),
                acc < target,
            decreases n - k,
        {
            let wk = self.weight_for(available_nodes[k].as_str());
            assert(ids[k as int] == available_nodes@[k as int]@);
            proof { lemma_weight_prefix_monotone(ids, w, k as int + 1, n as int); }
            let next = acc + wk as u128;
            if next >= target {
                return k;
            }
            acc = next;
            k = k + 1;
        }
        proof { lemma_weight_prefix_monotone(ids, w, n as int, n as int); }
        0
    }
}

proof fn lemma_weight_prefix_monotone(ids: Seq<Seq<char>>, w: Map<Seq<char>, u64>, a: int, b: int)
    requires
        a <= b,
    ensures
        weight_prefix(ids, w, a) <= weight_prefix(ids, w, b),
    decreases b - a,
{
    if a < b {
        lemma_weight_prefix_monotone(ids, w, a, b - 1);
    }
}


/// Health of a node as the failure detector tracks it.
#[derive(Debug, Clone)]
pub struct NodeHealthInfo {
    /// Time of the last heartbeat, in milliseconds since the Unix epoch.
    pub last_heartbeat: u64,
    /// Checks in a row that found the heartbeat late.
    pub consecutive_failures: u32,
    /// Health.
    pub status: NodeStatus,
    /// Recent heartbeat response times, in nanoseconds, oldest first.
    pub response_times: Vec<u128>,
}

/// Thresholds of the failure detector.
#[derive(Debug, Clone, Copy, PartialEq, Eq)]
pub struct FailureDetectionConfig {
    /// A heartbeat older than this is late, in milliseconds.
    pub heartbeat_timeout_ms: u64,
    /// Late checks in a row after which a node is unhealthy.
    pub max_consecutive_failures: u32,
    /// Time between checks, in milliseconds.
    pub health_check_interval_ms: u64,
}

impl FailureDetectionConfig {
    /// A 30 s heartbeat timeout, 3 failures, and a check every 10 s.
    pub fn default() -> (c: Self)
        ensures
            c.heartbeat_timeout_ms == 30000,
            c.max_consecutive_failures == 3,
            c.health_check_interval_ms == 10000,
    {
        FailureDetectionConfig { heartbeat_timeout_ms: 30000, max_consecutive_failures: 3, health_check_interval_ms: 10000 }
    }
}

/// Whether a check at time `now` finds the heartbeat late.
pub open spec fn heartbeat_late(info: NodeHealthInfo, now: u64, cfg: FailureDetectionConfig) -> bool {
    now >= info.last_heartbeat && now - info.last_heartbeat > cfg.heartbeat_timeout_ms
}

/// Whether a check at time `now` marks the node unhealthy.
pub open spec fn check_marks_unhealthy(info: NodeHealthInfo, now: u64, cfg: FailureDetectionConfig) -> bool {
    heartbeat_late(info, now, cfg) && info.consecutive_failures + 1 >= cfg.max_consecutive_failures
}

/// The failure count after a check at time `now`: one more for a late
/// heartbeat, zero for a timely one, unchanged for a heartbeat stamped after `now`.
pub open spec fn failures_after_check(info: NodeHealthInfo, now: u64, cfg: FailureDetectionConfig) -> int {
    if now < info.last_heartbeat {
        info.consecutive_failures as int
    } else if now - info.last_heartbeat > cfg.heartbeat_timeout_ms {
        info.consecutive_failures + 1
    } else {
        0
    }
}

/// The health after a check at time `now`: enough late checks in a row make a
/// node unhealthy, a timely heartbeat makes it healthy.
pub open spec fn status_after_check(info: NodeHealthInfo, now: u64, cfg: FailureDetectionConfig) -> NodeStatus {
    if now < info.last_heartbeat {
        info.status
    } else if now - info.last_heartbeat > cfg.heartbeat_timeout_ms {
        if info.consecutive_failures + 1 >= cfg.max_consecutive_failures { NodeStatus::Unhealthy } else { info.status }
    } else {
        NodeStatus::Healthy
    }
}

/// Whether `after` is the record `before` becomes in a check at time `now`.
pub open spec fn is_checked_health(before: NodeHealthInfo, after: NodeHealthInfo, now: u64, cfg: FailureDetectionConfig) -> bool {
    &&& after.last_heartbeat == before.last_heartbeat
    &&& after.response_times@ == before.response_times@
    &&& after.consecutive_failures as int == failures_after_check(before, now, cfg)
    &&& after.status == status_after_check(before, now, cfg)
}

/// A health record keeps at most 100 response times, each a valid duration.
pub open spec fn health_info_valid(h: NodeHealthInfo) -> bool {
    &&& h.response_times@.len() <= 100
    &&& forall|i: int| 0 <= i < h.response_times@.len() ==> #[trigger] h.response_times@[i] <= DURATION_MAX_NANOS
}

/// Watches heartbeats and marks nodes unhealthy when they stop.
#[derive(Debug)]
pub struct FailureDetector {
    node_health: KeyedList<NodeHealthInfo>,
    detection_config: FailureDetectionConfig,
}

impl FailureDetector {
    /// The health table is a well-formed map of valid records.
    pub closed spec fn wf(self) -> bool {
        &&& self.node_health.wf()
        &&& forall|k: Seq<char>| #[trigger] self.node_health.map().contains_key(k) ==> health_info_valid(self.node_health.map()[k])
    }

    /// The tracked nodes.
    pub closed spec fn health(self) -> Map<Seq<char>, NodeHealthInfo> {
        self.node_health.map()
    }

    /// Every record of a well-formed detector keeps at most 100 response
    /// times, each a duration that fits.
    pub proof fn lemma_records_valid(self)
        requires
            self.wf(),
        ensures
            forall|k: Seq<char>| #[trigger] self.health().contains_key(k) ==> health_info_valid(self.health()[k]),
    {
    }

    /// The thresholds.
    pub closed spec fn config(self) -> FailureDetectionConfig {
        self.detection_config
    }

    /// A detector tracking no node.
    pub fn new(config: FailureDetectionConfig) -> (d: Self)
        ensures
            d.wf(),
            d.health() == Map::<Seq<char>, NodeHealthInfo>::empty(),
            d.config() == config,
    {
        FailureDetector { node_health: KeyedList::new(), detection_config: config }
    }

    /// The health record of `node_id`.
    pub fn get_health(&self, node_id: &str) -> (r: Option<&NodeHealthInfo>)
        requires
            self.wf(),
        ensures
            match r {
                Some(h) => self.health().contains_key(node_id@) && *h == self.health()[node_id@],
                None => !self.health().contains_key(node_id@),
            },
    {
        self.node_health.get(node_id)
    }

    /// Checks every tracked node against the current system time: see
    /// `check_node_health_at`, which this runs for the time the clock reads.
    pub fn check_node_health(&mut self, registry: &mut NodeRegistry)
        requires
            old(self).wf(),
            old(registry).wf(),
            forall|k: Seq<char>| old(self).health().contains_key(k) ==> #[trigger] old(self).health()[k].consecutive_failures < u32::MAX,
        ensures
            final(self).wf(),
            final(registry).wf(),
            exists|now: u64| #[trigger] health_checked(*old(self), *final(self), *old(registry), *final(registry), now),
    {
        let now = crate::clock::system_now_millis();
        self.check_node_health_at(registry, now);
        assert(health_checked(*old(self), *self, *old(registry), *registry, now));
    }

    /// Checks every tracked node at time `now` (see `health_after_check`), then
    /// marks unhealthy in `registry` each node that this check made unhealthy.
    pub fn check_node_health_at(&mut self, registry: &mut NodeRegistry, now: u64)
        requires
            old(self).wf(),
            old(registry).wf(),
            forall|k: Seq<char>| old(self).health().contains_key(k) ==> #[trigger] old(self).health()[k].consecutive_failures < u32::MAX,
        ensures
            final(self).wf(),
            final(registry).wf(),
            health_checked(*old(self), *final(self), *old(registry), *final(registry), now),
    {
        let ghost old_health = self.health();
        let ghost cfg = self.detection_config;
        let mut unhealthy: Vec<String> = Vec::new();
        let n = self.node_health.entry_count();
        proof { self.node_health.lemma_model(); }
        let mut i: usize = 0;
        while i < n
            invariant
                self.wf(),
                self.detection_config == cfg,
                n == self.node_health.entries().len(),
                i <= n,
                self.node_health.key_order() == old(self).node_health.key_order(),
                self.health().dom() == old_health.dom(),
                old_health == old(self).health(),
                forall|k: Seq<char>| old_health.contains_key(k) ==> #[trigger] old_health[k].consecutive_failures < u32::MAX,
                self.node_health.key_order().len() == n,
                forall|j: int| 0 <= j < n ==> {
                    let k = #[trigger] self.node_health.key_order()[j];
                    if j < i { is_checked_health(old_health[k], self.health()[k], now, cfg) } else { self.health()[k] == old_health[k] }
                },
                string_views(unhealthy@) == self.node_health.key_order().subrange(0, i as int).filter(
                    |k: Seq<char>| check_marks_unhealthy(old_health[k], now, cfg)),
            decreases n - i,
        {
            proof { self.node_health.lemma_model(); }
            let ghost key = self.node_health.key_order()[i as int];
            let (k, info) = self.node_health.entry_at(i);
            assert(k@ == key);
            assert(self.health()[key] == old_health[key]);
            assert(*info == old_health[key]);
            let mut updated = NodeHealthInfo {
                last_heartbeat: info.last_heartbeat,
                consecutive_failures: info.consecutive_failures,
                status: info.status,
                response_times: crate::distributed::copy_durations(&info.response_times),
            };
            let mut marks = false;
            if now >= info.last_heartbeat {
                if now - info.last_heartbeat > self.detection_config.heartbeat_timeout_ms {
                    updated.consecutive_failures = info.consecutive_failures + 1;
                    if updated.consecutive_failures >= self.detection_config.max_consecutive_failures {
                        updated.status = NodeStatus::Unhealthy;
                        marks = true;
                    }
                } else {
                    updated.consecutive_failures = 0;
                    updated.status = NodeStatus::Healthy;
                }
            }
            let key_copy = k.clone();
            let ghost new_info = updated;
            assert(is_checked_health(old_health[key], new_info, now, cfg));
            proof {
                let pred = |kk: Seq<char>| check_marks_unhealthy(old_health[kk], now, cfg);
                assert(self.node_health.key_order().subrange(0, i + 1) =~= self.node_health.key_order().subrange(0, i as int).push(key));
                crate::seqs::lemma_filter_push(self.node_health.key_order().subrange(0, i as int), pred, key);
            }
            if marks {
                let ghost before = unhealthy@;
                unhealthy.push(key_copy);
                assert(string_views(unhealthy@) =~= string_views(before).push(key));
            }
            self.node_health.set_value_at(i, updated);
            proof { self.node_health.lemma_model(); }
            i = i + 1;
        }
        proof { self.node_health.lemma_model(); }
        assert(self.node_health.key_order().subrange(0, n as int) =~= self.node_health.key_order());
        assert forall|k: Seq<char>| #[trigger] old_health.contains_key(k) implies is_checked_health(old_health[k], self.health()[k], now, cfg) by {
            let j = self.node_health.key_order().index_of(k);
            assert(self.health().contains_key(k));
            assert(self.node_health.key_order().to_set().contains(k));
            assert(self.node_health.key_order().contains(k));
            assert(0 <= j < n && self.node_health.key_order()[j] == k);
        }
        assert forall|k: Seq<char>| #[trigger] self.node_health.map().contains_key(k) implies health_info_valid(self.node_health.map()[k]) by {
            let j = self.node_health.key_order().index_of(k);
            assert(self.node_health.key_order().to_set().contains(k));
            assert(self.node_health.key_order().contains(k));
            assert(0 <= j < n && self.node_health.key_order()[j] == k);
            assert(old_health.contains_key(k));
        }
        mark_all_unhealthy(registry, &unhealthy);
        proof {
            let pred = |kk: Seq<char>| check_marks_unhealthy(old_health[kk], now, cfg);
            let ko = self.node_health.key_order();
            crate::seqs::lemma_filter_subset(ko, pred);
            ko.filter_lemma(pred);
            let marked = |k: Seq<char>| old_health.contains_key(k) && check_marks_unhealthy(old_health[k], now, cfg);
            assert forall|k: Seq<char>| string_views(unhealthy@).contains(k) == marked(k) by {
                if string_views(unhealthy@).contains(k) {
                    assert(ko.filter(pred).contains(k));
                    assert(ko.contains(k));
                    assert(ko.to_set().contains(k));
                }
                if marked(k) {
                    assert(self.health().contains_key(k));
                    assert(ko.to_set().contains(k));
                    let w = choose|w: int| 0 <= w < ko.len() && ko[w] == k;
                    assert(pred(ko[w]));
                }
            }
            let r0 = *old(registry);
            let m_target = Map::new(|k: Seq<char>| r0.node_map().contains_key(k),
                |k: Seq<char>| if marked(k) { NodeInfo { status: NodeStatus::Unhealthy, ..r0.node_map()[k] } } else { r0.node_map()[k] });
            assert(registry.node_map() =~= m_target);
            assert((|x: Seq<char>| !string_views(unhealthy@).contains(x)) =~= (|x: Seq<char>| !marked(x)));
        }
    }

    /// Records a heartbeat from `node_id` at the current system time, with
    /// its response time in nanoseconds. A node seen for the first time starts
    /// healthy. Only the latest 100 response times are kept.
    pub fn update_node_heartbeat(&mut self, node_id: &str, response_time: u128)
        requires
            old(self).wf(),
            response_time <= DURATION_MAX_NANOS,
        ensures
            final(self).wf(),
            final(self).config() == old(self).config(),
            final(self).health().dom() == old(self).health().dom().insert(node_id@),
            forall|k: Seq<char>| k != node_id@ ==> #[trigger] final(self).health().contains_key(k) ==> final(self).health()[k] == old(self).health()[k],
            ({
                let before = if old(self).health().contains_key(node_id@) {
                    old(self).health()[node_id@].response_times@
                } else {
                    Seq::<u128>::empty()
                };
                let h = final(self).health()[node_id@];
                &&& h.response_times@ == (if before.len() + 1 > 100 { before.push(response_time).drop_first() } else { before.push(response_time) })
                &&& h.response_times@.len() <= 100
                &&& h.response_times@.last() == response_time
                &&& h.consecutive_failures == (if old(self).health().contains_key(node_id@) { old(self).health()[node_id@].consecutive_failures } else { 0 })
                &&& h.status == (if old(self).health().contains_key(node_id@) { old(self).health()[node_id@].status } else { NodeStatus::Healthy })
            }),
    {
        let now = crate::clock::system_now_millis();
        let mut info = match self.node_health.remove(node_id) {
            Some(h) => h,
            None => NodeHealthInfo { last_heartbeat: now, consecutive_failures: 0, status: NodeStatus::Healthy, response_times: Vec::new() },
        };
        let ghost before = info.response_times@;
        assert(health_info_valid(info));
        info.last_heartbeat = now;
        info.response_times.push(response_time);
        if info.response_times.len() > 100 {
            info.response_times.remove(0);
            assert(info.response_times@ =~= before.push(response_time).drop_first());
        }
        assert(health_info_valid(info)) by {
            assert forall|i: int| 0 <= i < info.response_times@.len() implies #[trigger] info.response_times@[i] <= DURATION_MAX_NANOS by {
                if before.len() + 1 > 100 {
                    assert(info.response_times@[i] == before.push(response_time)[i + 1]);
                } else {
                    assert(info.response_times@[i] == before.push(response_time)[i]);
                }
            }
        }
        self.node_health.insert(crate::text::owned(node_id), info);
        assert(self.health().dom() =~= old(self).health().dom().insert(node_id@));
    }

    /// The mean of the recorded response times of `node_id`, rounded down;
    /// `None` for an unknown node or one with no record.
    pub fn get_average_response_time(&self, node_id: &str) -> (r: Option<u128>)
        requires
            self.wf(),
        ensures
            r == (if self.health().contains_key(node_id@) && self.health()[node_id@].response_times@.len() > 0 {
                Some((sum_u128(self.health()[node_id@].response_times@) / self.health()[node_id@].response_times@.len() as int) as u128)
            } else {
                None
            }),
    {
        match self.node_health.get(node_id) {
            Some(h) => {
                if h.response_times.len() == 0 {
                    None
                } else {
                    let total = sum_durations(&h.response_times);
                    Some(total / (h.response_times.len() as u128))
                }
            },
            None => None,
        }
    }
}

/// Whether the state after a health check at time `now` is the one the check makes.
pub open spec fn health_checked(d0: FailureDetector, d1: FailureDetector, r0: NodeRegistry, r1: NodeRegistry, now: u64) -> bool {
    let cfg = d0.config();
    let h0 = d0.health();
    let marked = |k: Seq<char>| h0.contains_key(k) && check_marks_unhealthy(h0[k], now, cfg);
    &&& d1.config() == cfg
    &&& d1.health().dom() == h0.dom()
    &&& forall|k: Seq<char>| #[trigger] h0.contains_key(k) ==> is_checked_health(h0[k], d1.health()[k], now, cfg)
    &&& r1.node_map() == Map::new(|k: Seq<char>| r0.node_map().contains_key(k),
        |k: Seq<char>| if marked(k) { NodeInfo { status: NodeStatus::Unhealthy, ..r0.node_map()[k] } } else { r0.node_map()[k] })
    &&& r1.healthy() == r0.healthy().filter(|x: Seq<char>| !marked(x))
    &&& forall|role: NodeRole| #[trigger] r1.role_members(role) == r0.role_members(role)
}

/// The sum of a sequence of durations.
pub open spec fn sum_u128(s: Seq<u128>) -> int
    decreases s.len(),
{
    if s.len() == 0 {
        0
    } else {
        sum_u128(s.drop_last()) + s.last()
    }
}

fn sum_durations(v: &Vec<u128>) -> (total: u128)
    requires
        v@.len() <= 100,
        forall|i: int| 0 <= i < v@.len() ==> #[trigger] v@[i] <= DURATION_MAX_NANOS,
    ensures
        total as int == sum_u128(v@),
{
    let mut total: u128 = 0;
    let mut i: usize = 0;
    while i < v.len()
        invariant
            i <= v@.len(),
            v@.len() <= 100,
            forall|i: int| 0 <= i < v@.len() ==> #[trigger] v@[i] <= DURATION_MAX_NANOS,
            total as int == sum_u128(v@.subrange(0, i as int)),
            total as int <= i * DURATION_MAX_NANOS,
        decreases v.len() - i,
    {
        assert(v@.subrange(0, i + 1).drop_last() =~= v@.subrange(0, i as int));
        assert(v@[i as int] <= DURATION_MAX_NANOS);
        total = total + v[i];
        i = i + 1;
    }
    assert(v@.subrange(0, i as int) =~= v@);
    total
}

pub(crate) fn copy_durations(v: &Vec<u128>) -> (r: Vec<u128>)
    ensures
        r@ == v@,
{
    let mut r: Vec<u128> = Vec::new();
    let mut i: usize = 0;
    while i < v.len()
        invariant
            i <= v.len(),
            r@ == v@.subrange(0, i as int),
        decreases v.len() - i,
    {
        r.push(v[i]);
        i = i + 1;
        assert(r@ =~= v@.subrange(0, i as int));
    }
    assert(r@ =~= v@);
    r
}

fn mark_all_unhealthy(registry: &mut NodeRegistry, ids: &Vec<String>)
    requires
        old(registry).wf(),
    ensures
        final(registry).wf(),
        final(registry).node_map() == Map::new(|k: Seq<char>| old(registry).node_map().contains_key(k),
            |k: Seq<char>| if string_views(ids@).contains(k) { NodeInfo { status: NodeStatus::Unhealthy, ..old(registry).node_map()[k] } } else { old(registry).node_map()[k] }),
        final(registry).healthy() == old(registry).healthy().filter(|x: Seq<char>| !string_views(ids@).contains(x)),
        forall|role: NodeRole| #[trigger] final(registry).role_members(role) == old(registry).role_members(role),
{
    let ghost m0 = registry.node_map();
    let ghost h0 = registry.healthy();
    let mut j: usize = 0;
    proof {
        crate::seqs::lemma_filter_all(h0, |x: Seq<char>| !string_views(ids@).subrange(0, 0).contains(x));
        assert(registry.node_map() =~= Map::new(|k: Seq<char>| m0.contains_key(k),
            |k: Seq<char>| if string_views(ids@).subrange(0, 0).contains(k) { NodeInfo { status: NodeStatus::Unhealthy, ..m0[k] } } else { m0[k] }));
    }
    while j < ids.len()
        invariant
            registry.wf(),
            j <= ids@.len(),
            forall|role: NodeRole| #[trigger] registry.role_members(role) == old(registry).role_members(role),
            m0 == old(registry).node_map(),
            h0 == old(registry).healthy(),
            registry.node_map() == Map::new(|k: Seq<char>| m0.contains_key(k),
                |k: Seq<char>| if string_views(ids@).subrange(0, j as int).contains(k) { NodeInfo { status: NodeStatus::Unhealthy, ..m0[k] } } else { m0[k] }),
            registry.healthy() == h0.filter(|x: Seq<char>| !string_views(ids@).subrange(0, j as int).contains(x)),
        decreases ids.len() - j,
    {
        let ghost pre = string_views(ids@).subrange(0, j as int);
        let ghost id = ids@[j as int]@;
        let ghost post = string_views(ids@).subrange(0, j + 1);
        assert(post =~= pre.push(id));
        let ghost reg_before = *registry;
        proof { reg_before.lemma_healthy_registered(); }
        registry.update_node_status(ids[j].as_str(), NodeStatus::Unhealthy);
        proof {
            let p1 = |x: Seq<char>| !pre.contains(x);
            let p2 = crate::text::differs_from(id);
            crate::seqs::lemma_filter_filter(h0, p1, p2);
            assert forall|x: Seq<char>| (p1(x) && p2(x)) == !post.contains(x) by {
                if pre.contains(x) {
                    let w = choose|w: int| 0 <= w < pre.len() && pre[w] == x;
                    assert(post[w] == x);
                }
                if x == id {
                    assert(post[pre.len() as int] == x);
                }
                if post.contains(x) && x != id {
                    let w = choose|w: int| 0 <= w < post.len() && post[w] == x;
                    assert(w < pre.len());
                    assert(pre[w] == x);
                }
            }
            assert((|x: Seq<char>| p1(x) && p2(x)) =~= (|x: Seq<char>| !post.contains(x)));
            if !reg_before.node_map().contains_key(id) {
                crate::seqs::lemma_filter_absent(reg_before.healthy(), id);
                assert(!m0.contains_key(id));
                assert((|y: Seq<char>| y != id) =~= p2);
            }
            assert(reg_before.healthy() == h0.filter(p1));
            if reg_before.node_map().contains_key(id) {
                assert(registry.healthy() == seq_without(reg_before.healthy(), id));
            } else {
                assert(registry.healthy() == reg_before.healthy());
            }
            assert(registry.healthy() == h0.filter(p1).filter(p2));
            assert(registry.healthy() == h0.filter(|x: Seq<char>| !post.contains(x)));
            assert((|x: Seq<char>| !post.contains(x)) =~= (|x: Seq<char>| !string_views(ids@).subrange(0, j + 1).contains(x)));
            let target = Map::new(|k: Seq<char>| m0.contains_key(k),
                |k: Seq<char>| if post.contains(k) { NodeInfo { status: NodeStatus::Unhealthy, ..m0[k] } } else { m0[k] });
            assert forall|k: Seq<char>| #[trigger] registry.node_map().contains_key(k) == target.contains_key(k) by {}
            assert forall|k: Seq<char>| registry.node_map().contains_key(k) implies #[trigger] registry.node_map()[k] == target[k] by {
                if k == id {
                    assert(post.contains(k)) by { assert(post[pre.len() as int] == k); }
                } else {
                    assert(post.contains(k) == pre.contains(k)) by {
                        if pre.contains(k) {
                            let w = choose|w: int| 0 <= w < pre.len() && pre[w] == k;
                            assert(post[w] == k);
                        }
                        if post.contains(k) {
                            let w = choose|w: int| 0 <= w < post.len() && post[w] == k;
                            assert(pre[w] == k);
                        }
                    }
                }
            }
            assert(registry.node_map() =~= target);
        }
        j = j + 1;
    }
    assert(string_views(ids@).subrange(0, j as int) =~= string_views(ids@));
}


/// Routes messages to next hops and broadcast groups.
#[derive(Debug)]
pub struct MessageRouter {
    routes: KeyedList<String>,
    broadcast_groups: KeyedList<Vec<String>>,
}

impl MessageRouter {
    /// The tables are well-formed maps.
    pub closed spec fn wf(self) -> bool {
        self.routes.wf() && self.broadcast_groups.wf()
    }

    /// Next hop by destination.
    pub closed spec fn routes(self) -> Map<Seq<char>, String> {
        self.routes.map()
    }

    /// Members by group name.
    pub closed spec fn groups(self) -> Map<Seq<char>, Vec<String>> {
        self.broadcast_groups.map()
    }

    /// A router with no routes and no groups.
    pub fn new() -> (r: Self)
        ensures
            r.wf(),
            r.routes() == Map::<Seq<char>, String>::empty(),
            r.groups() == Map::<Seq<char>, Vec<String>>::empty(),
    {
        MessageRouter { routes: KeyedList::new(), broadcast_groups: KeyedList::new() }
    }

    /// Routes `destination` through `next_hop`, replacing any earlier route.
    pub fn add_route(&mut self, destination: String, next_hop: String)
        requires
            old(self).wf(),
        ensures
            final(self).wf(),
            final(self).routes() == old(self).routes().insert(destination@, next_hop),
            final(self).groups() == old(self).groups(),
    {
        self.routes.insert(destination, next_hop);
    }

    /// The next hop towards `destination`.
    pub fn get_next_hop(&self, destination: &str) -> (r: Option<&String>)
        requires
            self.wf(),
        ensures
            match r {
                Some(h) => self.routes().contains_key(destination@) && *h == self.routes()[destination@],
                None => !self.routes().contains_key(destination@),
            },
    {
        self.routes.get(destination)
    }

    /// Sets the members of group `group_name`, replacing any earlier list.
    pub fn add_broadcast_group(&mut self, group_name: String, members: Vec<String>)
        requires
            old(self).wf(),
        ensures
            final(self).wf(),
            final(self).groups() == old(self).groups().insert(group_name@, members),
            final(self).routes() == old(self).routes(),
    {
        self.broadcast_groups.insert(group_name, members);
    }

    /// The members of group `group_name`.
    pub fn get_broadcast_group(&self, group_name: &str) -> (r: Option<&Vec<String>>)
        requires
            self.wf(),
        ensures
            match r {
                Some(g) => self.groups().contains_key(group_name@) && *g == self.groups()[group_name@],
                None => !self.groups().contains_key(group_name@),
            },
    {
        self.broadcast_groups.get(group_name)
    }
}

/// The state of a connection to another node.
#[derive(Debug, Clone, Copy, PartialEq, Eq, Structural)]
pub enum ConnectionStatus {
    /// Connected.
    Connected,
    /// Connecting.
    Connecting,
    /// Closed.
    Disconnected,
    /// Failed.
    Failed,
}

/// Counts of connections by state.
#[derive(Debug, Clone, Copy, PartialEq, Eq)]
pub struct ConnectionStats {
    /// All connections.
    pub total_connections: usize,
    /// Connected ones.
    pub connected_count: usize,
    /// Closed ones.
    pub disconnected_count: usize,
    /// Failed ones.
    pub failed_count: usize,
}

/// The test "is in state `st`".
pub open spec fn has_status(st: ConnectionStatus) -> spec_fn(ConnectionStatus) -> bool {
    |x: ConnectionStatus| x == st
}

/// How many of `statuses` equal `st`.
pub open spec fn count_connections(statuses: Seq<ConnectionStatus>, st: ConnectionStatus) -> nat {
    statuses.filter(has_status(st)).len()
}

fn count_status_of(statuses: &[ConnectionStatus], st: ConnectionStatus) -> (n: usize)
    ensures
        n == count_connections(statuses@, st),
{
    let ghost pred = has_status(st);
    let mut n: usize = 0;
    let mut i: usize = 0;
    while i < statuses.len()
        invariant
            i <= statuses@.len(),
            pred == has_status(st),
            n == statuses@.subrange(0, i as int).filter(pred).len(),
            n <= i,
        decreases statuses.len() - i,
    {
        proof {
            assert(statuses@.subrange(0, i + 1) =~= statuses@.subrange(0, i as int).push(statuses@[i as int]));
            lemma_filter_push(statuses@.subrange(0, i as int), pred, statuses@[i as int]);
        }
        if statuses[i] == st {
            n = n + 1;
        }
        i = i + 1;
    }
    assert(statuses@.subrange(0, i as int) =~= statuses@);
    n
}

/// Counts the connections, and those connected, closed and failed, from the
/// status of each connection in the pool.
pub fn connection_stats(statuses: &[ConnectionStatus]) -> (st: ConnectionStats)
    ensures
        st.total_connections == statuses@.len(),
        st.connected_count == count_connections(statuses@, ConnectionStatus::Connected),
        st.disconnected_count == count_connections(statuses@, ConnectionStatus::Disconnected),
        st.failed_count == count_connections(statuses@, ConnectionStatus::Failed),
{
    ConnectionStats {
        total_connections: statuses.len(),
        connected_count: count_status_of(statuses, ConnectionStatus::Connected),
        disconnected_count: count_status_of(statuses, ConnectionStatus::Disconnected),
        failed_count: count_status_of(statuses, ConnectionStatus::Failed),
    }
}

/// Automatic failover settings.
#[derive(Debug, Clone, Copy, PartialEq, Eq)]
pub struct FailoverConfig {
    /// Whether failover is automatic.
    pub enable_auto_failover: bool,
    /// The most retries.
    pub max_retry_attempts: u32,
    /// Pause between retries, in milliseconds.
    pub retry_interval_ms: u64,
    /// Time after which a silent node counts as failed, in milliseconds.
    pub failure_detection_timeout_ms: u64,
}

impl FailoverConfig {
    /// Automatic failover, 3 retries 5 s apart, 30 s detection timeout.
    pub fn default_config() -> (c: Self)
        ensures
            c.enable_auto_failover,
            c.max_retry_attempts == 3,
            c.retry_interval_ms == 5000,
            c.failure_detection_timeout_ms == 30000,
    {
        FailoverConfig { enable_auto_failover: true, max_retry_attempts: 3, retry_interval_ms: 5000, failure_detection_timeout_ms: 30000 }
    }
}

/// Network settings of a node.
#[derive(Debug, Clone, PartialEq, Eq)]
pub struct NetworkConfig {
    /// Address to listen on.
    pub listen_address: String,
    /// Port to listen on.
    pub listen_port: u16,
    /// Connection timeout, in milliseconds.
    pub connection_timeout_ms: u64,
    /// Request timeout, in milliseconds.
    pub request_timeout_ms: u64,
    /// The most connections.
    pub max_connections: usize,
}

impl NetworkConfig {
    /// Listen on 0.0.0.0:8080 with 10 s and 30 s timeouts and 1000 connections.
    pub fn default_config() -> (c: Self)
        ensures
            c.listen_address@ == "0.0.0.0"@,
            c.listen_port == 8080,
            c.connection_timeout_ms == 10000,
            c.request_timeout_ms == 30000,
            c.max_connections == 1000,
    {
        NetworkConfig {
            listen_address: crate::text::owned("0.0.0.0"),
            listen_port: 8080,
            connection_timeout_ms: 10000,
            request_timeout_ms: 30000,
            max_connections: 1000,
        }
    }
}

/// Cluster settings of the distributed executor.
#[derive(Debug, Clone)]
pub struct DistributedConfig {
    /// Cluster name.
    pub cluster_name: String,
    /// Role of this node.
    pub node_role: NodeRole,
    /// Time between heartbeats, in milliseconds.
    pub heartbeat_interval_ms: u64,
    /// Task time limit, in milliseconds.
    pub task_timeout_ms: u64,
    /// The most tasks run at once.
    pub max_concurrent_tasks: usize,
    /// How nodes are picked.
    pub load_balancing_strategy: LoadBalancingStrategy,
    /// Failover settings.
    pub failover_config: FailoverConfig,
    /// Network settings.
    pub network_config: NetworkConfig,
}

impl DistributedConfig {
    /// The "dataflare-cluster" cluster, a hybrid node, 10 s heartbeats, 300 s
    /// task timeout, 10 concurrent tasks, least-load balancing.
    pub fn default_config() -> (c: Self)
        ensures
            c.cluster_name@ == "dataflare-cluster"@,
            c.node_role == NodeRole::Hybrid,
            c.heartbeat_interval_ms == 10000,
            c.task_timeout_ms == 300000,
            c.max_concurrent_tasks == 10,
            c.load_balancing_strategy == LoadBalancingStrategy::LeastLoad,
            c.failover_config.max_retry_attempts == 3,
            c.network_config.listen_port == 8080,
    {
        DistributedConfig {
            cluster_name: crate::text::owned("dataflare-cluster"),
            node_role: NodeRole::Hybrid,
            heartbeat_interval_ms: 10000,
            task_timeout_ms: 300000,
            max_concurrent_tasks: 10,
            load_balancing_strategy: LoadBalancingStrategy::LeastLoad,
            failover_config: FailoverConfig::default_config(),
            network_config: NetworkConfig::default_config(),
        }
    }
}

/// A message between nodes.
#[derive(Debug, Clone)]
pub enum DistributedMessage {
    /// A node reports that it lives, with its load.
    Heartbeat { node_id: String, load_info: NodeLoadInfo },
    /// A task is assigned to a node.
    TaskAssignment { task: DistributedTask, target_node: String },
    /// A task finished.
    TaskResult { result: TaskExecutionResult },
    /// A node joins.
    NodeRegistration { node_info: NodeInfo },
    /// A node leaves.
    NodeDeregistration { node_id: String },
    /// The full list of nodes.
    ClusterStateSync { nodes: Vec<NodeInfo> },
}

/// The load this node reports about itself: 30% CPU, 40% memory, 2 of 10
/// task slots used, 5 ms latency, 100 tasks per second.
pub fn local_load_info() -> (l: NodeLoadInfo)
    ensures
        l.cpu_usage_permille == 300,
        l.memory_usage_permille == 400,
        l.current_tasks == 2,
        l.max_tasks == 10,
        l.network_latency == 5,
        l.throughput == 100,
{
    NodeLoadInfo { cpu_usage_permille: 300, memory_usage_permille: 400, current_tasks: 2, max_tasks: 10, network_latency: 5, throughput: 100 }
}

/// Picks the node to run a task of plugin `plugin_id`: among the healthy nodes
/// that run the plugin, the one the load balancer selects. Fails when no
/// healthy node runs it.
pub fn select_best_node(registry: &NodeRegistry, load_balancer: &mut LoadBalancer, plugin_id: &str) -> (r: WasmResult<String>)
    requires
        registry.wf(),
        old(load_balancer).wf(),
        old(load_balancer).strategy() is RoundRobin || old(load_balancer).strategy() is WeightedRoundRobin
            ==> old(load_balancer).counter() < usize::MAX,
    ensures
        final(load_balancer).wf(),
        ({
            let candidates = registry.healthy().filter(|k: Seq<char>|
                registry.node_map().contains_key(k) && supports_plugin(registry.node_map()[k], plugin_id@));
            &&& candidates.len() == 0 ==> (r matches Err(WasmError::Runtime(_))) && *final(load_balancer) == *old(load_balancer)
            &&& candidates.len() > 0 ==> r is Ok && candidates.contains(r->Ok_0@)
        }),
{
    let available = registry.get_nodes_supporting_plugin(plugin_id);
    if available.len() == 0 {
        return Err(WasmError::runtime(crate::text::owned("没有可用节点支持插件")));
    }
    let r = load_balancer.select_node(available.as_slice(), registry);
    proof {
        let ids = string_views(available@);
        let picked = r->Ok_0@;
        match old(load_balancer).strategy() {
            LoadBalancingStrategy::RoundRobin => {
                assert(ids.contains(ids[(old(load_balancer).counter() % ids.len()) as int]));
            },
            LoadBalancingStrategy::LeastConnections => {
                let i = choose|i: int| is_first_min(ids, |id: Seq<char>| connections_key(registry.node_map(), id), i) && picked == ids[i];
                assert(ids.contains(ids[i]));
            },
            LoadBalancingStrategy::LeastLoad => {
                let i = choose|i: int| is_first_min(ids, |id: Seq<char>| load_key(registry.node_map(), id), i) && picked == ids[i];
                assert(ids.contains(ids[i]));
            },
            LoadBalancingStrategy::WeightedRoundRobin => {
                let i = choose|i: int| is_weighted_pick(ids, old(load_balancer).weights(), old(load_balancer).counter(), i) && picked == ids[i];
                assert(ids.contains(ids[i]));
            },
            LoadBalancingStrategy::ConsistentHash => {},
        }
    }
    r
}

/// Where a submitted task runs.
#[derive(Debug, Clone, PartialEq, Eq)]
pub enum SubmissionRoute {
    /// On this node's scheduler.
    Local,
    /// Sent to another node.
    Forward(String),
}

/// Where a task goes once `target_node` has been selected for it: this node
/// runs it when it is the one selected, else it is forwarded.
pub fn route_submission(target_node: String, self_node_id: &str) -> (r: SubmissionRoute)
    ensures
        target_node@ == self_node_id@ ==> r == SubmissionRoute::Local,
        target_node@ != self_node_id@ ==> (r matches SubmissionRoute::Forward(n) && n@ == target_node@),
{
    if crate::text::str_eq(target_node.as_str(), self_node_id) {
        SubmissionRoute::Local
    } else {
        SubmissionRoute::Forward(target_node)
    }
}

/// The message that forwards `task` to `target_node`.
pub fn task_assignment(task: DistributedTask, target_node: String) -> (m: DistributedMessage)
    ensures
        m == (DistributedMessage::TaskAssignment { task, target_node }),
{
    DistributedMessage::TaskAssignment { task, target_node }
}

/// The heartbeat this node broadcasts: its identifier and its load.
pub fn heartbeat_message(node_id: String) -> (m: DistributedMessage)
    ensures
        m matches DistributedMessage::Heartbeat { node_id: n, load_info } && n == node_id && load_info.current_tasks == 2
            && load_info.max_tasks == 10,
{
    DistributedMessage::Heartbeat { node_id, load_info: local_load_info() }
}

/// The result filed for a task whose execution on `node_id` failed with
/// `error_message` at `now`: failed, no output, no time, nothing used.
pub fn failed_execution(task_id: String, error_message: String, node_id: String, now: u64) -> (r: TaskExecutionResult)
    ensures
        r.task_id == task_id,
        r.status == TaskExecutionStatus::Failed,
        r.output_data is None,
        r.error_message == Some(error_message),
        r.execution_time_ms == 0,
        r.executed_on_node == node_id,
        r.completed_at == now,
        r.execution_stats == (ExecutionStats { bytes_processed: 0, peak_memory_usage: 0, cpu_time_ms: 0, network_io_bytes: 0, disk_io_bytes: 0 }),
{
    TaskExecutionResult {
        task_id,
        status: TaskExecutionStatus::Failed,
        output_data: None,
        error_message: Some(error_message),
        execution_time_ms: 0,
        executed_on_node: node_id,
        completed_at: now,
        execution_stats: ExecutionStats::zero(),
    }
}

impl TaskScheduler {
    /// Files the outcome of running task `task_id` on `node_id`: the result
    /// when it ran, else a failure carrying the error's message, completed at
    /// `now`. One step of the scheduler's loop, after `get_next_task` and the
    /// execution.
    pub fn finish_task(&mut self, task_id: String, outcome: WasmResult<TaskExecutionResult>, node_id: String, now: u64)
        requires
            old(self).wf(),
        ensures
            final(self).wf(),
            final(self).pending() == old(self).pending(),
            final(self).completed().contains_key(task_id@),
            forall|e: TaskExecution| #[trigger] final(self).running().contains(e)
                <==> old(self).running().contains(e) && e.task.task_id@ != task_id@,
            match outcome {
                Ok(res) => final(self).completed() == old(self).completed().insert(task_id@, res),
                Err(e) => {
                    let f = final(self).completed()[task_id@];
                    &&& f.status == TaskExecutionStatus::Failed
                    &&& f.error_message matches Some(m) && m@ == e.spec_message()
                    &&& f.task_id@ == task_id@
                    &&& f.executed_on_node == node_id
                    &&& f.completed_at == now
                    &&& final(self).completed().remove(task_id@) == old(self).completed().remove(task_id@)
                },
            },
    {
        let result = match outcome {
            Ok(res) => res,
            Err(e) => failed_execution(crate::text::owned(task_id.as_str()), e.message(), node_id, now),
        };
        self.complete_task(task_id, result);
    }
}

} // verus!
