//! Cloud placement of WASM plugins: choosing the node to send a plugin call
//! to, from the load the nodes' plugins report, and the health checker's
//! timing.

use std::collections::HashMap;
use vstd::prelude::*;
use crate::keyed::KeyedList;
use crate::marketplace::package_manager::{sort_strings, strictly_sorted};
use crate::plugin::WasmPluginMetadata;
use crate::seqs::{lemma_push_no_duplicates, lemma_push_to_set};
use crate::text::{contains_str, owned, str_eq, string_views};
use crate::wasm_error::{WasmError, WasmResult};

verus! {

/// How a node finds the other nodes of its cluster.
#[derive(Debug, Clone)]
pub enum DiscoveryMethod {
    /// A fixed list of node addresses.
    Static(Vec<String>),
    /// A DNS name.
    Dns(String),
    Kubernetes(KubernetesConfig),
    Consul(ConsulConfig),
}

/// Where to find the cluster's nodes in Kubernetes.
#[derive(Debug, Clone)]
pub struct KubernetesConfig {
    pub namespace: String,
    pub service_name: String,
    pub label_selector: HashMap<String, String>,
}

/// Where to find the cluster's nodes in Consul.
#[derive(Debug, Clone)]
pub struct ConsulConfig {
    pub address: String,
    pub service_name: String,
    pub datacenter: Option<String>,
}

/// How far the plugin registry agrees with the rest of the cluster.
#[derive(Debug, Clone)]
pub enum RegistrySyncState {
    Syncing,
    Synced,
    Failed(String),
    /// Synchronised except with the listed nodes.
    PartialSync(Vec<String>),
}

/// The health of a node as last checked.
#[derive(Debug, Clone)]
pub struct NodeHealthStatus {
    pub is_healthy: bool,
    /// Milliseconds since the Unix epoch.
    pub last_check: u64,
    pub consecutive_failures: u32,
    pub details: HashMap<String, String>,
}

/// A node's network traffic.
#[derive(Debug, Clone, Copy, PartialEq, Eq, Structural)]
pub struct NetworkIO {
    pub bytes_received: u64,
    pub bytes_sent: u64,
    pub packets_received: u64,
    pub packets_sent: u64,
}

/// A node's disk traffic.
#[derive(Debug, Clone, Copy, PartialEq, Eq, Structural)]
pub struct DiskIO {
    pub bytes_read: u64,
    pub bytes_written: u64,
    pub read_ops: u64,
    pub write_ops: u64,
}

/// How the cloud load balancer chooses among nodes.
#[derive(Debug, Clone, Copy, PartialEq, Eq, Structural)]
pub enum LoadBalancingStrategy {
    RoundRobin,
    LeastConnections,
    WeightedRoundRobin,
    LeastResponseTime,
    ConsistentHash,
}

/// The load a remote plugin reports, as far as placement reads it.
#[derive(Debug, Clone)]
pub struct RemotePluginLoad {
    pub plugin_id: String,
    pub node_id: String,
    pub active_connections: u32,
    /// In nanoseconds.
    pub avg_response_time: u128,
}

/// The longest response time a `std::time::Duration` holds, in nanoseconds.
pub open spec fn duration_max() -> u128 {
    18446744073709551615999999999u128
}

/// The connections open on `node` over the plugins in `loads`.
pub open spec fn connections_on(loads: Seq<RemotePluginLoad>, node: Seq<char>) -> int
    decreases loads.len(),
{
    if loads.len() == 0 {
        0
    } else {
        connections_on(loads.drop_last(), node) + if loads.last().node_id@ == node {
            loads.last().active_connections as int
        } else {
            0
        }
    }
}

/// The shortest response time of the plugins on `node`, or the longest
/// duration when none is there.
pub open spec fn fastest_on(loads: Seq<RemotePluginLoad>, node: Seq<char>) -> u128
    decreases loads.len(),
{
    if loads.len() == 0 {
        duration_max()
    } else {
        let rest = fastest_on(loads.drop_last(), node);
        if loads.last().node_id@ == node && loads.last().avg_response_time < rest {
            loads.last().avg_response_time
        } else {
            rest
        }
    }
}

/// The position of the first least key.
pub open spec fn first_least(keys: Seq<int>, i: int) -> bool {
    &&& 0 <= i < keys.len()
    &&& forall|j: int| 0 <= j < keys.len() ==> keys[i] <= #[trigger] keys[j]
    &&& forall|j: int| 0 <= j < i ==> keys[i] < #[trigger] keys[j]
}

/// The key a node is ranked by under `strategy`; the first node wins under
/// the other strategies.
pub open spec fn node_key(strategy: LoadBalancingStrategy, loads: Seq<RemotePluginLoad>, node: Seq<char>) -> int {
    match strategy {
        LoadBalancingStrategy::LeastConnections => connections_on(loads, node),
        LoadBalancingStrategy::LeastResponseTime => fastest_on(loads, node) as int,
        _ => 0,
    }
}

/// The keys of a list of nodes.
pub open spec fn node_keys(strategy: LoadBalancingStrategy, loads: Seq<RemotePluginLoad>, nodes: Seq<String>) -> Seq<int> {
    nodes.map_values(|n: String| node_key(strategy, loads, n@))
}

/// The fastest time on `node` is no slower than any of its plugins, and is
/// one of them unless it is the longest duration.
proof fn lemma_fastest_bounds(loads: Seq<RemotePluginLoad>, node: Seq<char>)
    ensures
        forall|k: int| 0 <= k < loads.len() && (#[trigger] loads[k]).node_id@ == node ==> fastest_on(loads, node)
            <= loads[k].avg_response_time,
        fastest_on(loads, node) == duration_max() || exists|m: int| 0 <= m < loads.len() && (#[trigger] loads[m]).node_id@
            == node && loads[m].avg_response_time == fastest_on(loads, node),
    decreases loads.len(),
{
    if loads.len() > 0 {
        let t = loads.drop_last();
        lemma_fastest_bounds(t, node);
        assert forall|k: int| 0 <= k < loads.len() && (#[trigger] loads[k]).node_id@ == node implies fastest_on(loads, node)
            <= loads[k].avg_response_time by {
            if k < t.len() {
                assert(t[k] == loads[k]);
            }
        }
        if fastest_on(loads, node) != duration_max() && fastest_on(loads, node) == fastest_on(t, node) {
            let m = choose|m: int| 0 <= m < t.len() && (#[trigger] t[m]).node_id@ == node && t[m].avg_response_time
                == fastest_on(t, node);
            assert(loads[m] == t[m]);
        }
        if fastest_on(loads, node) != fastest_on(t, node) {
            assert(loads[loads.len() - 1] == loads.last());
        }
    }
}

/// Under least response time, the node picked at `i` answers no slower than
/// any plugin on an available node: it runs a plugin at least as fast as
/// that one, unless that one is at the longest duration.
pub proof fn lemma_fastest_pick(loads: Seq<RemotePluginLoad>, nodes: Seq<String>, i: int)
    requires
        first_least(node_keys(LoadBalancingStrategy::LeastResponseTime, loads, nodes), i),
    ensures
        forall|k: int, j: int|
            #![trigger loads[k], nodes[j]]
            0 <= k < loads.len() && 0 <= j < nodes.len() && loads[k].node_id@ == nodes[j]@ ==> loads[k].avg_response_time
                >= duration_max() || exists|m: int| 0 <= m < loads.len() && (#[trigger] loads[m]).node_id@ == nodes[i]@
                && loads[m].avg_response_time <= loads[k].avg_response_time,
{
    let keys = node_keys(LoadBalancingStrategy::LeastResponseTime, loads, nodes);
    lemma_fastest_bounds(loads, nodes[i]@);
    assert forall|k: int, j: int|
        #![trigger loads[k], nodes[j]]
        0 <= k < loads.len() && 0 <= j < nodes.len() && loads[k].node_id@ == nodes[j]@ implies loads[k].avg_response_time
            >= duration_max() || exists|m: int| 0 <= m < loads.len() && (#[trigger] loads[m]).node_id@ == nodes[i]@
            && loads[m].avg_response_time <= loads[k].avg_response_time by {
        lemma_fastest_bounds(loads, nodes[j]@);
        assert(keys[i] <= keys[j]);
        assert(keys[j] == fastest_on(loads, nodes[j]@) as int);
        assert(keys[i] == fastest_on(loads, nodes[i]@) as int);
    }
}

/// Chooses where to send plugin calls.
#[derive(Debug)]
pub struct WasmLoadBalancer {
    strategy: LoadBalancingStrategy,
    request_counters: KeyedList<u64>,
}

impl WasmLoadBalancer {
    /// The strategy.
    pub closed spec fn spec_strategy(self) -> LoadBalancingStrategy {
        self.strategy
    }

    /// A balancer with `strategy` and no request counted.
    pub fn new(strategy: LoadBalancingStrategy) -> (b: Self)
        ensures
            b.spec_strategy() == strategy,
    {
        WasmLoadBalancer { strategy, request_counters: KeyedList::new() }
    }

    /// The strategy.
    pub fn strategy(&self) -> (s: LoadBalancingStrategy)
        ensures
            s == self.spec_strategy(),
    {
        self.strategy
    }

    fn connections(loads: &Vec<RemotePluginLoad>, node: &str) -> (c: u64)
        requires
            forall|n: Seq<char>| #[trigger] connections_on(loads@, n) <= u32::MAX,
        ensures
            c == connections_on(loads@, node@),
    {
        let mut total: u64 = 0;
        let mut i: usize = 0;
        while i < loads.len()
            invariant
                i <= loads@.len(),
                total == connections_on(loads@.subrange(0, i as int), node@),
                forall|n: Seq<char>| #[trigger] connections_on(loads@, n) <= u32::MAX,
            decreases loads.len() - i,
        {
            proof {
                assert(loads@.subrange(0, i + 1).drop_last() =~= loads@.subrange(0, i as int));
                lemma_connections_prefix(loads@, i + 1, node@);
            }
            if str_eq(loads[i].node_id.as_str(), node) {
                total = total + loads[i].active_connections as u64;
            }
            i = i + 1;
        }
        assert(loads@.subrange(0, loads@.len() as int) =~= loads@);
        total
    }

    fn fastest(loads: &Vec<RemotePluginLoad>, node: &str) -> (t: u128)
        ensures
            t == fastest_on(loads@, node@),
    {
        let mut best: u128 = 18446744073709551615999999999u128;
        let mut i: usize = 0;
        while i < loads.len()
            invariant
                i <= loads@.len(),
                best == fastest_on(loads@.subrange(0, i as int), node@),
            decreases loads.len() - i,
        {
            assert(loads@.subrange(0, i + 1).drop_last() =~= loads@.subrange(0, i as int));
            if str_eq(loads[i].node_id.as_str(), node) && loads[i].avg_response_time < best {
                best = loads[i].avg_response_time;
            }
            i = i + 1;
        }
        assert(loads@.subrange(0, loads@.len() as int) =~= loads@);
        best
    }

    /// The node to send a call to: under least connections, the first node
    /// with the fewest connections over its plugins; under least response
    /// time, the first node whose fastest plugin is fastest; otherwise the
    /// first node. An error when no node is available.
    pub fn select_best_node(&self, available_nodes: &[String], loads: &Vec<RemotePluginLoad>) -> (r: WasmResult<String>)
        requires
            forall|n: Seq<char>| #[trigger] connections_on(loads@, n) <= u32::MAX,
        ensures
            available_nodes@.len() == 0 ==> (r matches Err(WasmError::Runtime(m)) && m@ == "没有可用节点"@),
            available_nodes@.len() > 0 ==> (r matches Ok(node) && exists|i: int| #[trigger] first_least(
                node_keys(self.spec_strategy(), loads@, available_nodes@),
                i,
            ) && node@ == available_nodes@[i]@),
    {
        if available_nodes.len() == 0 {
            return Err(WasmError::Runtime(String::from_str("没有可用节点")));
        }
        let ghost keys = node_keys(self.strategy, loads@, available_nodes@);
        let mut best: usize = 0;
        let mut best_key: u128 = self.key_of(available_nodes[0].as_str(), loads);
        let mut i: usize = 1;
        while i < available_nodes.len()
            invariant
                1 <= i <= available_nodes@.len(),
                keys == node_keys(self.strategy, loads@, available_nodes@),
                forall|n: Seq<char>| #[trigger] connections_on(loads@, n) <= u32::MAX,
                best < i,
                best_key == keys[best as int],
                forall|j: int| 0 <= j < i ==> keys[best as int] <= #[trigger] keys[j],
                forall|j: int| 0 <= j < best ==> keys[best as int] < #[trigger] keys[j],
            decreases available_nodes.len() - i,
        {
            let k = self.key_of(available_nodes[i].as_str(), loads);
            assert(k == keys[i as int]);
            if k < best_key {
                best = i;
                best_key = k;
            }
            i = i + 1;
        }
        assert(first_least(keys, best as int));
        Ok(owned(available_nodes[best].as_str()))
    }

    fn key_of(&self, node: &str, loads: &Vec<RemotePluginLoad>) -> (k: u128)
        requires
            forall|n: Seq<char>| #[trigger] connections_on(loads@, n) <= u32::MAX,
        ensures
            k == node_key(self.strategy, loads@, node@),
    {
        proof {
            lemma_connections_nonnegative(loads@, node@);
        }
        match self.strategy {
            LoadBalancingStrategy::LeastConnections => Self::connections(loads, node) as u128,
            LoadBalancingStrategy::LeastResponseTime => Self::fastest(loads, node),
            _ => 0,
        }
    }
}

proof fn lemma_connections_nonnegative(loads: Seq<RemotePluginLoad>, node: Seq<char>)
    ensures
        connections_on(loads, node) >= 0,
    decreases loads.len(),
{
    if loads.len() > 0 {
        lemma_connections_nonnegative(loads.drop_last(), node);
    }
}

proof fn lemma_connections_prefix(loads: Seq<RemotePluginLoad>, k: int, node: Seq<char>)
    requires
        0 <= k <= loads.len(),
    ensures
        connections_on(loads.subrange(0, k), node) <= connections_on(loads, node),
    decreases loads.len() - k,
{
    if k < loads.len() {
        lemma_connections_prefix(loads, k + 1, node);
        assert(loads.subrange(0, k + 1).drop_last() =~= loads.subrange(0, k));
    } else {
        assert(loads.subrange(0, k) =~= loads);
    }
}

/// A copy of a remote plugin's load.
fn copy_load(l: &RemotePluginLoad) -> (c: RemotePluginLoad)
    ensures
        c == *l,
{
    RemotePluginLoad {
        plugin_id: l.plugin_id.clone(),
        node_id: l.node_id.clone(),
        active_connections: l.active_connections,
        avg_response_time: l.avg_response_time,
    }
}

/// Where the cluster's plugins are: the plugins loaded on this node, the
/// load other nodes report of theirs, and the nodes that hold each plugin.
pub struct DistributedPluginRegistry {
    local_plugins: KeyedList<WasmPluginMetadata>,
    remote_plugins: KeyedList<RemotePluginLoad>,
    plugin_distribution: KeyedList<Vec<String>>,
    sync_state: RegistrySyncState,
}

impl DistributedPluginRegistry {
    pub closed spec fn wf(self) -> bool {
        &&& self.local_plugins.wf()
        &&& self.remote_plugins.wf()
        &&& self.plugin_distribution.wf()
    }

    /// The plugins loaded on this node, by identifier.
    pub closed spec fn local(self) -> Map<Seq<char>, WasmPluginMetadata> {
        self.local_plugins.map()
    }

    /// What other nodes report of their plugins, by key.
    pub closed spec fn remote(self) -> Map<Seq<char>, RemotePluginLoad> {
        self.remote_plugins.map()
    }

    /// The reported loads, in the order their keys arrived.
    pub closed spec fn remote_loads(self) -> Seq<RemotePluginLoad> {
        self.remote_plugins.entries().map_values(|e: (String, RemotePluginLoad)| e.1)
    }

    /// The nodes holding each plugin.
    pub closed spec fn distribution(self) -> Map<Seq<char>, Vec<String>> {
        self.plugin_distribution.map()
    }

    /// An empty registry, in agreement with the cluster.
    pub fn new() -> (r: Self)
        ensures
            r.wf(),
            r.local() == Map::<Seq<char>, WasmPluginMetadata>::empty(),
            r.remote() == Map::<Seq<char>, RemotePluginLoad>::empty(),
            r.distribution() == Map::<Seq<char>, Vec<String>>::empty(),
    {
        DistributedPluginRegistry {
            local_plugins: KeyedList::new(),
            remote_plugins: KeyedList::new(),
            plugin_distribution: KeyedList::new(),
            sync_state: RegistrySyncState::Synced,
        }
    }

    /// Registers a plugin loaded on this node under `plugin_id`.
    pub fn register_distributed_plugin(&mut self, plugin_id: String, metadata: WasmPluginMetadata)
        requires
            old(self).wf(),
        ensures
            final(self).wf(),
            final(self).local() == old(self).local().insert(plugin_id@, metadata),
            final(self).remote() == old(self).remote(),
            final(self).remote_loads() == old(self).remote_loads(),
            final(self).distribution() == old(self).distribution(),
    {
        self.local_plugins.insert(plugin_id, metadata);
    }

    /// Records what another node reports of a plugin, under `key`.
    pub fn record_remote_plugin(&mut self, key: String, load: RemotePluginLoad)
        requires
            old(self).wf(),
        ensures
            final(self).wf(),
            final(self).remote() == old(self).remote().insert(key@, load),
            final(self).local() == old(self).local(),
            final(self).distribution() == old(self).distribution(),
    {
        self.remote_plugins.insert(key, load);
    }

    /// Records the nodes that hold `plugin_id`.
    pub fn record_plugin_nodes(&mut self, plugin_id: String, nodes: Vec<String>)
        requires
            old(self).wf(),
        ensures
            final(self).wf(),
            final(self).distribution() == old(self).distribution().insert(plugin_id@, nodes),
            final(self).local() == old(self).local(),
            final(self).remote() == old(self).remote(),
            final(self).remote_loads() == old(self).remote_loads(),
    {
        self.plugin_distribution.insert(plugin_id, nodes);
    }

    /// The plugins known in the cluster, local and remote, each once and in
    /// ascending order.
    pub fn discover_plugins(&self) -> (r: Vec<String>)
        requires
            self.wf(),
        ensures
            strictly_sorted(string_views(r@)),
            string_views(r@).to_set() == self.local().dom().union(self.remote().dom()),
    {
        proof {
            self.local_plugins.lemma_model();
            self.remote_plugins.lemma_model();
        }
        let mut names = self.local_plugins.keys();
        let n = self.remote_plugins.entry_count();
        let mut j: usize = 0;
        while j < n
            invariant
                self.wf(),
                n == self.remote_plugins.entries().len(),
                j <= n,
                string_views(names@).no_duplicates(),
                string_views(names@).to_set() == self.local().dom().union(
                    self.remote_plugins.key_order().subrange(0, j as int).to_set(),
                ),
                self.remote_plugins.key_order() == crate::keyed::entry_keys(self.remote_plugins.entries()),
            decreases n - j,
        {
            let (key, _load) = self.remote_plugins.entry_at(j);
            let ghost before = string_views(names@);
            let ghost k = key@;
            assert(self.remote_plugins.key_order()[j as int] == k);
            assert(self.remote_plugins.key_order().subrange(0, j + 1) =~= self.remote_plugins.key_order().subrange(
                0,
                j as int,
            ).push(k));
            proof {
                lemma_push_to_set(self.remote_plugins.key_order().subrange(0, j as int), k);
            }
            if !contains_str(&names, key.as_str()) {
                names.push(owned(key.as_str()));
                proof {
                    assert(string_views(names@) =~= before.push(k));
                    lemma_push_no_duplicates(before, k);
                    lemma_push_to_set(before, k);
                }
            } else {
                assert(before.to_set().contains(k));
            }
            assert(string_views(names@).to_set() =~= self.local().dom().union(
                self.remote_plugins.key_order().subrange(0, j + 1).to_set(),
            ));
            j = j + 1;
        }
        assert(self.remote_plugins.key_order().subrange(0, n as int) =~= self.remote_plugins.key_order());
        sort_strings(names)
    }

    /// The node to run `plugin_id` on, chosen by `balancer` among the nodes
    /// that hold it from the load reported; none when no node holds it.
    pub fn get_best_node_for_plugin(&self, plugin_id: &str, balancer: &WasmLoadBalancer) -> (r: WasmResult<Option<String>>)
        requires
            self.wf(),
            forall|n: Seq<char>| #[trigger] connections_on(self.remote_loads(), n) <= u32::MAX,
        ensures
            (!self.distribution().contains_key(plugin_id@) || self.distribution()[plugin_id@]@.len() == 0) ==> r
                == Ok::<Option<String>, WasmError>(None),
            self.distribution().contains_key(plugin_id@) && self.distribution()[plugin_id@]@.len() > 0 ==> (r matches Ok(
                Some(node),
            ) && exists|i: int| #[trigger] first_least(
                node_keys(balancer.spec_strategy(), self.remote_loads(), self.distribution()[plugin_id@]@),
                i,
            ) && node@ == self.distribution()[plugin_id@]@[i]@),
    {
        let nodes = match self.plugin_distribution.get(plugin_id) {
            Some(v) => v,
            None => return Ok(None),
        };
        if nodes.len() == 0 {
            return Ok(None);
        }
        proof {
            self.remote_plugins.lemma_model();
        }
        let m = self.remote_plugins.entry_count();
        let mut loads: Vec<RemotePluginLoad> = Vec::new();
        let mut i: usize = 0;
        while i < m
            invariant
                m == self.remote_plugins.entries().len(),
                i <= m,
                loads@ == self.remote_loads().subrange(0, i as int),
            decreases m - i,
        {
            let (_key, load) = self.remote_plugins.entry_at(i);
            loads.push(copy_load(load));
            i = i + 1;
            assert(loads@ =~= self.remote_loads().subrange(0, i as int));
        }
        assert(loads@ =~= self.remote_loads());
        match balancer.select_best_node(nodes.as_slice(), &loads) {
            Ok(node) => Ok(Some(node)),
            Err(e) => Err(e),
        }
    }
}

impl Default for DistributedPluginRegistry {
    fn default() -> (r: Self)
        ensures
            r.wf(),
            r.local() == Map::<Seq<char>, WasmPluginMetadata>::empty(),
            r.remote() == Map::<Seq<char>, RemotePluginLoad>::empty(),
            r.distribution() == Map::<Seq<char>, Vec<String>>::empty(),
    {
        DistributedPluginRegistry::new()
    }
}

/// Checks the health of nodes and plugins at a fixed interval.
#[derive(Debug, Clone, Copy, PartialEq, Eq, Structural)]
pub struct WasmHealthChecker {
    /// In milliseconds.
    pub check_interval_ms: u64,
    /// In milliseconds.
    pub check_timeout_ms: u64,
}

impl WasmHealthChecker {
    /// A checker every `check_interval_ms`, giving each check 10 s.
    pub fn new(check_interval_ms: u64) -> (c: Self)
        ensures
            c.check_interval_ms == check_interval_ms,
            c.check_timeout_ms == 10_000,
    {
        WasmHealthChecker { check_interval_ms, check_timeout_ms: 10_000 }
    }
}

} // verus!
