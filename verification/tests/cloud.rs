use dataflare_wasm::cloud_integration::{
    DistributedPluginRegistry, LoadBalancingStrategy, RemotePluginLoad, WasmHealthChecker, WasmLoadBalancer,
};
use dataflare_wasm::plugin::WasmPluginMetadata;

fn load(node: &str, connections: u32, response_nanos: u128) -> RemotePluginLoad {
    RemotePluginLoad {
        plugin_id: "p".to_string(),
        node_id: node.to_string(),
        active_connections: connections,
        avg_response_time: response_nanos,
    }
}

#[test]
fn test_load_balancer_creation() {
    let balancer = WasmLoadBalancer::new(LoadBalancingStrategy::LeastConnections);
    assert!(matches!(balancer.strategy(), LoadBalancingStrategy::LeastConnections));
}

#[test]
fn test_health_checker_creation() {
    let checker = WasmHealthChecker::new(30_000);
    assert_eq!(checker.check_interval_ms, 30_000);
    assert_eq!(checker.check_timeout_ms, 10_000);
}

#[test]
fn least_connections_sums_each_nodes_plugins() {
    let balancer = WasmLoadBalancer::new(LoadBalancingStrategy::LeastConnections);
    let nodes = vec!["a".to_string(), "b".to_string(), "c".to_string()];
    let loads = vec![load("a", 3, 0), load("b", 1, 0), load("b", 1, 0), load("a", 1, 0), load("c", 2, 0)];
    assert_eq!(balancer.select_best_node(&nodes, &loads).unwrap(), "b");
}

#[test]
fn ties_go_to_the_first_node() {
    let balancer = WasmLoadBalancer::new(LoadBalancingStrategy::LeastConnections);
    let nodes = vec!["x".to_string(), "y".to_string()];
    assert_eq!(balancer.select_best_node(&nodes, &vec![]).unwrap(), "x");
}

#[test]
fn least_response_time_uses_each_nodes_fastest_plugin() {
    let balancer = WasmLoadBalancer::new(LoadBalancingStrategy::LeastResponseTime);
    let nodes = vec!["a".to_string(), "b".to_string(), "none".to_string()];
    let loads = vec![load("a", 0, 50), load("a", 0, 5), load("b", 0, 7)];
    assert_eq!(balancer.select_best_node(&nodes, &loads).unwrap(), "a");
}

#[test]
fn other_strategies_take_the_first_node_and_none_is_an_error() {
    let balancer = WasmLoadBalancer::new(LoadBalancingStrategy::RoundRobin);
    let nodes = vec!["b".to_string(), "a".to_string()];
    assert_eq!(balancer.select_best_node(&nodes, &vec![load("b", 9, 9)]).unwrap(), "b");
    assert!(balancer.select_best_node(&[], &vec![]).is_err());
}

#[test]
fn test_distributed_plugin_registry() {
    let registry = DistributedPluginRegistry::new();
    assert!(registry.discover_plugins().is_empty());
    let balancer = WasmLoadBalancer::new(LoadBalancingStrategy::LeastConnections);
    assert_eq!(registry.get_best_node_for_plugin("p", &balancer).unwrap(), None);
}

#[test]
fn discovered_plugins_are_sorted_and_listed_once() {
    let mut registry = DistributedPluginRegistry::new();
    registry.register_distributed_plugin("zeta".to_string(), WasmPluginMetadata::unknown_at(0));
    registry.register_distributed_plugin("alpha".to_string(), WasmPluginMetadata::unknown_at(0));
    registry.record_remote_plugin("mid".to_string(), load("n1", 1, 1));
    registry.record_remote_plugin("alpha".to_string(), load("n2", 1, 1));
    assert_eq!(
        registry.discover_plugins(),
        vec!["alpha".to_string(), "mid".to_string(), "zeta".to_string()]
    );
}

#[test]
fn best_node_comes_from_the_plugins_holders() {
    let mut registry = DistributedPluginRegistry::new();
    registry.record_remote_plugin("p@a".to_string(), load("a", 4, 0));
    registry.record_remote_plugin("p@b".to_string(), load("b", 2, 0));
    registry.record_remote_plugin("q@c".to_string(), load("c", 0, 0));
    registry.record_plugin_nodes("p".to_string(), vec!["a".to_string(), "b".to_string()]);
    registry.record_plugin_nodes("empty".to_string(), vec![]);
    let balancer = WasmLoadBalancer::new(LoadBalancingStrategy::LeastConnections);
    assert_eq!(registry.get_best_node_for_plugin("p", &balancer).unwrap(), Some("b".to_string()));
    assert_eq!(registry.get_best_node_for_plugin("empty", &balancer).unwrap(), None);
    assert_eq!(registry.get_best_node_for_plugin("missing", &balancer).unwrap(), None);
}
