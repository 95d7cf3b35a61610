use std::collections::HashMap;

use dataflare_wasm::distributed::{
    DistributedTask, FailureDetectionConfig, FailureDetector, LoadBalancer, LoadBalancingStrategy, MessageRouter,
    NodeInfo, NodeLoadInfo, NodeRegistry, NodeRole, NodeStatus, TaskPriority, TaskRetryConfig, TaskScheduler, TaskType,
};

fn node(id: &str, port: u16, current_tasks: usize, plugins: Vec<String>) -> NodeInfo {
    NodeInfo {
        node_id: id.to_string(),
        role: NodeRole::Worker,
        address: "127.0.0.1".to_string(),
        port,
        last_heartbeat: 0,
        status: NodeStatus::Healthy,
        load_info: NodeLoadInfo {
            cpu_usage_permille: 300,
            memory_usage_permille: 400,
            current_tasks,
            max_tasks: 10,
            network_latency: 5,
            throughput: 100,
        },
        supported_plugins: plugins,
        metadata: HashMap::new(),
    }
}

fn task(id: &str, priority: TaskPriority) -> DistributedTask {
    DistributedTask {
        task_id: id.to_string(),
        plugin_id: "test-plugin".to_string(),
        task_type: TaskType::DataProcessing,
        input_data: vec![1, 2, 3],
        priority,
        created_at: 0,
        timeout_ms: 30_000,
        retry_config: TaskRetryConfig::default_config(),
        metadata: HashMap::new(),
    }
}

#[test]
fn test_node_registry() {
    let mut registry = NodeRegistry::new();
    registry.register_node(node("node-1", 8080, 2, vec!["test-plugin".to_string()]));

    assert_eq!(registry.node_count(), 1);
    assert_eq!(registry.get_healthy_nodes().len(), 1);
    assert!(registry.get_node("node-1").is_some());

    let supporting_nodes = registry.get_nodes_supporting_plugin("test-plugin");
    assert_eq!(supporting_nodes.len(), 1);
    assert_eq!(supporting_nodes[0], "node-1");

    registry.deregister_node("node-1");
    assert_eq!(registry.node_count(), 0);
    assert_eq!(registry.get_healthy_nodes().len(), 0);
}

#[test]
fn test_task_scheduler() {
    let mut scheduler = TaskScheduler::new();
    scheduler.add_task(task("task-1", TaskPriority::High)).unwrap();
    scheduler.add_task(task("task-2", TaskPriority::Low)).unwrap();

    let next_task = scheduler.get_next_task().unwrap();
    assert_eq!(next_task.task_id, "task-1");

    let stats = scheduler.get_task_stats();
    assert_eq!(stats.pending_count, 1);
    assert_eq!(stats.running_count, 1);
}

#[test]
fn scheduler_keeps_arrival_order_within_a_priority() {
    let mut scheduler = TaskScheduler::new();
    scheduler.add_task(task("a", TaskPriority::Normal)).unwrap();
    scheduler.add_task(task("b", TaskPriority::Critical)).unwrap();
    scheduler.add_task(task("c", TaskPriority::Normal)).unwrap();
    assert_eq!(scheduler.get_next_task().unwrap().task_id, "b");
    assert_eq!(scheduler.get_next_task().unwrap().task_id, "a");
    assert_eq!(scheduler.get_next_task().unwrap().task_id, "c");
    assert!(scheduler.get_next_task().is_none());
}

#[test]
fn test_load_balancer_round_robin() {
    let mut load_balancer = LoadBalancer::new(LoadBalancingStrategy::RoundRobin);
    let registry = NodeRegistry::new();
    let available_nodes = vec!["node-1".to_string(), "node-2".to_string(), "node-3".to_string()];

    let selected1 = load_balancer.select_node(&available_nodes, &registry).unwrap();
    let selected2 = load_balancer.select_node(&available_nodes, &registry).unwrap();
    let selected3 = load_balancer.select_node(&available_nodes, &registry).unwrap();
    let selected4 = load_balancer.select_node(&available_nodes, &registry).unwrap();

    assert_eq!(selected1, "node-1");
    assert_eq!(selected2, "node-2");
    assert_eq!(selected3, "node-3");
    assert_eq!(selected4, "node-1");
}

#[test]
fn test_load_balancer_least_connections() {
    let mut load_balancer = LoadBalancer::new(LoadBalancingStrategy::LeastConnections);
    let mut registry = NodeRegistry::new();
    registry.register_node(node("node-1", 8080, 5, vec![]));
    registry.register_node(node("node-2", 8081, 2, vec![]));

    let available_nodes = vec!["node-1".to_string(), "node-2".to_string()];
    let selected = load_balancer.select_node(&available_nodes, &registry).unwrap();
    assert_eq!(selected, "node-2");
}

#[test]
fn load_balancer_refuses_an_empty_choice() {
    let mut load_balancer = LoadBalancer::new(LoadBalancingStrategy::RoundRobin);
    let registry = NodeRegistry::new();
    assert!(load_balancer.select_node(&[], &registry).is_err());
}

#[test]
fn test_failure_detector() {
    let mut detector = FailureDetector::new(FailureDetectionConfig {
        heartbeat_timeout_ms: 100,
        max_consecutive_failures: 2,
        health_check_interval_ms: 50,
    });
    let mut registry = NodeRegistry::new();
    registry.register_node(node("test-node", 8080, 2, vec![]));

    detector.update_node_heartbeat("test-node", 10_000_000);
    assert_eq!(detector.get_health("test-node").unwrap().status, NodeStatus::Healthy);

    let seen = detector.get_health("test-node").unwrap().last_heartbeat;
    detector.check_node_health_at(&mut registry, seen + 150);

    let health_info = detector.get_health("test-node").unwrap();
    assert!(health_info.consecutive_failures > 0);
}

#[test]
fn test_message_router() {
    let mut router = MessageRouter::new();
    router.add_route("destination-1".to_string(), "next-hop-1".to_string());

    let next_hop = router.get_next_hop("destination-1");
    assert_eq!(next_hop, Some(&"next-hop-1".to_string()));

    router.add_broadcast_group("group-1".to_string(), vec!["node-1".to_string(), "node-2".to_string()]);
    let group_members = router.get_broadcast_group("group-1");
    assert_eq!(group_members.unwrap().len(), 2);
}

#[test]
fn test_task_priority_ordering() {
    assert!(TaskPriority::Critical > TaskPriority::High);
    assert!(TaskPriority::High > TaskPriority::Normal);
    assert!(TaskPriority::Normal > TaskPriority::Low);
}

#[test]
fn test_node_status_transitions() {
    let mut registry = NodeRegistry::new();
    registry.register_node(node("test-node", 8080, 2, vec![]));
    assert_eq!(registry.get_healthy_nodes().len(), 1);

    registry.update_node_status("test-node", NodeStatus::Unhealthy);
    assert_eq!(registry.get_healthy_nodes().len(), 0);

    registry.update_node_status("test-node", NodeStatus::Healthy);
    assert_eq!(registry.get_healthy_nodes().len(), 1);
}
