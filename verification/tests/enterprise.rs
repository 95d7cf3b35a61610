use dataflare_wasm::alerting::AlertingConfig;
use dataflare_wasm::batch::{BatchProcessorConfig, EnterpriseBatchProcessor};
use dataflare_wasm::cluster::ClusterConfig;
use dataflare_wasm::enterprise_executor::{DistributedTask, EnterpriseWasmExecutor, ResourceRequirements, TaskPriority, TaskStatus};
use dataflare_wasm::executor::ExecutorConfig;
use dataflare_wasm::plugin::{WasmPluginMetadata, WasmPluginStats, WasmPluginStatus};
use dataflare_wasm::storage::StorageConfig;
use dataflare_wasm::system::{create_default_monitoring, EnterpriseSystem, EnterpriseSystemBuilder};

fn input() -> serde_json::Value {
    let mut map = serde_json::Map::new();
    map.insert("input".to_string(), serde_json::Value::from("test data"));
    serde_json::Value::Object(map)
}

#[test]
fn test_distributed_task_creation() {
    let task = DistributedTask::new("test-task".to_string(), input()).with_priority(TaskPriority::High);
    assert_eq!(task.name, "test-task");
    assert_eq!(task.priority, TaskPriority::High);
    assert!(!task.id.is_empty());
}

#[test]
fn test_resource_requirements_default() {
    let requirements = ResourceRequirements::default();
    assert_eq!(requirements.cpu_millicores as f64 / 1000.0, 1.0);
    assert_eq!(requirements.memory_mb, 512);
}

#[test]
fn test_enterprise_wasm_executor() {
    let executor = EnterpriseWasmExecutor::new().unwrap();
    let task = DistributedTask::new("test".to_string(), serde_json::Value::Null);
    let task_id = executor.submit_task(task).unwrap();
    assert!(!task_id.is_empty());
    assert_eq!(executor.get_task_status(&task_id).unwrap(), TaskStatus::Running);
    assert!(executor.cancel_task(&task_id).is_ok());
}

#[test]
fn test_enterprise_system_builder() {
    let system = EnterpriseSystemBuilder::new()
        .with_monitoring_enabled(false)
        .with_security_enabled(false)
        .enable_distributed()
        .enable_marketplace()
        .build();
    assert!(system.distributed_enabled);
    assert!(system.marketplace_enabled);
    assert!(system.monitoring_enabled);
    assert!(system.security_enabled);
}

#[test]
fn test_enterprise_system_stats() {
    let system = EnterpriseSystem::new();
    let stats = system.get_enterprise_stats();
    assert!(stats.distributed_enabled);
    assert!(stats.marketplace_enabled);
    assert_eq!(system.submit_distributed_task().unwrap().len(), 36);
    let off = EnterpriseSystem { distributed_enabled: false, ..system };
    assert_eq!(off.submit_distributed_task().unwrap_err().error_code(), "CONFIGURATION");
}

#[test]
fn test_default_monitoring_creation() {
    assert_eq!(create_default_monitoring().unwrap(), true);
}

#[test]
fn service_defaults() {
    assert!(AlertingConfig::default().enabled);
    assert_eq!(BatchProcessorConfig::default().batch_size, 1000);
    assert!(EnterpriseBatchProcessor::new(BatchProcessorConfig::default()).is_ok());
    assert_eq!(ClusterConfig::default().node_count, 1);
    assert_eq!(ExecutorConfig::default().max_concurrent, 100);
    assert_eq!(StorageConfig::default().storage_type, "memory");
}

#[test]
fn test_plugin_metadata_default() {
    let metadata = WasmPluginMetadata::default();
    assert_eq!(metadata.name, "unknown");
    assert_eq!(metadata.version, "0.1.0");
}

#[test]
fn test_plugin_status() {
    assert_eq!(WasmPluginStatus::Uninitialized, WasmPluginStatus::Uninitialized);
    assert_ne!(WasmPluginStatus::Initialized, WasmPluginStatus::Running);
}

#[test]
fn test_plugin_stats_default() {
    let stats = WasmPluginStats::default();
    assert_eq!(stats.initialization_count, 0);
    assert_eq!(stats.function_call_count, 0);
    assert!(stats.last_call_time.is_none());
}
