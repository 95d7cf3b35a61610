use std::collections::HashMap;

use dataflare_wasm::sandbox::{AuditConfig, AuditLogger, ResourceStats, SandboxConfig, SecurityPolicy, WasmSandbox};

#[test]
fn test_security_policy_default() {
    let policy = SecurityPolicy::default();
    assert!(!policy.allow_network);
    assert!(!policy.allow_filesystem);
    assert!(!policy.allow_env_vars);
    assert!(policy.allowed_host_functions.contains(&"log".to_string()));
    assert!(policy.denied_host_functions.contains(&"exec".to_string()));
}

#[test]
fn test_sandbox_permission_check() {
    let config = SandboxConfig::default();
    let sandbox = WasmSandbox::new(config).unwrap();

    assert!(!sandbox.check_permission("network"));
    assert!(!sandbox.check_permission("filesystem"));
    assert!(sandbox.check_permission("host_log"));
    assert!(!sandbox.check_permission("host_exec"));
}

#[test]
fn test_resource_limits() {
    let config = SandboxConfig::default();
    let sandbox = WasmSandbox::new(config).unwrap();

    assert!(sandbox.check_memory_limit(32 * 1024 * 1024));
    assert!(!sandbox.check_memory_limit(128 * 1024 * 1024));

    assert!(sandbox.check_execution_time(3000));
    assert!(!sandbox.check_execution_time(10000));
}

#[test]
fn test_resource_stats() {
    let mut stats = ResourceStats::default();

    stats.update(1024, 100);
    assert_eq!(stats.current_memory_usage, 1024);
    assert_eq!(stats.peak_memory_usage, 1024);
    assert_eq!(stats.total_execution_time_ms, 100);
    assert_eq!(stats.function_call_count, 1);

    stats.update(2048, 200);
    assert_eq!(stats.current_memory_usage, 2048);
    assert_eq!(stats.peak_memory_usage, 2048);
    assert_eq!(stats.total_execution_time_ms, 300);
    assert_eq!(stats.function_call_count, 2);

    stats.update(512, 1);
    assert_eq!(stats.current_memory_usage, 512);
    assert_eq!(stats.peak_memory_usage, 2048);
}

#[test]
fn test_audit_logger() {
    let config = AuditConfig {
        enabled: true,
        log_file: None,
        log_function_calls: true,
        log_memory_access: true,
        log_network_access: false,
    };

    let mut logger = AuditLogger::new(config).unwrap();

    let params = HashMap::new();
    logger.log_function_call("test_function", &params);
    logger.log_memory_access("read", 0x1000, 256);

    assert_eq!(logger.get_log_entries().len(), 2);
}
