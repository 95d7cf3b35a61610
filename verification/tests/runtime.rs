use dataflare_wasm::runtime::{WasmRuntime, WasmRuntimeBuilder, WasmRuntimeConfig};
use dataflare_wasm::wasm_error::WasmError;

#[test]
fn test_wasm_format_validation() {
    let config = WasmRuntimeConfig::default();
    let runtime = WasmRuntime::new(config).unwrap();

    let valid_wasm = vec![0x00, 0x61, 0x73, 0x6D, 0x01, 0x00, 0x00, 0x00];
    assert!(runtime.validate_wasm_format(&valid_wasm));

    let invalid_wasm = vec![0x00, 0x00, 0x00, 0x00, 0x01, 0x00, 0x00, 0x00];
    assert!(!runtime.validate_wasm_format(&invalid_wasm));

    let short_bytes = vec![0x00, 0x61];
    assert!(!runtime.validate_wasm_format(&short_bytes));
}

#[test]
fn test_runtime_builder() {
    let runtime = WasmRuntimeBuilder::new()
        .memory_limit(128 * 1024 * 1024)
        .timeout(10000)
        .debug(true)
        .max_concurrent_plugins(20)
        .build()
        .unwrap();

    assert_eq!(runtime.config.memory_limit, 128 * 1024 * 1024);
    assert_eq!(runtime.config.timeout_ms, 10000);
    assert!(runtime.config.debug);
    assert_eq!(runtime.config.max_concurrent_plugins, 20);
}

#[test]
fn runtime_refuses_zero_limits() {
    match WasmRuntimeBuilder::new().memory_limit(0).build() {
        Err(WasmError::Configuration(m)) => assert_eq!(m, "内存限制不能为0"),
        _ => panic!("expected a configuration error"),
    }
    match WasmRuntimeBuilder::new().timeout(0).build() {
        Err(WasmError::Configuration(m)) => assert_eq!(m, "超时时间不能为0"),
        _ => panic!("expected a configuration error"),
    }
}

#[test]
fn runtime_counts_loaded_plugins_up_to_its_limit() {
    let mut runtime = WasmRuntimeBuilder::new().max_concurrent_plugins(1).build().unwrap();
    assert!(runtime.check_capacity().is_ok());
    runtime.record_loaded("p".to_string(), "plugins/p.wasm".to_string());
    assert!(runtime.has_plugin("p"));
    assert_eq!(runtime.get_stats().loaded_plugins, 1);
    assert!(runtime.check_capacity().is_err());
    assert!(runtime.record_unloaded("p"));
    assert!(!runtime.record_unloaded("p"));
    assert_eq!(runtime.get_stats().loaded_plugins, 0);
    runtime.mark_initialized(42);
    runtime.mark_initialized(43);
    assert_eq!(runtime.get_stats().initialization_time, Some(42));
}
