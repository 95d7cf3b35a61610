use dataflare_wasm::dtl_bridge::{DTLWasmBridge, DTLWasmCallStats};
use dataflare_wasm::runtime::{WasmRuntime, WasmRuntimeConfig};
use dataflare_wasm::wasm_error::WasmError;

fn runtime_with(plugin: &str) -> WasmRuntime {
    let mut runtime = WasmRuntime::new(WasmRuntimeConfig::default()).unwrap();
    runtime.record_loaded(plugin.to_string(), format!("{}.wasm", plugin));
    runtime
}

#[test]
fn test_dtl_wasm_bridge_creation() {
    let bridge = DTLWasmBridge::new();
    assert_eq!(bridge.get_registered_functions().len(), 0);
}

#[test]
fn test_function_registration() {
    let runtime = WasmRuntime::new(WasmRuntimeConfig::default()).unwrap();
    let mut bridge = DTLWasmBridge::new();
    let result = bridge.register_wasm_function(
        &runtime,
        "test_func".to_string(),
        "nonexistent_plugin".to_string(),
        "process".to_string(),
        Some("测试函数".to_string()),
    );
    assert!(result.is_err());
    assert_eq!(result.unwrap_err(), WasmError::PluginLoad("插件不存在: nonexistent_plugin".to_string()));
}

#[test]
fn registered_function_is_found_with_zero_counts() {
    let runtime = runtime_with("plug");
    let mut bridge = DTLWasmBridge::new();
    bridge
        .register_wasm_function(&runtime, "f".to_string(), "plug".to_string(), "process".to_string(), None)
        .unwrap();
    let info = bridge.get_function_info("f").unwrap();
    assert_eq!(info.plugin_id, "plug");
    assert_eq!(info.function_name, "process");
    assert_eq!(info.parameter_types, vec!["any".to_string()]);
    assert_eq!(info.return_type, "any");
    assert!(info.is_async);
    assert_eq!(*bridge.get_call_stats("f").unwrap(), DTLWasmCallStats::default());
    assert_eq!(bridge.get_registered_functions(), vec!["f".to_string()]);
}

#[test]
fn calls_are_counted_by_outcome() {
    let runtime = runtime_with("plug");
    let mut bridge = DTLWasmBridge::new();
    bridge
        .register_wasm_function(&runtime, "f".to_string(), "plug".to_string(), "process".to_string(), None)
        .unwrap();
    let info = bridge.begin_call("f").unwrap();
    assert_eq!(info.function_name, "process");
    bridge.finish_call("f", 7, true);
    bridge.begin_call("f").unwrap();
    bridge.finish_call("f", 3, false);
    let stats = *bridge.get_call_stats("f").unwrap();
    assert_eq!(
        stats,
        DTLWasmCallStats { call_count: 2, total_execution_time_ms: 10, success_count: 1, error_count: 1 }
    );
}

#[test]
fn calling_an_unregistered_alias_is_refused() {
    let mut bridge = DTLWasmBridge::new();
    assert_eq!(
        bridge.begin_call("missing").unwrap_err(),
        WasmError::PluginExecution("WASM函数未注册: missing".to_string())
    );
}

#[test]
fn unregistering_drops_the_counts_too() {
    let runtime = runtime_with("plug");
    let mut bridge = DTLWasmBridge::new();
    bridge
        .register_wasm_function(&runtime, "f".to_string(), "plug".to_string(), "process".to_string(), None)
        .unwrap();
    bridge
        .register_wasm_function(&runtime, "g".to_string(), "plug".to_string(), "other".to_string(), None)
        .unwrap();
    assert!(bridge.unregister_function("f"));
    assert!(!bridge.unregister_function("f"));
    assert!(bridge.get_call_stats("f").is_none());
    assert_eq!(bridge.get_registered_functions(), vec!["g".to_string()]);
    bridge.clear_all_functions();
    assert!(bridge.get_registered_functions().is_empty());
    assert!(bridge.get_call_stats("g").is_none());
}
