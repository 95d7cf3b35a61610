use dataflare_wasm::registry_integration::{WasmProcessorRegistry, WasmProcessorTypeInfo};
use dataflare_wasm::wasm_error::WasmError;
use serde_json::Value;

fn info(name: &str, batch: bool, streaming: bool) -> WasmProcessorTypeInfo {
    WasmProcessorTypeInfo {
        processor_type: name.to_string(),
        plugin_id: format!("{}_plugin", name),
        description: "a processor".to_string(),
        capabilities: vec!["transform".to_string()],
        config_schema: Some(Value::Bool(true)),
        supports_batch: batch,
        supports_streaming: streaming,
    }
}

#[test]
fn test_wasm_processor_registry_creation() {
    let registry: WasmProcessorRegistry<u32> = WasmProcessorRegistry::new();
    assert_eq!(registry.get_registered_types().len(), 0);
}

#[test]
fn registered_types_answer_their_capabilities() {
    let mut registry: WasmProcessorRegistry<u32> = WasmProcessorRegistry::new();
    registry.register_processor_type(info("wasm_mapping", true, true)).unwrap();
    registry.register_processor_type(info("wasm_join", true, false)).unwrap();
    assert_eq!(registry.get_registered_types(), vec!["wasm_mapping".to_string(), "wasm_join".to_string()]);
    assert!(registry.supports_batch("wasm_join"));
    assert!(!registry.supports_streaming("wasm_join"));
    assert!(!registry.supports_batch("unknown"));
    assert_eq!(registry.get_config_schema("wasm_mapping"), Some(&Value::Bool(true)));
    assert_eq!(registry.get_config_schema("unknown"), None);
    assert_eq!(registry.get_type_info("wasm_join").unwrap().plugin_id, "wasm_join_plugin");
}

#[test]
fn processors_are_kept_by_type_and_configuration() {
    let mut registry: WasmProcessorRegistry<u32> = WasmProcessorRegistry::new();
    registry.register_processor_type(info("wasm_filter", true, true)).unwrap();
    let key = WasmProcessorRegistry::<u32>::processor_key("wasm_filter", &Value::Null);
    assert_eq!(key, "wasm_filter:null");
    assert_eq!(registry.cached_processor("wasm_filter", &key).unwrap(), None);
    registry.cache_processor(key.clone(), 7);
    assert_eq!(registry.cached_processor("wasm_filter", &key).unwrap(), Some(&7));
    assert_eq!(registry.get_cache_size(), 1);
    assert_eq!(
        registry.cached_processor("nope", &key).unwrap_err(),
        WasmError::Configuration("未知的WASM处理器类型: nope".to_string())
    );
    registry.clear_cache();
    assert_eq!(registry.get_cache_size(), 0);
}

#[test]
fn unregistering_a_type_drops_its_processors_only() {
    let mut registry: WasmProcessorRegistry<u32> = WasmProcessorRegistry::new();
    registry.register_processor_type(info("a", true, true)).unwrap();
    registry.register_processor_type(info("ab", true, true)).unwrap();
    registry.cache_processor(WasmProcessorRegistry::<u32>::processor_key_for("a", "{}"), 1);
    registry.cache_processor(WasmProcessorRegistry::<u32>::processor_key_for("a", "[1]"), 2);
    registry.cache_processor(WasmProcessorRegistry::<u32>::processor_key_for("ab", "{}"), 3);
    assert!(registry.unregister_processor_type("a"));
    assert_eq!(registry.get_cache_size(), 1);
    assert_eq!(registry.cached_processor("ab", "ab:{}").unwrap(), Some(&3));
    assert!(!registry.unregister_processor_type("a"));
    assert_eq!(registry.get_registered_types(), vec!["ab".to_string()]);
}
