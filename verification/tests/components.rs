use dataflare_wasm::components::{WasmComponentFactory, WasmComponentType};

#[test]
fn test_component_type_parsing() {
    assert_eq!(WasmComponentType::from_str("source").unwrap(), WasmComponentType::Source);
    assert_eq!(WasmComponentType::from_str("destination").unwrap(), WasmComponentType::Destination);
    assert_eq!(WasmComponentType::from_str("processor").unwrap(), WasmComponentType::Processor);

    match WasmComponentType::from_str("custom_type").unwrap() {
        WasmComponentType::Custom(name) => assert_eq!(name, "custom_type"),
        _ => panic!("Expected custom type"),
    }
}

#[test]
fn test_component_factory_creation() {
    let factory = WasmComponentFactory::new();
    let types = factory.list_component_types();

    assert!(types.contains(&"source".to_string()));
    assert!(types.contains(&"destination".to_string()));
    assert!(types.contains(&"processor".to_string()));
}

#[test]
fn component_type_names_round_trip() {
    for name in ["source", "destination", "processor", "transformer", "filter", "aggregator"] {
        let t = WasmComponentType::from_str(name).unwrap();
        assert_eq!(t.to_string(), name);
    }
    let upper = WasmComponentType::from_str("SOURCE").unwrap();
    assert_eq!(upper, WasmComponentType::Source);
}

#[test]
fn exports_suggest_component_kinds() {
    let mut metadata = dataflare_wasm::plugin::WasmPluginMetadata::unknown_at(0);
    let exports: Vec<String> = ["read_data", "transform", "get_data", "helper", "filter_batch"]
        .iter()
        .map(|s| s.to_string())
        .collect();
    dataflare_wasm::plugin::infer_capabilities_from_exports(&exports, &mut metadata).unwrap();
    assert_eq!(metadata.supported_functions, exports);
    assert_eq!(metadata.component_types, vec!["source", "transformer", "filter"]);
}

#[test]
fn exports_without_known_names_make_a_processor() {
    let mut metadata = dataflare_wasm::plugin::WasmPluginMetadata::unknown_at(0);
    let exports = vec!["main".to_string()];
    dataflare_wasm::plugin::infer_capabilities_from_exports(&exports, &mut metadata).unwrap();
    assert_eq!(metadata.component_types, vec!["processor"]);
    let mut kept = dataflare_wasm::plugin::WasmPluginMetadata::unknown_at(0);
    kept.component_types = vec!["sink".to_string()];
    dataflare_wasm::plugin::infer_capabilities_from_exports(&exports, &mut kept).unwrap();
    assert_eq!(kept.component_types, vec!["sink"]);
}
