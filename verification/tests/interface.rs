use dataflare_wasm::interface::{DslFunctionMapper, WasmFunctionCall, WasmFunctionResult};

#[test]
fn test_function_call_creation() {
    let call = WasmFunctionCall::new("test_function".to_string())
        .with_parameter("param1".to_string(), serde_json::Value::from("value1"))
        .unwrap()
        .with_call_id("test_call_123".to_string());

    assert_eq!(call.function_name, "test_function");
    assert_eq!(call.parameters.get("param1").unwrap().as_str().unwrap(), "value1");
    assert_eq!(call.call_id.as_ref().unwrap(), "test_call_123");
}

#[test]
fn test_function_result_creation() {
    let result = WasmFunctionResult::success(serde_json::Value::from("test_result"))
        .unwrap()
        .with_execution_time(100)
        .with_call_id("test_call_123".to_string());

    assert!(result.success);
    assert_eq!(result.result.as_ref().unwrap().as_str().unwrap(), "test_result");
    assert_eq!(result.execution_time_ms.unwrap(), 100);
    assert_eq!(result.call_id.as_ref().unwrap(), "test_call_123");
}

#[test]
fn test_error_result_creation() {
    let result = WasmFunctionResult::error("Test error message");

    assert!(!result.success);
    assert_eq!(result.error.as_ref().unwrap(), "Test error message");
    assert!(result.result.is_none());
    assert!(result.get_result().is_err());
}

#[test]
fn test_dsl_function_mapping() {
    let source_funcs = DslFunctionMapper::source_functions();
    assert!(source_funcs.contains(&"discover_schema".to_string()));
    assert!(source_funcs.contains(&"read_batch".to_string()));

    let dest_funcs = DslFunctionMapper::destination_functions();
    assert!(dest_funcs.contains(&"write_batch".to_string()));
    assert!(dest_funcs.contains(&"commit".to_string()));

    let proc_funcs = DslFunctionMapper::processor_functions();
    assert!(proc_funcs.contains(&"process_record".to_string()));
    assert!(proc_funcs.contains(&"process_batch".to_string()));
}

#[test]
fn unknown_component_kinds_get_the_transform_function() {
    assert_eq!(DslFunctionMapper::get_functions_for_component("nothing"), vec!["transform".to_string()]);
    assert_eq!(DslFunctionMapper::get_functions_for_component("SOURCE"), DslFunctionMapper::source_functions());
}
