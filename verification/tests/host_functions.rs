use dataflare_wasm::host_functions::{HostArg, HostFunctionCall, HostFunctionRegistry, HostValue};
use dataflare_wasm::wasm_error::WasmError;

fn call(name: &str, parameters: Vec<HostArg>) -> HostFunctionCall {
    HostFunctionCall { function_name: name.to_string(), parameters, context: None }
}

#[test]
fn test_host_function_registry() {
    let registry = HostFunctionRegistry::new();

    assert!(registry.has_function("log"));
    assert!(registry.has_function("get_time"));
    assert!(registry.has_function("random"));
    assert!(!registry.has_function("nonexistent"));

    let functions = registry.list_functions();
    assert!(functions.contains(&"log".to_string()));
    assert!(functions.contains(&"get_time".to_string()));
    assert!(functions.contains(&"random".to_string()));
}

#[test]
fn test_log_function() {
    let registry = HostFunctionRegistry::new();
    let result = registry.call_function(call("log", vec![HostArg::Text("test message".to_string())]));
    assert!(result.is_ok());
    assert_eq!(result.unwrap(), HostValue::Null);
}

#[test]
fn log_refuses_missing_or_non_text_arguments() {
    let registry = HostFunctionRegistry::new();
    match registry.call_function(call("log", vec![])) {
        Err(WasmError::FunctionNotFound(m)) => assert_eq!(m, "log函数需要至少一个参数"),
        other => panic!("unexpected {:?}", other),
    }
    match registry.call_function(call("log", vec![HostArg::Unsigned(3)])) {
        Err(WasmError::TypeConversion(m)) => assert_eq!(m, "log参数必须是字符串"),
        other => panic!("unexpected {:?}", other),
    }
}

#[test]
fn test_get_time_function() {
    let registry = HostFunctionRegistry::new();
    let result = registry.call_function(call("get_time", vec![]));
    assert!(result.is_ok());
    assert!(matches!(result.unwrap(), HostValue::Integer(_)));
}

#[test]
fn test_random_function() {
    let registry = HostFunctionRegistry::new();
    let result = registry.call_function(call("random", vec![HostArg::Unsigned(50)]));
    assert!(result.is_ok());
    match result.unwrap() {
        HostValue::Unsigned(v) => assert!(v < 50),
        other => panic!("unexpected {:?}", other),
    }
}

#[test]
fn random_defaults_to_a_hundred() {
    let registry = HostFunctionRegistry::new();
    for _ in 0..20 {
        match registry.call_function(call("random", vec![HostArg::Other])).unwrap() {
            HostValue::Unsigned(v) => assert!(v < 100),
            other => panic!("unexpected {:?}", other),
        }
    }
}

#[test]
fn test_nonexistent_function() {
    let registry = HostFunctionRegistry::new();
    let result = registry.call_function(call("nonexistent", vec![]));
    assert!(result.is_err());
    assert_eq!(result.unwrap_err(), WasmError::FunctionNotFound("nonexistent".to_string()));
}

#[test]
fn functions_are_listed_in_registration_order() {
    let registry = HostFunctionRegistry::default();
    assert_eq!(registry.list_functions(), vec!["log".to_string(), "get_time".to_string(), "random".to_string()]);
}
