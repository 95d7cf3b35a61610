use dataflare_wasm::ai_integration::{register_ai_function, register_wasm_mapping, should_cache_result, AIWasmConfig, AIWasmIntegrator, AiRoute};

#[test]
fn test_ai_wasm_integrator_creation() {
    let integrator = AIWasmIntegrator::new(AIWasmConfig::default());
    assert_eq!(integrator.get_cache_size(), 0);
}

#[test]
fn builtin_functions_are_bound_to_their_plugins() {
    let b = register_ai_function("embed").unwrap();
    assert_eq!(b.plugin_id, "ai_embedding_plugin");
    assert_eq!(b.wasm_function, "generate_embedding");
    assert_eq!(register_ai_function("text_classification").unwrap().wasm_function, "classify_text");
    assert!(register_ai_function("unknown").is_none());
    let m = register_wasm_mapping("embed", "my_plugin");
    assert_eq!(m.wasm_function, "process");
    assert_eq!(m.description, "AI函数 embed 的WASM实现");
}

#[test]
fn initialization_registers_every_enabled_function() {
    let integrator = AIWasmIntegrator::new(AIWasmConfig::default());
    let bindings = integrator.initialize();
    let names: Vec<String> = bindings.iter().map(|b| b.function_name.clone()).collect();
    assert_eq!(names, vec!["embed", "sentiment_analysis", "vector_search", "llm_summarize", "text_classification"]);
}

#[test]
fn calls_are_routed_by_name_and_arguments() {
    assert_eq!(AIWasmIntegrator::route_for("embed", false, 1, true), Ok(AiRoute::BuiltinDefault));
    assert_eq!(AIWasmIntegrator::route_for("embed", true, 1, true), Ok(AiRoute::MappedPlugin));
    assert_eq!(AIWasmIntegrator::route_for("embed", false, 0, false), Err("embed函数需要文本参数".to_string()));
    assert_eq!(AIWasmIntegrator::route_for("embed", false, 1, false), Err("embed函数的第一个参数必须是字符串".to_string()));
    assert_eq!(
        AIWasmIntegrator::route_for("vector_search", false, 1, true),
        Err("vector_search函数需要查询向量和搜索参数".to_string())
    );
    assert_eq!(AIWasmIntegrator::route_for("custom", false, 0, false), Ok(AiRoute::CustomPlugin));

    let integrator = AIWasmIntegrator::new(AIWasmConfig::default());
    let args = vec![serde_json::Value::from("hello")];
    assert_eq!(integrator.route_call("embed", &args), Ok(AiRoute::BuiltinDefault));
    let numbers = vec![serde_json::Value::from(1)];
    assert!(integrator.route_call("embed", &numbers).is_err());
}

#[test]
fn cached_results_answer_later_calls() {
    let mut integrator = AIWasmIntegrator::new(AIWasmConfig::default());
    let key = AIWasmIntegrator::cache_key_for("embed", "[\"hi\"]");
    assert_eq!(key, "embed:[\"hi\"]");
    assert!(integrator.begin_call(&key).is_none());
    integrator.finish_call("embed", key.clone(), 7, &Ok(serde_json::Value::from(1)));
    assert_eq!(integrator.begin_call(&key), Some(serde_json::Value::from(1)));
    let stats = *integrator.get_stats();
    assert_eq!(stats.ai_function_calls, 2);
    assert_eq!(stats.cache_hits, 1);
    assert_eq!(stats.cache_misses, 1);
    assert_eq!(stats.total_execution_time_ms, 7);

    integrator.finish_call("vector_search", "k".to_string(), 1, &Ok(serde_json::Value::from(2)));
    assert_eq!(integrator.get_cache_size(), 1);
    integrator.finish_call("embed", "e".to_string(), 1, &Err("failed".to_string()));
    assert_eq!(integrator.get_stats().error_count, 1);
    integrator.clear_cache();
    assert_eq!(integrator.get_cache_size(), 0);
    assert!(should_cache_result("sentiment_analysis"));
    assert!(!should_cache_result("llm_summarize"));
}

#[test]
fn cache_keys_carry_the_arguments_json() {
    let args = vec![serde_json::Value::from("x"), serde_json::Value::from(2)];
    assert_eq!(AIWasmIntegrator::cache_key("f", &args), "f:[\"x\",2]");
}

#[test]
fn start_up_registers_enabled_builtins_then_mappings_in_order() {
    let mut config = AIWasmConfig::default();
    config.enabled_ai_functions = vec!["vector_search".to_string(), "unknown".to_string(), "embed".to_string()];
    config.wasm_plugin_mappings.insert("summarize".to_string(), "sum_plugin".to_string());
    config.wasm_plugin_mappings.insert("classify".to_string(), "cls_plugin".to_string());
    let integrator = AIWasmIntegrator::new(config);
    let bindings = integrator.initialize();
    let names: Vec<String> = bindings.iter().map(|b| b.function_name.clone()).collect();
    assert_eq!(
        names,
        vec!["vector_search".to_string(), "embed".to_string(), "summarize".to_string(), "classify".to_string()]
    );
    assert_eq!(bindings[2].plugin_id, "sum_plugin");
    assert_eq!(bindings[2].wasm_function, "process");
    assert_eq!(bindings[3].description, "AI函数 classify 的WASM实现");
}
