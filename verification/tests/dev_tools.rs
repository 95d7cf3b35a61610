use dataflare_wasm::dev_tools::{
    concurrent_benchmark_counts, concurrent_successes, memory_stress_successes, single_benchmark_successes,
    AdvancedBenchmarkConfig, Benchmark, PluginDevTools, TestResults,
};

#[test]
fn test_dev_tools_creation() {
    let root = ".";
    let dev_tools = PluginDevTools::new(root).unwrap();
    assert_eq!(dev_tools.project_root(), root);
}

#[test]
fn dev_tools_refuse_a_missing_root() {
    let r = PluginDevTools::with_checked_root("/no/such/project", false);
    assert!(r.is_err());
}

#[test]
fn test_test_results() {
    let mut results = TestResults::new();
    results.add_test("test1", true, 50_000_000);
    results.add_test("test2", false, 30_000_000);
    results.add_test("test3", true, 70_000_000);

    assert_eq!(results.passed_count(), 2);
    assert_eq!(results.failed_count(), 1);
    assert_eq!(results.tests.len(), 3);
    assert_eq!(results.passed_count() + results.failed_count(), results.tests.len());
}

#[test]
fn test_advanced_benchmark_config() {
    let config = AdvancedBenchmarkConfig {
        custom_benchmarks: vec![Benchmark {
            name: "custom_test".to_string(),
            description: "自定义测试".to_string(),
            data_size: 5000,
            iterations: 200,
        }],
        enable_concurrency_tests: true,
        enable_memory_stress_tests: true,
        concurrency_threads: 8,
        memory_stress_size: 1024 * 1024,
        test_timeout: 60_000_000_000,
    };

    assert_eq!(config.custom_benchmarks.len(), 1);
    assert!(config.enable_concurrency_tests);
    assert!(config.enable_memory_stress_tests);
    assert_eq!(config.concurrency_threads, 8);
}

#[test]
fn benchmark_success_counts() {
    let b = Benchmark { name: "b".to_string(), description: "d".to_string(), data_size: 1000, iterations: 100 };
    assert_eq!(single_benchmark_successes(&b), 95);
    assert_eq!(concurrent_successes(&b), 95);
    let c = concurrent_benchmark_counts(&b, &vec![10u128; 100]);
    assert_eq!(c.name, "b_concurrent");
    assert_eq!(c.successful_iterations, 95);
    assert_eq!(c.failed_iterations, 5);
    assert_eq!(c.memory_usage, 4000);
    assert_eq!(c.peak_memory_usage, 8000);
    let m = Benchmark { name: "m".to_string(), description: "d".to_string(), data_size: 10, iterations: 10 };
    assert_eq!(memory_stress_successes(&m), 9);
    let one = Benchmark { name: "o".to_string(), description: "d".to_string(), data_size: 10, iterations: 21 };
    assert_eq!(single_benchmark_successes(&one), 19);
}
