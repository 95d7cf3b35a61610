use dataflare_wasm::profiler::{ExecutionPhase, WasmProfiler};

const MS: u128 = 1_000_000;

#[test]
fn test_profiler_creation() {
    let profiler = WasmProfiler::new();
    assert!(!profiler.is_enabled());
    assert!(profiler.start_time().is_none());
}

#[test]
fn test_profiler_enable_disable() {
    let mut profiler = WasmProfiler::new();
    profiler.enable();
    assert!(profiler.is_enabled());
    profiler.disable();
    assert!(!profiler.is_enabled());
}

#[test]
fn test_function_call_recording() {
    let mut profiler = WasmProfiler::new();
    profiler.enable();

    let duration = 100 * MS;
    profiler.record_function_call("test_function", duration, true);

    let stats = profiler.function_calls().get("test_function").unwrap();
    assert_eq!(stats.call_count, 1);
    assert_eq!(stats.total_time, duration);
    assert_eq!(stats.error_count, 0);
}

#[test]
fn failed_calls_are_counted_as_errors() {
    let mut profiler = WasmProfiler::new();
    profiler.enable();
    profiler.record_function_call("f", 10 * MS, false);
    profiler.record_function_call("f", 30 * MS, true);
    let stats = profiler.function_calls().get("f").unwrap();
    assert_eq!(stats.call_count, 2);
    assert_eq!(stats.error_count, 1);
    assert_eq!(stats.min_time, 10 * MS);
    assert_eq!(stats.max_time, 30 * MS);
    assert_eq!(stats.avg_time, 20 * MS);
}

#[test]
fn disabled_profiler_records_nothing() {
    let mut profiler = WasmProfiler::new();
    profiler.record_function_call("f", 10 * MS, true);
    profiler.record_memory_usage(10);
    assert!(profiler.function_calls().get("f").is_none());
    assert_eq!(profiler.memory_stats().allocation_count, 0);
}

#[test]
fn test_memory_recording() {
    let mut profiler = WasmProfiler::new();
    profiler.enable();
    profiler.record_memory_usage(1024);
    profiler.record_memory_usage(2048);

    assert_eq!(profiler.memory_stats().peak_memory, 2048);
    assert_eq!(profiler.memory_stats().current_memory, 2048);
    assert_eq!(profiler.memory_stats().allocation_count, 2);
}

#[test]
fn test_execution_phase_recording() {
    let mut profiler = WasmProfiler::new();
    profiler.enable();

    let duration = 50 * MS;
    profiler.record_execution_phase(ExecutionPhase::Load, duration);
    profiler.record_execution_phase(ExecutionPhase::Processing, duration);

    assert_eq!(profiler.execution_stats().load_time, duration);
    assert_eq!(profiler.execution_stats().processing_time, duration);
    assert_eq!(profiler.execution_stats().total_time, duration * 2);
}

#[test]
fn test_profiling_session() {
    let mut profiler = WasmProfiler::new();
    profiler.enable();
    profiler.start_profiling();
    profiler.record_function_call("test", 5 * MS, true);

    let report = profiler.stop_profiling().unwrap();
    assert_eq!(report.function_stats.len(), 1);
    assert_eq!(report.total_calls, 1);
}

#[test]
fn test_profiler_reset() {
    let mut profiler = WasmProfiler::new();
    profiler.enable();

    profiler.record_function_call("test", 100 * MS, true);
    profiler.record_memory_usage(1024);

    assert!(!profiler.function_calls().is_empty());
    assert!(profiler.memory_stats().allocation_count > 0);

    profiler.reset();

    assert!(profiler.function_calls().is_empty());
    assert_eq!(profiler.memory_stats().allocation_count, 0);
}
