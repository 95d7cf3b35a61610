use dataflare_wasm::error::EnterpriseError;
use dataflare_wasm::result::{BatchResult, ProcessingResult, TaskPriority, TaskResult, TaskStatus};

#[test]
fn test_processing_result_success() {
    let result = ProcessingResult::success("test_data", 100, 10);
    assert!(result.success);
    assert_eq!(result.data, Some("test_data"));
    assert_eq!(result.processing_time_ms, 100);
    assert_eq!(result.records_processed, 10);
    let throughput = result.records_processed as f64 / (result.processing_time_ms as f64 / 1000.0);
    assert_eq!(throughput, 100.0);
}

#[test]
fn processing_result_spans_its_time() {
    let result = ProcessingResult::success_at(1u8, 100, 1, 1_000_000_000);
    assert_eq!(result.end_time, 1_000_000_000);
    assert_eq!(result.start_time, 900_000_000);
    let early = ProcessingResult::success_at(1u8, u64::MAX, 1, i64::MIN + 5);
    assert_eq!(early.start_time, i64::MIN);
}

#[test]
fn test_processing_result_failure() {
    let error = EnterpriseError::configuration("test error");
    let result: ProcessingResult<String> = ProcessingResult::failure(error, 50);
    assert!(!result.success);
    assert!(result.data.is_none());
    assert!(result.error.is_some());
    assert_eq!(result.processing_time_ms, 50);
}

#[test]
fn processing_result_into_result() {
    let ok = ProcessingResult::success(7u32, 1, 1).into_result();
    assert_eq!(ok.unwrap(), 7);
    let err: ProcessingResult<u32> = ProcessingResult::failure(EnterpriseError::configuration("x"), 1);
    assert_eq!(err.into_result().unwrap_err().error_code(), "CONFIGURATION");
    let from_err: ProcessingResult<u32> = ProcessingResult::from_result_at(Err(EnterpriseError::configuration("y")), 5);
    assert!(!from_err.success);
    assert_eq!(from_err.records_processed, 0);
}

#[test]
fn test_task_result_lifecycle() {
    let mut task = TaskResult::new("task-001".to_string(), TaskPriority::High);
    assert_eq!(task.status, TaskStatus::Pending);

    task.start(Some("node-001".to_string()));
    assert_eq!(task.status, TaskStatus::Running);
    assert_eq!(task.node_id, Some("node-001".to_string()));

    let mut data = serde_json::Map::new();
    data.insert("result".to_string(), serde_json::Value::from("success"));
    task.complete(Some(serde_json::Value::Object(data)));
    assert_eq!(task.status, TaskStatus::Completed);
    assert!(task.is_finished());
    assert!(task.is_successful());
}

#[test]
fn task_execution_time_rounds_toward_zero() {
    let mut task = TaskResult::new_at("t".to_string(), TaskPriority::Low, 0);
    assert_eq!(task.execution_time_ms(), None);
    task.complete_at(None, 2_500_000);
    assert_eq!(task.execution_time_ms(), Some(2));
    let mut failed = TaskResult::new_at("f".to_string(), TaskPriority::Low, 0);
    failed.fail_at(EnterpriseError::configuration("boom"), 1);
    assert!(failed.is_finished());
    assert!(!failed.is_successful());
    let mut cancelled = TaskResult::new_at("c".to_string(), TaskPriority::Normal, 0);
    cancelled.cancel_at(3);
    assert_eq!(cancelled.status, TaskStatus::Cancelled);
    let mut late = TaskResult::new_at("l".to_string(), TaskPriority::Urgent, 0);
    late.timeout_at(3);
    assert!(late.is_finished());
}

#[test]
fn test_batch_result() {
    let mut batch = BatchResult::new("batch-001".to_string());

    batch.add_result(ProcessingResult::success("data1", 10, 1));
    batch.add_result(ProcessingResult::success("data2", 20, 1));
    batch.add_result(ProcessingResult::failure(EnterpriseError::configuration("error"), 15));

    batch.finish();

    assert_eq!(batch.total_records, 3);
    assert_eq!(batch.successful_records, 2);
    assert_eq!(batch.failed_records, 1);
    assert_eq!(batch.successful_records as f64 / batch.total_records as f64, 2.0 / 3.0);
    assert_eq!(batch.total_processing_time_ms as f64 / batch.total_records as f64, 15.0);
    assert_eq!(batch.successful_records + batch.failed_records, batch.total_records);
}
