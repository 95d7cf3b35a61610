//! Results of processing and of distributed tasks: their outcome, their
//! timing in nanoseconds since the Unix epoch (UTC), and the life cycle of
//! a task from pending to a final state.

use vstd::prelude::*;
use serde_json::Value;
use crate::clock::utc_now_nanos;
use crate::error::EnterpriseError;
use crate::keyed::KeyedList;

verus! {

/// The nearest `i64` to `x`.
pub open spec fn clamp_i64(x: int) -> i64 {
    if x < i64::MIN {
        i64::MIN
    } else if x > i64::MAX {
        i64::MAX
    } else {
        x as i64
    }
}

/// The instant `ms` milliseconds before `now`, in nanoseconds, held to the
/// range of an `i64`.
pub open spec fn span_start(now: i64, ms: u64) -> i64 {
    clamp_i64(now - ms * 1_000_000)
}

fn start_of_span(now: i64, ms: u64) -> (s: i64)
    ensures
        s == span_start(now, ms),
{
    let x: i128 = now as i128 - (ms as i128) * 1_000_000i128;
    if x < i64::MIN as i128 {
        i64::MIN
    } else if x > i64::MAX as i128 {
        i64::MAX
    } else {
        x as i64
    }
}

/// The clock in nanoseconds since the Unix epoch (UTC); 0 when the instant
/// is out of the range an `i64` of nanoseconds holds.
fn now_nanos() -> i64 {
    match utc_now_nanos() {
        Some(n) => n,
        None => 0,
    }
}

/// The outcome of a processing step.
#[derive(Debug)]
pub struct ProcessingResult<T> {
    pub success: bool,
    pub data: Option<T>,
    pub error: Option<EnterpriseError>,
    pub processing_time_ms: u64,
    pub records_processed: usize,
    pub start_time: i64,
    pub end_time: i64,
    pub metadata: KeyedList<Value>,
}

impl<T> ProcessingResult<T> {
    /// A success or failure carries what it says it does.
    pub open spec fn wf(self) -> bool {
        &&& (self.success ==> self.data is Some)
        &&& (!self.success ==> self.error is Some)
        &&& self.metadata.wf()
    }

    /// A success with `data` that took `processing_time_ms` and processed
    /// `records_processed` records, ending at `now`.
    pub fn success_at(data: T, processing_time_ms: u64, records_processed: usize, now: i64) -> (r: Self)
        ensures
            r.wf(),
            r.success,
            r.data == Some(data),
            r.error is None,
            r.processing_time_ms == processing_time_ms,
            r.records_processed == records_processed,
            r.end_time == now,
            r.start_time == span_start(now, processing_time_ms),
            r.metadata.map() == Map::<Seq<char>, Value>::empty(),
    {
        ProcessingResult {
            success: true,
            data: Some(data),
            error: None,
            processing_time_ms,
            records_processed,
            start_time: start_of_span(now, processing_time_ms),
            end_time: now,
            metadata: KeyedList::new(),
        }
    }

    /// A success ending now.
    pub fn success(data: T, processing_time_ms: u64, records_processed: usize) -> (r: Self)
        ensures
            r.wf(),
            r.success,
            r.data == Some(data),
            r.error is None,
            r.processing_time_ms == processing_time_ms,
            r.records_processed == records_processed,
            r.start_time == span_start(r.end_time, processing_time_ms),
            r.metadata.map() == Map::<Seq<char>, Value>::empty(),
    {
        Self::success_at(data, processing_time_ms, records_processed, now_nanos())
    }

    /// A failure with `error` after `processing_time_ms`, ending at `now`,
    /// with no record processed.
    pub fn failure_at(error: EnterpriseError, processing_time_ms: u64, now: i64) -> (r: Self)
        ensures
            r.wf(),
            !r.success,
            r.data is None,
            r.error == Some(error),
            r.processing_time_ms == processing_time_ms,
            r.records_processed == 0,
            r.end_time == now,
            r.start_time == span_start(now, processing_time_ms),
            r.metadata.map() == Map::<Seq<char>, Value>::empty(),
    {
        ProcessingResult {
            success: false,
            data: None,
            error: Some(error),
            processing_time_ms,
            records_processed: 0,
            start_time: start_of_span(now, processing_time_ms),
            end_time: now,
            metadata: KeyedList::new(),
        }
    }

    /// A failure ending now.
    pub fn failure(error: EnterpriseError, processing_time_ms: u64) -> (r: Self)
        ensures
            r.wf(),
            !r.success,
            r.data is None,
            r.error == Some(error),
            r.processing_time_ms == processing_time_ms,
            r.records_processed == 0,
            r.start_time == span_start(r.end_time, processing_time_ms),
            r.metadata.map() == Map::<Seq<char>, Value>::empty(),
    {
        Self::failure_at(error, processing_time_ms, now_nanos())
    }

    /// The result with `value` under `key` in its metadata.
    pub fn with_metadata(self, key: String, value: Value) -> (r: Self)
        requires
            self.wf(),
        ensures
            r.wf(),
            r.metadata.map() == self.metadata.map().insert(key@, value),
            r.success == self.success,
            r.data == self.data,
            r.error == self.error,
            r.processing_time_ms == self.processing_time_ms,
            r.records_processed == self.records_processed,
            r.start_time == self.start_time,
            r.end_time == self.end_time,
    {
        let mut r = self;
        r.metadata.insert(key, value);
        r
    }

    /// The result as a `Result`: its data on success, its error otherwise.
    pub fn into_result(self) -> (r: Result<T, EnterpriseError>)
        requires
            self.wf(),
        ensures
            self.success ==> r == Ok::<T, EnterpriseError>(self.data->0),
            !self.success ==> r == Err::<T, EnterpriseError>(self.error->0),
    {
        if self.success {
            Ok(self.data.unwrap())
        } else {
            Err(self.error.unwrap())
        }
    }

    /// The processing result of a `Result`: a success of one record in no
    /// time, or a failure in no time, ending at `now`.
    pub fn from_result_at(result: Result<T, EnterpriseError>, now: i64) -> (r: Self)
        ensures
            r.wf(),
            r.processing_time_ms == 0,
            r.end_time == now,
            match result {
                Ok(d) => r.success && r.data == Some(d) && r.records_processed == 1,
                Err(e) => !r.success && r.error == Some(e) && r.records_processed == 0,
            },
    {
        match result {
            Ok(d) => Self::success_at(d, 0, 1, now),
            Err(e) => Self::failure_at(e, 0, now),
        }
    }
}

/// Where a task is in its life cycle.
#[derive(Debug, Clone, Copy, PartialEq, Eq, Structural)]
pub enum TaskStatus {
    Pending,
    Running,
    Completed,
    Failed,
    Cancelled,
    Timeout,
}

/// How urgent a task is, from lowest to highest.
#[derive(Debug, Clone, Copy, PartialEq, Eq, Structural, PartialOrd, Ord)]
pub enum TaskPriority {
    Low,
    Normal,
    High,
    Urgent,
}

/// What a task used. The CPU share is in hundredths of a percent.
#[derive(Debug, Clone, Copy, PartialEq, Eq, Structural)]
pub struct ResourceUsage {
    pub cpu_usage_basis_points: u64,
    pub memory_usage: u64,
    pub network_in: u64,
    pub network_out: u64,
    pub disk_read: u64,
    pub disk_write: u64,
}

/// Nothing used.
pub open spec fn no_usage() -> ResourceUsage {
    ResourceUsage {
        cpu_usage_basis_points: 0,
        memory_usage: 0,
        network_in: 0,
        network_out: 0,
        disk_read: 0,
        disk_write: 0,
    }
}

impl Default for ResourceUsage {
    /// Nothing used.
    fn default() -> (u: Self)
        ensures
            u == no_usage(),
    {
        ResourceUsage {
            cpu_usage_basis_points: 0,
            memory_usage: 0,
            network_in: 0,
            network_out: 0,
            disk_read: 0,
            disk_write: 0,
        }
    }
}

/// Whether a status is final.
pub open spec fn spec_is_finished(s: TaskStatus) -> bool {
    s == TaskStatus::Completed || s == TaskStatus::Failed || s == TaskStatus::Cancelled || s == TaskStatus::Timeout
}

/// Division that rounds toward zero, as integer division does in Rust.
pub open spec fn trunc_div(a: int, b: int) -> int {
    if a >= 0 {
        a / b
    } else {
        -((-a) / b)
    }
}

/// The outcome of a distributed task.
#[derive(Debug)]
pub struct TaskResult {
    pub task_id: String,
    pub status: TaskStatus,
    pub result_data: Option<Value>,
    pub error: Option<EnterpriseError>,
    pub start_time: i64,
    pub end_time: Option<i64>,
    pub node_id: Option<String>,
    pub priority: TaskPriority,
    pub resource_usage: ResourceUsage,
    pub metadata: KeyedList<Value>,
}

impl TaskResult {
    /// A pending task created at `now`.
    pub fn new_at(task_id: String, priority: TaskPriority, now: i64) -> (t: Self)
        ensures
            t.task_id == task_id,
            t.status == TaskStatus::Pending,
            t.result_data is None,
            t.error is None,
            t.start_time == now,
            t.end_time is None,
            t.node_id is None,
            t.priority == priority,
            t.resource_usage == no_usage(),
            t.metadata.wf(),
            t.metadata.map() == Map::<Seq<char>, Value>::empty(),
    {
        TaskResult {
            task_id,
            status: TaskStatus::Pending,
            result_data: None,
            error: None,
            start_time: now,
            end_time: None,
            node_id: None,
            priority,
            resource_usage: ResourceUsage::default(),
            metadata: KeyedList::new(),
        }
    }

    /// A pending task created now.
    pub fn new(task_id: String, priority: TaskPriority) -> (t: Self)
        ensures
            t.task_id == task_id,
            t.status == TaskStatus::Pending,
            t.result_data is None,
            t.error is None,
            t.end_time is None,
            t.node_id is None,
            t.priority == priority,
            t.metadata.wf(),
            t.metadata.map() == Map::<Seq<char>, Value>::empty(),
    {
        Self::new_at(task_id, priority, now_nanos())
    }

    /// The task starts running at `now` on `node_id`.
    pub fn start_at(&mut self, node_id: Option<String>, now: i64)
        ensures
            final(self).status == TaskStatus::Running,
            final(self).start_time == now,
            final(self).node_id == node_id,
            final(self).end_time == old(self).end_time,
            final(self).result_data == old(self).result_data,
            final(self).error == old(self).error,
            final(self).task_id == old(self).task_id,
            final(self).priority == old(self).priority,
            final(self).metadata == old(self).metadata,
    {
        self.status = TaskStatus::Running;
        self.start_time = now;
        self.node_id = node_id;
    }

    /// The task starts running now.
    pub fn start(&mut self, node_id: Option<String>)
        ensures
            final(self).status == TaskStatus::Running,
            final(self).node_id == node_id,
            final(self).end_time == old(self).end_time,
            final(self).task_id == old(self).task_id,
            final(self).metadata == old(self).metadata,
    {
        self.start_at(node_id, now_nanos());
    }

    /// The task completes at `now` with `result_data`.
    pub fn complete_at(&mut self, result_data: Option<Value>, now: i64)
        ensures
            final(self).status == TaskStatus::Completed,
            final(self).end_time == Some(now),
            final(self).result_data == result_data,
            final(self).start_time == old(self).start_time,
            final(self).error == old(self).error,
            final(self).node_id == old(self).node_id,
            final(self).task_id == old(self).task_id,
            final(self).metadata == old(self).metadata,
    {
        self.status = TaskStatus::Completed;
        self.end_time = Some(now);
        self.result_data = result_data;
    }

    /// The task completes now.
    pub fn complete(&mut self, result_data: Option<Value>)
        ensures
            final(self).status == TaskStatus::Completed,
            final(self).end_time is Some,
            final(self).result_data == result_data,
            final(self).start_time == old(self).start_time,
            final(self).task_id == old(self).task_id,
    {
        self.complete_at(result_data, now_nanos());
    }

    /// The task fails at `now` with `error`.
    pub fn fail_at(&mut self, error: EnterpriseError, now: i64)
        ensures
            final(self).status == TaskStatus::Failed,
            final(self).end_time == Some(now),
            final(self).error == Some(error),
            final(self).start_time == old(self).start_time,
            final(self).result_data == old(self).result_data,
            final(self).task_id == old(self).task_id,
            final(self).metadata == old(self).metadata,
    {
        self.status = TaskStatus::Failed;
        self.end_time = Some(now);
        self.error = Some(error);
    }

    /// The task fails now.
    pub fn fail(&mut self, error: EnterpriseError)
        ensures
            final(self).status == TaskStatus::Failed,
            final(self).end_time is Some,
            final(self).error == Some(error),
            final(self).start_time == old(self).start_time,
            final(self).task_id == old(self).task_id,
    {
        self.fail_at(error, now_nanos());
    }

    /// The task is cancelled at `now`.
    pub fn cancel_at(&mut self, now: i64)
        ensures
            final(self).status == TaskStatus::Cancelled,
            final(self).end_time == Some(now),
            final(self).start_time == old(self).start_time,
            final(self).result_data == old(self).result_data,
            final(self).error == old(self).error,
            final(self).task_id == old(self).task_id,
            final(self).metadata == old(self).metadata,
    {
        self.status = TaskStatus::Cancelled;
        self.end_time = Some(now);
    }

    /// The task is cancelled now.
    pub fn cancel(&mut self)
        ensures
            final(self).status == TaskStatus::Cancelled,
            final(self).end_time is Some,
            final(self).start_time == old(self).start_time,
            final(self).task_id == old(self).task_id,
    {
        self.cancel_at(now_nanos());
    }

    /// The task times out at `now`.
    pub fn timeout_at(&mut self, now: i64)
        ensures
            final(self).status == TaskStatus::Timeout,
            final(self).end_time == Some(now),
            final(self).start_time == old(self).start_time,
            final(self).result_data == old(self).result_data,
            final(self).error == old(self).error,
            final(self).task_id == old(self).task_id,
            final(self).metadata == old(self).metadata,
    {
        self.status = TaskStatus::Timeout;
        self.end_time = Some(now);
    }

    /// The task times out now.
    pub fn timeout(&mut self)
        ensures
            final(self).status == TaskStatus::Timeout,
            final(self).end_time is Some,
            final(self).start_time == old(self).start_time,
            final(self).task_id == old(self).task_id,
    {
        self.timeout_at(now_nanos());
    }

    /// Records what the task used.
    pub fn update_resource_usage(&mut self, usage: ResourceUsage)
        ensures
            final(self).resource_usage == usage,
            final(self).status == old(self).status,
            final(self).start_time == old(self).start_time,
            final(self).end_time == old(self).end_time,
            final(self).task_id == old(self).task_id,
            final(self).metadata == old(self).metadata,
    {
        self.resource_usage = usage;
    }

    /// Records `value` under `key` in the task's metadata.
    pub fn add_metadata(&mut self, key: String, value: Value)
        requires
            old(self).metadata.wf(),
        ensures
            final(self).metadata.wf(),
            final(self).metadata.map() == old(self).metadata.map().insert(key@, value),
            final(self).status == old(self).status,
            final(self).start_time == old(self).start_time,
            final(self).end_time == old(self).end_time,
            final(self).task_id == old(self).task_id,
    {
        self.metadata.insert(key, value);
    }

    /// The milliseconds from start to end, rounded toward zero and read as
    /// 64 bits unsigned; `None` while the task has not ended.
    pub fn execution_time_ms(&self) -> (r: Option<u64>)
        requires
            self.end_time matches Some(end) ==> i64::MIN <= end - self.start_time <= i64::MAX,
        ensures
            match self.end_time {
                Some(end) => r == Some((trunc_div(end - self.start_time, 1_000_000) as i64) as u64),
                None => r is None,
            },
    {
        match self.end_time {
            Some(end) => {
                let d: i128 = end as i128 - self.start_time as i128;
                let q: i128 = if d >= 0 { d / 1_000_000 } else { -((-d) / 1_000_000) };
                Some((q as i64) as u64)
            },
            None => None,
        }
    }

    /// Whether the task has reached a final state.
    pub fn is_finished(&self) -> (b: bool)
        ensures
            b == spec_is_finished(self.status),
    {
        match self.status {
            TaskStatus::Completed | TaskStatus::Failed | TaskStatus::Cancelled | TaskStatus::Timeout => true,
            _ => false,
        }
    }

    /// Whether the task completed.
    pub fn is_successful(&self) -> (b: bool)
        ensures
            b == (self.status == TaskStatus::Completed),
    {
        self.status == TaskStatus::Completed
    }
}

/// The outcome of a batch of processing steps.
#[derive(Debug)]
pub struct BatchResult<T> {
    pub batch_id: String,
    pub total_records: usize,
    pub successful_records: usize,
    pub failed_records: usize,
    pub results: Vec<ProcessingResult<T>>,
    pub start_time: i64,
    pub end_time: i64,
    pub total_processing_time_ms: u64,
}

impl<T> BatchResult<T> {
    /// An empty batch started and ended at `now`.
    pub fn new_at(batch_id: String, now: i64) -> (b: Self)
        ensures
            b.batch_id == batch_id,
            b.total_records == 0,
            b.successful_records == 0,
            b.failed_records == 0,
            b.results@.len() == 0,
            b.start_time == now,
            b.end_time == now,
            b.total_processing_time_ms == 0,
    {
        BatchResult {
            batch_id,
            total_records: 0,
            successful_records: 0,
            failed_records: 0,
            results: Vec::new(),
            start_time: now,
            end_time: now,
            total_processing_time_ms: 0,
        }
    }

    /// An empty batch started now.
    pub fn new(batch_id: String) -> (b: Self)
        ensures
            b.batch_id == batch_id,
            b.total_records == 0,
            b.successful_records == 0,
            b.failed_records == 0,
            b.results@.len() == 0,
            b.start_time == b.end_time,
            b.total_processing_time_ms == 0,
    {
        Self::new_at(batch_id, now_nanos())
    }

    /// Adds a result: counted, as a success or a failure, with its time.
    pub fn add_result(&mut self, result: ProcessingResult<T>)
        requires
            old(self).total_records < usize::MAX,
            old(self).successful_records < usize::MAX,
            old(self).failed_records < usize::MAX,
            old(self).total_processing_time_ms + result.processing_time_ms <= u64::MAX,
        ensures
            final(self).total_records == old(self).total_records + 1,
            final(self).successful_records == old(self).successful_records + (if result.success { 1int } else { 0 }),
            final(self).failed_records == old(self).failed_records + (if result.success { 0int } else { 1 }),
            final(self).total_processing_time_ms == old(self).total_processing_time_ms + result.processing_time_ms,
            final(self).results@ == old(self).results@.push(result),
            final(self).start_time == old(self).start_time,
            final(self).end_time == old(self).end_time,
            final(self).batch_id == old(self).batch_id,
    {
        self.total_records = self.total_records + 1;
        if result.success {
            self.successful_records = self.successful_records + 1;
        } else {
            self.failed_records = self.failed_records + 1;
        }
        self.total_processing_time_ms = self.total_processing_time_ms + result.processing_time_ms;
        self.results.push(result);
    }

    /// Ends the batch at `now`.
    pub fn finish_at(&mut self, now: i64)
        ensures
            final(self).end_time == now,
            final(self).start_time == old(self).start_time,
            final(self).total_records == old(self).total_records,
            final(self).successful_records == old(self).successful_records,
            final(self).failed_records == old(self).failed_records,
            final(self).results@ == old(self).results@,
    {
        self.end_time = now;
    }

    /// Ends the batch now.
    pub fn finish(&mut self)
        ensures
            final(self).start_time == old(self).start_time,
            final(self).total_records == old(self).total_records,
            final(self).results@ == old(self).results@,
    {
        self.finish_at(now_nanos());
    }
}

/// Completion, failure, cancellation and timing out are the final states;
/// pending and running are not.
pub proof fn lemma_final_states(s: TaskStatus)
    ensures
        spec_is_finished(s) <==> (s != TaskStatus::Pending && s != TaskStatus::Running),
{
}

/// Adding a result keeps a batch's successes and failures adding up to its
/// total.
pub proof fn lemma_batch_counts_balanced(total: int, successful: int, failed: int, success: bool)
    requires
        successful + failed == total,
    ensures
        (successful + (if success { 1int } else { 0 })) + (failed + (if success { 0int } else { 1 })) == total + 1,
{
}

} // verus!
