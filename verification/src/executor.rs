//! The WASM task executor: its concurrency limit and counters.

use vstd::prelude::*;

verus! {

/// A handle on the service; it holds no state.
#[derive(Debug, Clone, Copy, PartialEq, Eq, Structural)]
pub struct WasmExecutor;

/// The service's configuration.
#[derive(Debug, Clone, Copy, PartialEq, Eq, Structural)]
pub struct ExecutorConfig {
    pub max_concurrent: usize,
}

impl Default for ExecutorConfig {
    /// At most 100 tasks at once.
    fn default() -> (c: Self)
        ensures
            c == (ExecutorConfig { max_concurrent: 100 }),
    {
        ExecutorConfig { max_concurrent: 100 }
    }
}

/// The service's counters.
#[derive(Debug, Clone, Copy, PartialEq, Eq, Structural)]
pub struct ExecutorMetrics {
    pub tasks_executed: u64,
}

impl Default for ExecutorMetrics {
    /// No task executed yet.
    fn default() -> (c: Self)
        ensures
            c == (ExecutorMetrics { tasks_executed: 0 }),
    {
        ExecutorMetrics { tasks_executed: 0 }
    }
}

} // verus!
