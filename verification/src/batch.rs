//! Batch processing: its batch size and counters.

use vstd::prelude::*;
use crate::error::EnterpriseError;

verus! {

/// A handle on the service; it holds no state.
#[derive(Debug, Clone, Copy, PartialEq, Eq, Structural)]
pub struct EnterpriseBatchProcessor;

/// The service's configuration.
#[derive(Debug, Clone, Copy, PartialEq, Eq, Structural)]
pub struct BatchProcessorConfig {
    pub batch_size: usize,
}

impl Default for BatchProcessorConfig {
    /// Batches of 1000 records.
    fn default() -> (c: Self)
        ensures
            c == (BatchProcessorConfig { batch_size: 1000 }),
    {
        BatchProcessorConfig { batch_size: 1000 }
    }
}

/// The service's counters.
#[derive(Debug, Clone, Copy, PartialEq, Eq, Structural)]
pub struct BatchMetrics {
    pub batches_processed: u64,
}

impl Default for BatchMetrics {
    /// No batch processed yet.
    fn default() -> (c: Self)
        ensures
            c == (BatchMetrics { batches_processed: 0 }),
    {
        BatchMetrics { batches_processed: 0 }
    }
}

impl EnterpriseBatchProcessor {
    /// A batch processor; any configuration is accepted.
    pub fn new(config: BatchProcessorConfig) -> (r: Result<Self, EnterpriseError>)
        ensures
            r is Ok,
    {
        let _ = config;
        Ok(EnterpriseBatchProcessor)
    }
}

} // verus!
