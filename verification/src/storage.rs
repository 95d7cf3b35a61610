//! Enterprise storage: its kind and counters.

use vstd::prelude::*;

verus! {

/// A handle on the service; it holds no state.
#[derive(Debug, Clone, Copy, PartialEq, Eq, Structural)]
pub struct EnterpriseStorage;

/// The service's counters.
#[derive(Debug, Clone, Copy, PartialEq, Eq, Structural)]
pub struct StorageMetrics {
    pub bytes_stored: u64,
}

impl Default for StorageMetrics {
    /// Nothing stored yet.
    fn default() -> (c: Self)
        ensures
            c == (StorageMetrics { bytes_stored: 0 }),
    {
        StorageMetrics { bytes_stored: 0 }
    }
}

/// The storage backend.
#[derive(Debug, Clone)]
pub struct StorageConfig {
    pub storage_type: String,
}

impl Default for StorageConfig {
    /// In memory.
    fn default() -> (c: Self)
        ensures
            c.storage_type@ == "memory"@,
    {
        StorageConfig { storage_type: String::from_str("memory") }
    }
}

} // verus!
