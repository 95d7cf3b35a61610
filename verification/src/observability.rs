//! Tracing: its switch and counters.

use vstd::prelude::*;

verus! {

/// A handle on the service; it holds no state.
#[derive(Debug, Clone, Copy, PartialEq, Eq, Structural)]
pub struct ObservabilityManager;

/// The service's configuration.
#[derive(Debug, Clone, Copy, PartialEq, Eq, Structural)]
pub struct TracingConfig {
    pub enabled: bool,
}

impl Default for TracingConfig {
    /// Tracing on.
    fn default() -> (c: Self)
        ensures
            c == (TracingConfig { enabled: true }),
    {
        TracingConfig { enabled: true }
    }
}

/// The service's counters.
#[derive(Debug, Clone, Copy, PartialEq, Eq, Structural)]
pub struct TracingMetrics {
    pub traces_collected: u64,
}

impl Default for TracingMetrics {
    /// No trace collected yet.
    fn default() -> (c: Self)
        ensures
            c == (TracingMetrics { traces_collected: 0 }),
    {
        TracingMetrics { traces_collected: 0 }
    }
}

} // verus!
