//! Alert delivery: its switch and counters.

use vstd::prelude::*;

verus! {

/// A handle on the service; it holds no state.
#[derive(Debug, Clone, Copy, PartialEq, Eq, Structural)]
pub struct AlertingManager;

/// The service's configuration.
#[derive(Debug, Clone, Copy, PartialEq, Eq, Structural)]
pub struct AlertingConfig {
    pub enabled: bool,
}

impl Default for AlertingConfig {
    /// Alerts on.
    fn default() -> (c: Self)
        ensures
            c == (AlertingConfig { enabled: true }),
    {
        AlertingConfig { enabled: true }
    }
}

/// The service's counters.
#[derive(Debug, Clone, Copy, PartialEq, Eq, Structural)]
pub struct AlertingMetrics {
    pub alerts_sent: u64,
}

impl Default for AlertingMetrics {
    /// No alert sent yet.
    fn default() -> (c: Self)
        ensures
            c == (AlertingMetrics { alerts_sent: 0 }),
    {
        AlertingMetrics { alerts_sent: 0 }
    }
}

} // verus!
