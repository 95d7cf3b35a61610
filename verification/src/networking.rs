//! Networking: its switch and traffic counters.

use vstd::prelude::*;

verus! {

/// A handle on the service; it holds no state.
#[derive(Debug, Clone, Copy, PartialEq, Eq, Structural)]
pub struct NetworkManager;

/// The service's configuration.
#[derive(Debug, Clone, Copy, PartialEq, Eq, Structural)]
pub struct NetworkConfig {
    pub enabled: bool,
}

impl Default for NetworkConfig {
    /// Networking on.
    fn default() -> (c: Self)
        ensures
            c == (NetworkConfig { enabled: true }),
    {
        NetworkConfig { enabled: true }
    }
}

/// The service's counters.
#[derive(Debug, Clone, Copy, PartialEq, Eq, Structural)]
pub struct NetworkMetrics {
    pub bytes_sent: u64,
    pub bytes_received: u64,
}

impl Default for NetworkMetrics {
    /// No traffic yet.
    fn default() -> (c: Self)
        ensures
            c == (NetworkMetrics { bytes_sent: 0, bytes_received: 0 }),
    {
        NetworkMetrics { bytes_sent: 0, bytes_received: 0 }
    }
}

} // verus!
