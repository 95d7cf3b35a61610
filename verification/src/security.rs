//! Enterprise security: encryption switch and counters.

use vstd::prelude::*;

verus! {

/// A handle on the service; it holds no state.
#[derive(Debug, Clone, Copy, PartialEq, Eq, Structural)]
pub struct EnterpriseSecurityManager;

/// The service's configuration.
#[derive(Debug, Clone, Copy, PartialEq, Eq, Structural)]
pub struct SecurityConfig {
    pub encryption_enabled: bool,
}

impl Default for SecurityConfig {
    /// Encryption on.
    fn default() -> (c: Self)
        ensures
            c == (SecurityConfig { encryption_enabled: true }),
    {
        SecurityConfig { encryption_enabled: true }
    }
}

/// The service's counters.
#[derive(Debug, Clone, Copy, PartialEq, Eq, Structural)]
pub struct SecurityMetrics {
    pub security_events: u64,
}

impl Default for SecurityMetrics {
    /// No security event yet.
    fn default() -> (c: Self)
        ensures
            c == (SecurityMetrics { security_events: 0 }),
    {
        SecurityMetrics { security_events: 0 }
    }
}

} // verus!
