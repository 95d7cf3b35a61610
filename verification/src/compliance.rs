//! Compliance checking: its switch and counters.

use vstd::prelude::*;

verus! {

/// A handle on the service; it holds no state.
#[derive(Debug, Clone, Copy, PartialEq, Eq, Structural)]
pub struct ComplianceManager;

/// The service's configuration.
#[derive(Debug, Clone, Copy, PartialEq, Eq, Structural)]
pub struct ComplianceConfig {
    pub enabled: bool,
}

impl Default for ComplianceConfig {
    /// Checks on.
    fn default() -> (c: Self)
        ensures
            c == (ComplianceConfig { enabled: true }),
    {
        ComplianceConfig { enabled: true }
    }
}

/// The service's counters.
#[derive(Debug, Clone, Copy, PartialEq, Eq, Structural)]
pub struct ComplianceMetrics {
    pub compliance_checks: u64,
}

impl Default for ComplianceMetrics {
    /// No check made yet.
    fn default() -> (c: Self)
        ensures
            c == (ComplianceMetrics { compliance_checks: 0 }),
    {
        ComplianceMetrics { compliance_checks: 0 }
    }
}

} // verus!
