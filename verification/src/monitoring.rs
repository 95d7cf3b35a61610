//! Enterprise monitoring. Metrics are collected by the observability
//! module; these types stand for the monitoring service and its collector,
//! which hold no state yet.

use vstd::prelude::*;

verus! {

/// The enterprise monitoring service.
pub struct EnterpriseMonitoring;

/// The collector of metrics.
pub struct MetricsCollector;

} // verus!
