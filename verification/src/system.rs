//! The enterprise system as a whole: which of its parts are switched on,
//! chosen through a builder, and the submission of distributed work.

use vstd::prelude::*;
use crate::clock::new_uuid_string;
use crate::error::EnterpriseError;

verus! {

/// Chooses the parts of the enterprise system.
#[derive(Debug, Clone, Copy, PartialEq, Eq, Structural)]
pub struct EnterpriseSystemBuilder {
    enable_distributed: bool,
    enable_marketplace: bool,
}

impl EnterpriseSystemBuilder {
    /// Whether distributed computing will be on.
    pub closed spec fn distributed(self) -> bool {
        self.enable_distributed
    }

    /// Whether the marketplace will be on.
    pub closed spec fn marketplace(self) -> bool {
        self.enable_marketplace
    }

    /// A builder with distributed computing and the marketplace on.
    pub fn new() -> (b: Self)
        ensures
            b.distributed(),
            b.marketplace(),
    {
        EnterpriseSystemBuilder { enable_distributed: true, enable_marketplace: true }
    }

    /// Monitoring cannot be configured yet: the builder is unchanged.
    pub fn with_monitoring_enabled(self, enabled: bool) -> (b: Self)
        ensures
            b == self,
    {
        let _ = enabled;
        self
    }

    /// Security cannot be configured yet: the builder is unchanged.
    pub fn with_security_enabled(self, enabled: bool) -> (b: Self)
        ensures
            b == self,
    {
        let _ = enabled;
        self
    }

    /// Turns distributed computing on.
    pub fn enable_distributed(self) -> (b: Self)
        ensures
            b.distributed(),
            b.marketplace() == self.marketplace(),
    {
        let mut b = self;
        b.enable_distributed = true;
        b
    }

    /// Turns the marketplace on.
    pub fn enable_marketplace(self) -> (b: Self)
        ensures
            b.marketplace(),
            b.distributed() == self.distributed(),
    {
        let mut b = self;
        b.enable_marketplace = true;
        b
    }

    /// The system the builder describes: monitoring and security always on.
    pub fn build(self) -> (s: EnterpriseSystem)
        ensures
            s.monitoring_enabled,
            s.security_enabled,
            s.distributed_enabled == self.distributed(),
            s.marketplace_enabled == self.marketplace(),
    {
        EnterpriseSystem {
            monitoring_enabled: true,
            security_enabled: true,
            distributed_enabled: self.enable_distributed,
            marketplace_enabled: self.enable_marketplace,
        }
    }
}

impl Default for EnterpriseSystemBuilder {
    /// The same as `new`.
    fn default() -> (b: Self)
        ensures
            b.distributed(),
            b.marketplace(),
    {
        Self::new()
    }
}

/// Which parts of the enterprise system are on.
#[derive(Debug, Clone, Copy, PartialEq, Eq, Structural)]
pub struct EnterpriseSystem {
    pub monitoring_enabled: bool,
    pub security_enabled: bool,
    pub distributed_enabled: bool,
    pub marketplace_enabled: bool,
}

/// What the system reports of itself.
#[derive(Debug, Clone, Copy, PartialEq, Eq, Structural)]
pub struct EnterpriseSystemStats {
    pub distributed_enabled: bool,
    pub marketplace_enabled: bool,
}

impl EnterpriseSystem {
    /// The system with every part on.
    pub fn new() -> (s: Self)
        ensures
            s.monitoring_enabled && s.security_enabled && s.distributed_enabled && s.marketplace_enabled,
    {
        EnterpriseSystemBuilder::new().build()
    }

    /// Accepts a distributed task under a fresh identifier: a configuration
    /// error when distributed computing is off.
    pub fn submit_distributed_task(&self) -> (r: Result<String, EnterpriseError>)
        ensures
            self.distributed_enabled ==> (r matches Ok(id) && id@.len() == 36),
            !self.distributed_enabled ==> (r matches Err(EnterpriseError::Configuration { message: m }) && m@
                == "分布式计算未启用"@),
    {
        if !self.distributed_enabled {
            return Err(EnterpriseError::configuration("分布式计算未启用"));
        }
        Ok(new_uuid_string())
    }

    /// The system's report of which parts are on.
    pub fn get_enterprise_stats(&self) -> (s: EnterpriseSystemStats)
        ensures
            s.distributed_enabled == self.distributed_enabled,
            s.marketplace_enabled == self.marketplace_enabled,
    {
        EnterpriseSystemStats { distributed_enabled: self.distributed_enabled, marketplace_enabled: self.marketplace_enabled }
    }
}

/// Whether the monitoring system can be created: it always can.
pub fn create_default_monitoring() -> (r: Result<bool, EnterpriseError>)
    ensures
        r == Ok::<bool, EnterpriseError>(true),
{
    Ok(true)
}

} // verus!
