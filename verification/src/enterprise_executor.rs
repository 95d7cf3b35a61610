//! Distributed tasks as the enterprise executor takes them: a named payload
//! with a priority, the resources it needs and the limits it runs under.

use vstd::prelude::*;
use serde_json::Value;
use crate::clock::new_uuid_string;
use crate::error::EnterpriseError;

verus! {

/// The enterprise executor of WASM tasks.
#[derive(Debug, Clone, Copy, PartialEq, Eq, Structural)]
pub struct EnterpriseWasmExecutor;

/// How urgent a task is, from lowest to highest.
#[derive(Debug, Clone, Copy, PartialEq, Eq, Structural, PartialOrd, Ord)]
pub enum TaskPriority {
    Low,
    Normal,
    High,
    Critical,
}

impl Default for TaskPriority {
    /// Normal.
    fn default() -> (p: Self)
        ensures
            p == TaskPriority::Normal,
    {
        TaskPriority::Normal
    }
}

/// What a task needs to run. CPU is in thousandths of a core.
#[derive(Debug, Clone, Copy, PartialEq, Eq, Structural)]
pub struct ResourceRequirements {
    pub cpu_millicores: u64,
    pub memory_mb: u64,
    pub storage_mb: u64,
    pub network_mbps: u64,
}

/// One core, 512 MB of memory, 1 GB of storage, 100 Mb/s.
pub open spec fn default_requirements() -> ResourceRequirements {
    ResourceRequirements { cpu_millicores: 1000, memory_mb: 512, storage_mb: 1024, network_mbps: 100 }
}

impl Default for ResourceRequirements {
    /// One core, 512 MB of memory, 1 GB of storage, 100 Mb/s.
    fn default() -> (r: Self)
        ensures
            r == default_requirements(),
    {
        ResourceRequirements { cpu_millicores: 1000, memory_mb: 512, storage_mb: 1024, network_mbps: 100 }
    }
}

/// The limits a task runs under.
#[derive(Debug, Clone)]
pub struct ExecutionConstraints {
    /// In milliseconds.
    pub max_execution_time_ms: u64,
    pub max_retries: u32,
    pub node_affinity: Option<Vec<String>>,
    pub node_anti_affinity: Option<Vec<String>>,
}

impl Default for ExecutionConstraints {
    /// Five minutes, three retries, no affinity either way.
    fn default() -> (c: Self)
        ensures
            c.max_execution_time_ms == 300_000,
            c.max_retries == 3,
            c.node_affinity is None,
            c.node_anti_affinity is None,
    {
        ExecutionConstraints {
            max_execution_time_ms: 300_000,
            max_retries: 3,
            node_affinity: None,
            node_anti_affinity: None,
        }
    }
}

/// A task for the distributed executor.
#[derive(Debug, Clone)]
pub struct DistributedTask {
    pub id: String,
    pub name: String,
    pub priority: TaskPriority,
    pub resource_requirements: ResourceRequirements,
    pub execution_constraints: ExecutionConstraints,
    pub data: Value,
}

impl DistributedTask {
    /// A task named `name` carrying `data`, with a fresh identifier, normal
    /// priority and the default requirements and limits.
    pub fn new(name: String, data: Value) -> (t: Self)
        ensures
            t.id@.len() == 36,
            t.name == name,
            t.data == data,
            t.priority == TaskPriority::Normal,
            t.resource_requirements == default_requirements(),
            t.execution_constraints.max_execution_time_ms == 300_000,
            t.execution_constraints.max_retries == 3,
            t.execution_constraints.node_affinity is None,
            t.execution_constraints.node_anti_affinity is None,
    {
        DistributedTask {
            id: new_uuid_string(),
            name,
            priority: TaskPriority::default(),
            resource_requirements: ResourceRequirements::default(),
            execution_constraints: ExecutionConstraints::default(),
            data,
        }
    }

    /// The task with `priority`.
    pub fn with_priority(self, priority: TaskPriority) -> (t: Self)
        ensures
            t.priority == priority,
            t.id == self.id,
            t.name == self.name,
            t.data == self.data,
            t.resource_requirements == self.resource_requirements,
            t.execution_constraints == self.execution_constraints,
    {
        let mut t = self;
        t.priority = priority;
        t
    }

    /// The task with `requirements`.
    pub fn with_resource_requirements(self, requirements: ResourceRequirements) -> (t: Self)
        ensures
            t.resource_requirements == requirements,
            t.id == self.id,
            t.name == self.name,
            t.data == self.data,
            t.priority == self.priority,
            t.execution_constraints == self.execution_constraints,
    {
        let mut t = self;
        t.resource_requirements = requirements;
        t
    }

    /// The task with `constraints`.
    pub fn with_execution_constraints(self, constraints: ExecutionConstraints) -> (t: Self)
        ensures
            t.execution_constraints == constraints,
            t.id == self.id,
            t.name == self.name,
            t.data == self.data,
            t.priority == self.priority,
            t.resource_requirements == self.resource_requirements,
    {
        let mut t = self;
        t.execution_constraints = constraints;
        t
    }
}

/// Where a submitted task is.
#[derive(Debug, Clone, Copy, PartialEq, Eq, Structural)]
pub enum TaskStatus {
    Pending,
    Running,
    Completed,
    Failed,
    Cancelled,
}

impl EnterpriseWasmExecutor {
    /// An executor.
    pub fn new() -> (r: Result<Self, EnterpriseError>)
        ensures
            r is Ok,
    {
        Ok(EnterpriseWasmExecutor)
    }

    /// Accepts a task under a fresh identifier.
    pub fn submit_task(&self, task: DistributedTask) -> (r: Result<String, EnterpriseError>)
        ensures
            r matches Ok(id) && id@.len() == 36,
    {
        let _ = task;
        Ok(new_uuid_string())
    }

    /// The status of a submitted task: every task is reported running.
    pub fn get_task_status(&self, task_id: &str) -> (r: Result<TaskStatus, EnterpriseError>)
        ensures
            r == Ok::<TaskStatus, EnterpriseError>(TaskStatus::Running),
    {
        let _ = task_id;
        Ok(TaskStatus::Running)
    }

    /// Cancels a task; it always succeeds.
    pub fn cancel_task(&self, task_id: &str) -> (r: Result<(), EnterpriseError>)
        ensures
            r is Ok,
    {
        let _ = task_id;
        Ok(())
    }
}

} // verus!
