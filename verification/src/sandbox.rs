//! The plugin sandbox: its security policy, permission checks, resource
//! accounting and audit log.

use std::collections::HashMap;
use vstd::prelude::*;
use crate::clock::utc_now_millis;
use crate::text::{contains_str, str_eq, string_views};
use crate::wasm_error::WasmResult;

verus! {

/// What a plugin may do and use.
#[derive(Debug, Clone)]
pub struct SecurityPolicy {
    pub allow_network: bool,
    pub allow_filesystem: bool,
    pub allow_env_vars: bool,
    /// Host functions a plugin may call, by name without the `host_` prefix.
    pub allowed_host_functions: Vec<String>,
    /// Host functions a plugin may never call.
    pub denied_host_functions: Vec<String>,
    pub max_memory_bytes: usize,
    pub max_execution_time_ms: u64,
    pub debug_mode: bool,
}

impl Default for SecurityPolicy {
    /// No network, file system or environment; `log` and `get_time`
    /// allowed; `exec`, `spawn` and `exit` denied; 64 MiB and 5 s.
    fn default() -> (p: Self)
        ensures
            !p.allow_network,
            !p.allow_filesystem,
            !p.allow_env_vars,
            string_views(p.allowed_host_functions@) == seq!["log"@, "get_time"@],
            string_views(p.denied_host_functions@) == seq!["exec"@, "spawn"@, "exit"@],
            p.max_memory_bytes == 64 * 1024 * 1024,
            p.max_execution_time_ms == 5000,
            !p.debug_mode,
    {
        let allowed = vec![String::from_str("log"), String::from_str("get_time")];
        let denied = vec![String::from_str("exec"), String::from_str("spawn"), String::from_str("exit")];
        assert(string_views(allowed@) =~= seq!["log"@, "get_time"@]);
        assert(string_views(denied@) =~= seq!["exec"@, "spawn"@, "exit"@]);
        SecurityPolicy {
            allow_network: false,
            allow_filesystem: false,
            allow_env_vars: false,
            allowed_host_functions: allowed,
            denied_host_functions: denied,
            max_memory_bytes: 64 * 1024 * 1024,
            max_execution_time_ms: 5000,
            debug_mode: false,
        }
    }
}

/// What to write to the audit log.
#[derive(Debug, Clone)]
pub struct AuditConfig {
    pub enabled: bool,
    /// The file the log is appended to; with none, flushed entries are dropped.
    pub log_file: Option<String>,
    pub log_function_calls: bool,
    pub log_memory_access: bool,
    pub log_network_access: bool,
}

/// The configuration of a sandbox.
#[derive(Debug, Clone)]
pub struct SandboxConfig {
    pub security_policy: SecurityPolicy,
    pub enable_resource_monitoring: bool,
    pub enable_call_tracing: bool,
    pub audit_config: Option<AuditConfig>,
}

impl Default for SandboxConfig {
    /// The default policy, resource monitoring on, no tracing, no audit.
    fn default() -> (c: Self)
        ensures
            !c.security_policy.allow_network,
            !c.security_policy.allow_filesystem,
            !c.security_policy.allow_env_vars,
            string_views(c.security_policy.allowed_host_functions@) == seq!["log"@, "get_time"@],
            string_views(c.security_policy.denied_host_functions@) == seq!["exec"@, "spawn"@, "exit"@],
            c.security_policy.max_memory_bytes == 64 * 1024 * 1024,
            c.security_policy.max_execution_time_ms == 5000,
            !c.security_policy.debug_mode,
            c.enable_resource_monitoring,
            !c.enable_call_tracing,
            c.audit_config is None,
    {
        SandboxConfig {
            security_policy: SecurityPolicy::default(),
            enable_resource_monitoring: true,
            enable_call_tracing: false,
            audit_config: None,
        }
    }
}

/// Whether `op` names a host function: it starts with `host_`.
pub open spec fn is_host_operation(op: Seq<char>) -> bool {
    op.len() >= 5 && op.subrange(0, 5) == "host_"@
}

/// Whether `policy` permits the operation `op`: `network`, `filesystem` and
/// `env_vars` by their flags; `host_` followed by a name when the name is
/// allowed and not denied; nothing else.
pub open spec fn permitted(policy: SecurityPolicy, op: Seq<char>) -> bool {
    if op == "network"@ {
        policy.allow_network
    } else if op == "filesystem"@ {
        policy.allow_filesystem
    } else if op == "env_vars"@ {
        policy.allow_env_vars
    } else if is_host_operation(op) {
        let name = op.subrange(5, op.len() as int);
        !string_views(policy.denied_host_functions@).contains(name)
            && string_views(policy.allowed_host_functions@).contains(name)
    } else {
        false
    }
}

/// Whether `s` starts with `host_`.
fn starts_with_host(s: &str) -> (b: bool)
    ensures
        b == is_host_operation(s@),
{
    let prefix = "host_";
    proof {
        reveal_strlit("host_");
    }
    let n = s.unicode_len();
    if n < 5 {
        return false;
    }
    let mut i: usize = 0;
    while i < 5
        invariant
            n == s@.len(),
            5 <= n,
            i <= 5,
            prefix@ == "host_"@,
            prefix@.len() == 5,
            forall|k: int| 0 <= k < i ==> s@[k] == prefix@[k],
        decreases 5 - i,
    {
        if s.get_char(i) != prefix.get_char(i) {
            assert(s@.subrange(0, 5)[i as int] != "host_"@[i as int]);
            return false;
        }
        i = i + 1;
    }
    assert(s@.subrange(0, 5) =~= "host_"@);
    true
}

/// Whether `current_usage` bytes stay within the policy's memory limit.
pub open spec fn within_memory_limit(policy: SecurityPolicy, current_usage: usize) -> bool {
    current_usage <= policy.max_memory_bytes
}

/// Whether `elapsed_ms` stays within the policy's time limit.
pub open spec fn within_time_limit(policy: SecurityPolicy, elapsed_ms: u64) -> bool {
    elapsed_ms <= policy.max_execution_time_ms
}

/// The resources a sandbox has seen used.
#[derive(Debug, Clone)]
pub struct ResourceStats {
    pub current_memory_usage: usize,
    pub peak_memory_usage: usize,
    pub total_execution_time_ms: u64,
    pub function_call_count: u64,
    pub memory_access_count: u64,
    /// Milliseconds since the Unix epoch (UTC) of the last update.
    pub last_updated: i64,
}

impl Default for ResourceStats {
    /// All counts zero, stamped with the current time.
    fn default() -> (s: Self)
        ensures
            s.current_memory_usage == 0,
            s.peak_memory_usage == 0,
            s.total_execution_time_ms == 0,
            s.function_call_count == 0,
            s.memory_access_count == 0,
    {
        ResourceStats {
            current_memory_usage: 0,
            peak_memory_usage: 0,
            total_execution_time_ms: 0,
            function_call_count: 0,
            memory_access_count: 0,
            last_updated: utc_now_millis(),
        }
    }
}

impl ResourceStats {
    /// Counts a call that used `memory_usage` bytes and `execution_time_ms`.
    pub fn update(&mut self, memory_usage: usize, execution_time_ms: u64)
        requires
            old(self).total_execution_time_ms + execution_time_ms <= u64::MAX,
            old(self).function_call_count < u64::MAX,
        ensures
            final(self).current_memory_usage == memory_usage,
            final(self).peak_memory_usage == if memory_usage > old(self).peak_memory_usage {
                memory_usage
            } else {
                old(self).peak_memory_usage
            },
            final(self).total_execution_time_ms == old(self).total_execution_time_ms + execution_time_ms,
            final(self).function_call_count == old(self).function_call_count + 1,
            final(self).memory_access_count == old(self).memory_access_count,
    {
        self.current_memory_usage = memory_usage;
        if memory_usage > self.peak_memory_usage {
            self.peak_memory_usage = memory_usage;
        }
        self.total_execution_time_ms = self.total_execution_time_ms + execution_time_ms;
        self.function_call_count = self.function_call_count + 1;
        self.last_updated = utc_now_millis();
    }

    /// Counts a memory access.
    pub fn record_memory_access(&mut self)
        requires
            old(self).memory_access_count < u64::MAX,
        ensures
            final(self).memory_access_count == old(self).memory_access_count + 1,
            final(self).current_memory_usage == old(self).current_memory_usage,
            final(self).peak_memory_usage == old(self).peak_memory_usage,
            final(self).total_execution_time_ms == old(self).total_execution_time_ms,
            final(self).function_call_count == old(self).function_call_count,
    {
        self.memory_access_count = self.memory_access_count + 1;
        self.last_updated = utc_now_millis();
    }
}

/// The kind of an audited event.
#[derive(Debug, Clone, Copy, PartialEq, Eq, Structural)]
pub enum AuditEventType {
    FunctionCall,
    MemoryAccess,
    NetworkAccess,
    FilesystemAccess,
    PermissionCheck,
    ResourceViolation,
}

/// The name written for an event kind.
pub open spec fn audit_event_name(t: AuditEventType) -> Seq<char> {
    match t {
        AuditEventType::FunctionCall => "FUNCTION_CALL"@,
        AuditEventType::MemoryAccess => "MEMORY_ACCESS"@,
        AuditEventType::NetworkAccess => "NETWORK_ACCESS"@,
        AuditEventType::FilesystemAccess => "FILESYSTEM_ACCESS"@,
        AuditEventType::PermissionCheck => "PERMISSION_CHECK"@,
        AuditEventType::ResourceViolation => "RESOURCE_VIOLATION"@,
    }
}

impl AuditEventType {
    /// The name written for this event kind.
    pub fn as_str(&self) -> (s: &'static str)
        ensures
            s@ == audit_event_name(*self),
    {
        match self {
            AuditEventType::FunctionCall => "FUNCTION_CALL",
            AuditEventType::MemoryAccess => "MEMORY_ACCESS",
            AuditEventType::NetworkAccess => "NETWORK_ACCESS",
            AuditEventType::FilesystemAccess => "FILESYSTEM_ACCESS",
            AuditEventType::PermissionCheck => "PERMISSION_CHECK",
            AuditEventType::ResourceViolation => "RESOURCE_VIOLATION",
        }
    }
}

/// What an audit entry records.
#[derive(Debug, Clone)]
pub enum AuditDetails {
    /// A call of `function_name` with its parameters.
    FunctionCall { function_name: String, parameters: HashMap<String, serde_json::Value> },
    /// A memory operation on `size` bytes at `address`.
    MemoryAccess { operation: String, address: usize, size: usize },
}

/// One audited event.
#[derive(Debug, Clone)]
pub struct AuditLogEntry {
    /// Milliseconds since the Unix epoch (UTC).
    pub timestamp: i64,
    pub event_type: AuditEventType,
    pub details: AuditDetails,
}

/// The number of entries at which the log is flushed.
pub const AUDIT_FLUSH_THRESHOLD: usize = 100;

/// Whether `e` records a call of `name` with `params`.
pub open spec fn records_call(e: AuditLogEntry, name: Seq<char>, params: Map<String, serde_json::Value>) -> bool {
    &&& e.event_type == AuditEventType::FunctionCall
    &&& e.details matches AuditDetails::FunctionCall { function_name: n, parameters: p }
    &&& n@ == name
    &&& p@ == params
}

/// Whether `e` records the memory operation `op` on `size` bytes at `address`.
pub open spec fn records_access(e: AuditLogEntry, op: Seq<char>, address: usize, size: usize) -> bool {
    &&& e.event_type == AuditEventType::MemoryAccess
    &&& e.details matches AuditDetails::MemoryAccess { operation: o, address: a, size: s }
    &&& o@ == op
    &&& a == address
    &&& s == size
}

/// Whether appending `e` to `before` gives the log `after` and the flushed
/// batch `flushed`: once the log holds `AUDIT_FLUSH_THRESHOLD` entries, they
/// all leave it in one batch.
pub open spec fn appended(
    before: Seq<AuditLogEntry>,
    e: AuditLogEntry,
    after: Seq<AuditLogEntry>,
    flushed: Option<Vec<AuditLogEntry>>,
) -> bool {
    if before.len() + 1 >= AUDIT_FLUSH_THRESHOLD {
        flushed matches Some(batch) && batch@ == before.push(e) && after.len() == 0
    } else {
        flushed is None && after == before.push(e)
    }
}

/// Collects audit entries and hands them out in batches to be written.
#[derive(Debug)]
pub struct AuditLogger {
    config: AuditConfig,
    log_entries: Vec<AuditLogEntry>,
}

impl AuditLogger {
    /// The entries not yet flushed.
    pub closed spec fn entries(self) -> Seq<AuditLogEntry> {
        self.log_entries@
    }

    /// The configuration.
    pub closed spec fn config(self) -> AuditConfig {
        self.config
    }

    /// An empty log with `config`.
    pub fn new(config: AuditConfig) -> (r: WasmResult<Self>)
        ensures
            r matches Ok(l) && l.entries().len() == 0 && l.config() == config,
    {
        Ok(AuditLogger { config, log_entries: Vec::new() })
    }

    fn push_entry(&mut self, entry: AuditLogEntry) -> (flushed: Option<Vec<AuditLogEntry>>)
        ensures
            final(self).config() == old(self).config(),
            appended(old(self).entries(), entry, final(self).entries(), flushed),
    {
        self.log_entries.push(entry);
        if self.log_entries.len() >= AUDIT_FLUSH_THRESHOLD {
            let mut batch: Vec<AuditLogEntry> = Vec::new();
            std::mem::swap(&mut batch, &mut self.log_entries);
            Some(batch)
        } else {
            None
        }
    }

    /// Records a call of `function_name` with `params`, stamped with the
    /// current time. Returns the batch to write when the log fills up.
    pub fn log_function_call(&mut self, function_name: &str, params: &HashMap<String, serde_json::Value>) -> (flushed: Option<Vec<AuditLogEntry>>)
        ensures
            final(self).config() == old(self).config(),
            exists|e: AuditLogEntry| records_call(e, function_name@, params@)
                && #[trigger] appended(old(self).entries(), e, final(self).entries(), flushed),
    {
        let entry = AuditLogEntry {
            timestamp: utc_now_millis(),
            event_type: AuditEventType::FunctionCall,
            details: AuditDetails::FunctionCall { function_name: String::from_str(function_name), parameters: params.clone() },
        };
        let ghost e = entry;
        let r = self.push_entry(entry);
        assert(records_call(e, function_name@, params@));
        r
    }

    /// Records the memory operation `operation` on `size` bytes at `address`,
    /// stamped with the current time. Returns the batch to write when the log
    /// fills up.
    pub fn log_memory_access(&mut self, operation: &str, address: usize, size: usize) -> (flushed: Option<Vec<AuditLogEntry>>)
        ensures
            final(self).config() == old(self).config(),
            exists|e: AuditLogEntry| records_access(e, operation@, address, size)
                && #[trigger] appended(old(self).entries(), e, final(self).entries(), flushed),
    {
        let entry = AuditLogEntry {
            timestamp: utc_now_millis(),
            event_type: AuditEventType::MemoryAccess,
            details: AuditDetails::MemoryAccess { operation: String::from_str(operation), address, size },
        };
        let ghost e = entry;
        let r = self.push_entry(entry);
        assert(records_access(e, operation@, address, size));
        r
    }

    /// The entries not yet flushed.
    pub fn get_log_entries(&self) -> (r: &[AuditLogEntry])
        ensures
            r@ == self.entries(),
    {
        self.log_entries.as_slice()
    }

    /// The configuration.
    pub fn get_config(&self) -> (c: &AuditConfig)
        ensures
            *c == self.config(),
    {
        &self.config
    }
}

/// Runs plugins under a security policy, counting what they use.
#[derive(Debug)]
pub struct WasmSandbox {
    config: SandboxConfig,
    resource_stats: ResourceStats,
    audit_logger: Option<AuditLogger>,
}

impl WasmSandbox {
    /// A logger exists exactly when the configuration asks for an enabled
    /// audit, and it keeps the configuration's flags.
    pub closed spec fn wf(self) -> bool {
        match self.audit_logger {
            Some(l) => self.config.audit_config matches Some(a) && a.enabled && l.config().enabled
                && l.config().log_function_calls == a.log_function_calls
                && l.config().log_memory_access == a.log_memory_access
                && l.config().log_network_access == a.log_network_access,
            None => !(self.config.audit_config matches Some(a) && a.enabled),
        }
    }

    /// The configuration.
    pub closed spec fn config(self) -> SandboxConfig {
        self.config
    }

    /// The resource counters.
    pub closed spec fn stats(self) -> ResourceStats {
        self.resource_stats
    }

    /// The audit log, when there is one.
    pub closed spec fn audit(self) -> Option<AuditLogger> {
        self.audit_logger
    }

    /// A sandbox under `config`, with zeroed counters and an empty audit log
    /// when the configuration enables auditing.
    pub fn new(config: SandboxConfig) -> (r: WasmResult<Self>)
        ensures
            r matches Ok(s) && s.wf() && s.config() == config
                && s.stats().function_call_count == 0
                && s.stats().memory_access_count == 0
                && s.stats().peak_memory_usage == 0
                && s.stats().total_execution_time_ms == 0
                && (s.audit() matches Some(l) ==> l.entries().len() == 0),
    {
        let audit_logger = match &config.audit_config {
            Some(audit_config) => {
                if audit_config.enabled {
                    let a = AuditConfig {
                        enabled: audit_config.enabled,
                        log_file: audit_config.log_file.clone(),
                        log_function_calls: audit_config.log_function_calls,
                        log_memory_access: audit_config.log_memory_access,
                        log_network_access: audit_config.log_network_access,
                    };
                    match AuditLogger::new(a) {
                        Ok(l) => Some(l),
                        Err(e) => return Err(e),
                    }
                } else {
                    None
                }
            },
            None => None,
        };
        Ok(WasmSandbox { config, resource_stats: ResourceStats::default(), audit_logger })
    }

    /// Whether the policy permits `operation`.
    pub fn check_permission(&self, operation: &str) -> (ok: bool)
        ensures
            ok == permitted(self.config().security_policy, operation@),
    {
        let policy = &self.config.security_policy;
        if str_eq(operation, "network") {
            policy.allow_network
        } else if str_eq(operation, "filesystem") {
            policy.allow_filesystem
        } else if str_eq(operation, "env_vars") {
            policy.allow_env_vars
        } else if starts_with_host(operation) {
            let host_func = operation.substring_char(5, operation.unicode_len());
            if contains_str(&policy.denied_host_functions, host_func) {
                return false;
            }
            contains_str(&policy.allowed_host_functions, host_func)
        } else {
            false
        }
    }

    /// Whether `current_usage` bytes stay within the memory limit.
    pub fn check_memory_limit(&self, current_usage: usize) -> (ok: bool)
        ensures
            ok == within_memory_limit(self.config().security_policy, current_usage),
    {
        current_usage <= self.config.security_policy.max_memory_bytes
    }

    /// Whether `elapsed_ms` stays within the time limit.
    pub fn check_execution_time(&self, elapsed_ms: u64) -> (ok: bool)
        ensures
            ok == within_time_limit(self.config().security_policy, elapsed_ms),
    {
        elapsed_ms <= self.config.security_policy.max_execution_time_ms
    }

    /// Counts a call's memory and time when resource monitoring is on.
    pub fn record_resource_usage(&mut self, memory_usage: usize, execution_time_ms: u64)
        requires
            old(self).config().enable_resource_monitoring ==> {
                &&& old(self).stats().total_execution_time_ms + execution_time_ms <= u64::MAX
                &&& old(self).stats().function_call_count < u64::MAX
            },
        ensures
            final(self).wf() == old(self).wf(),
            final(self).config() == old(self).config(),
            final(self).audit() == old(self).audit(),
            old(self).config().enable_resource_monitoring ==> {
                &&& final(self).stats().current_memory_usage == memory_usage
                &&& final(self).stats().total_execution_time_ms == old(self).stats().total_execution_time_ms
                    + execution_time_ms
                &&& final(self).stats().function_call_count == old(self).stats().function_call_count + 1
            },
            !old(self).config().enable_resource_monitoring ==> final(self).stats() == old(self).stats(),
    {
        if self.config.enable_resource_monitoring {
            self.resource_stats.update(memory_usage, execution_time_ms);
        }
    }

    /// Audits a call of `function_name` when the audit log records calls;
    /// returns the batch to write when the log fills up.
    pub fn log_function_call(&mut self, function_name: &str, params: &HashMap<String, serde_json::Value>) -> (flushed: Option<Vec<AuditLogEntry>>)
        requires
            old(self).wf(),
        ensures
            final(self).wf(),
            final(self).config() == old(self).config(),
            final(self).stats() == old(self).stats(),
            match old(self).audit() {
                Some(l) => if l.config().log_function_calls {
                    final(self).audit() matches Some(l2) && exists|e: AuditLogEntry|
                        records_call(e, function_name@, params@)
                            && #[trigger] appended(l.entries(), e, l2.entries(), flushed)
                } else {
                    final(self).audit() == old(self).audit() && flushed is None
                },
                None => final(self).audit() is None && flushed is None,
            },
    {
        match &mut self.audit_logger {
            Some(logger) => {
                if logger.config.log_function_calls {
                    logger.log_function_call(function_name, params)
                } else {
                    None
                }
            },
            None => None,
        }
    }

    /// Audits a memory operation when the audit log records memory access;
    /// returns the batch to write when the log fills up.
    pub fn log_memory_access(&mut self, operation: &str, address: usize, size: usize) -> (flushed: Option<Vec<AuditLogEntry>>)
        requires
            old(self).wf(),
        ensures
            final(self).wf(),
            final(self).config() == old(self).config(),
            final(self).stats() == old(self).stats(),
            match old(self).audit() {
                Some(l) => if l.config().log_memory_access {
                    final(self).audit() matches Some(l2) && exists|e: AuditLogEntry|
                        records_access(e, operation@, address, size)
                            && #[trigger] appended(l.entries(), e, l2.entries(), flushed)
                } else {
                    final(self).audit() == old(self).audit() && flushed is None
                },
                None => final(self).audit() is None && flushed is None,
            },
    {
        match &mut self.audit_logger {
            Some(logger) => {
                if logger.config.log_memory_access {
                    logger.log_memory_access(operation, address, size)
                } else {
                    None
                }
            },
            None => None,
        }
    }

    /// The resource counters.
    pub fn get_resource_stats(&self) -> (s: &ResourceStats)
        ensures
            *s == self.stats(),
    {
        &self.resource_stats
    }

    /// The configuration.
    pub fn get_config(&self) -> (c: &SandboxConfig)
        ensures
            *c == self.config(),
    {
        &self.config
    }

    /// The audit log, when auditing is enabled.
    pub fn get_audit_logger(&self) -> (l: Option<&AuditLogger>)
        ensures
            match l {
                Some(x) => self.audit() == Some(*x),
                None => self.audit() is None,
            },
    {
        match &self.audit_logger {
            Some(l) => Some(l),
            None => None,
        }
    }

    /// Zeroes the resource counters.
    pub fn reset_stats(&mut self)
        ensures
            final(self).wf() == old(self).wf(),
            final(self).config() == old(self).config(),
            final(self).audit() == old(self).audit(),
            final(self).stats().function_call_count == 0,
            final(self).stats().memory_access_count == 0,
            final(self).stats().current_memory_usage == 0,
            final(self).stats().peak_memory_usage == 0,
            final(self).stats().total_execution_time_ms == 0,
    {
        self.resource_stats = ResourceStats::default();
    }
}

} // verus!
