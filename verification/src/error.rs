//! Errors of the enterprise layer: their kinds, codes and classes.

use vstd::prelude::*;

verus! {

/// The severity attached to a security error.
#[derive(Debug, Clone, PartialEq, Eq, Structural)]
pub enum SecurityLevel {
    Low,
    Medium,
    High,
    Critical,
}

/// The label shown for a security level.
pub open spec fn security_level_label(level: SecurityLevel) -> Seq<char> {
    match level {
        SecurityLevel::Low => "低级别"@,
        SecurityLevel::Medium => "中级别"@,
        SecurityLevel::High => "高级别"@,
        SecurityLevel::Critical => "关键级别"@,
    }
}

impl SecurityLevel {
    /// The label shown for this level.
    pub fn to_string(&self) -> (s: String)
        ensures
            s@ == security_level_label(*self),
    {
        match self {
            SecurityLevel::Low => String::from_str("低级别"),
            SecurityLevel::Medium => String::from_str("中级别"),
            SecurityLevel::High => String::from_str("高级别"),
            SecurityLevel::Critical => String::from_str("关键级别"),
        }
    }
}

/// An error of the enterprise layer.
#[derive(Debug, Clone)]
pub enum EnterpriseError {
    StreamProcessing { message: String, code: String },
    DistributedComputing { message: String, node_id: Option<String> },
    Monitoring { message: String, component: String },
    Security { message: String, security_level: SecurityLevel },
    Compliance { message: String, requirement: String },
    Marketplace { message: String, plugin_id: Option<String> },
    ClusterManagement { message: String, cluster_id: String },
    Storage { message: String, storage_type: String },
    Network { message: String, endpoint: Option<String> },
    Configuration { message: String },
    ResourceExhausted { message: String, resource_type: String },
    PermissionDenied { message: String, required_permission: String },
    ServiceUnavailable { message: String, service_name: String },
    Timeout { message: String, timeout_ms: u64 },
    Validation { message: String, field: Option<String> },
    Serialization(String),
    Io(String),
    Other { message: String },
}

/// The result of an enterprise operation.
pub type EnterpriseResult<T> = Result<T, EnterpriseError>;

/// The code that names the kind of an error.
pub open spec fn error_code_of(e: EnterpriseError) -> Seq<char> {
    match e {
        EnterpriseError::StreamProcessing { .. } => "STREAM_PROCESSING"@,
        EnterpriseError::DistributedComputing { .. } => "DISTRIBUTED_COMPUTING"@,
        EnterpriseError::Monitoring { .. } => "MONITORING"@,
        EnterpriseError::Security { .. } => "SECURITY"@,
        EnterpriseError::Compliance { .. } => "COMPLIANCE"@,
        EnterpriseError::Marketplace { .. } => "MARKETPLACE"@,
        EnterpriseError::ClusterManagement { .. } => "CLUSTER_MANAGEMENT"@,
        EnterpriseError::Storage { .. } => "STORAGE"@,
        EnterpriseError::Network { .. } => "NETWORK"@,
        EnterpriseError::Configuration { .. } => "CONFIGURATION"@,
        EnterpriseError::ResourceExhausted { .. } => "RESOURCE_EXHAUSTED"@,
        EnterpriseError::PermissionDenied { .. } => "PERMISSION_DENIED"@,
        EnterpriseError::ServiceUnavailable { .. } => "SERVICE_UNAVAILABLE"@,
        EnterpriseError::Timeout { .. } => "TIMEOUT"@,
        EnterpriseError::Validation { .. } => "VALIDATION"@,
        EnterpriseError::Serialization(_) => "SERIALIZATION"@,
        EnterpriseError::Io(_) => "IO"@,
        EnterpriseError::Other { .. } => "OTHER"@,
    }
}

/// The position of an error's kind among the kinds, in declaration order.
pub open spec fn kind_index(e: EnterpriseError) -> int {
    match e {
        EnterpriseError::StreamProcessing { .. } => 0,
        EnterpriseError::DistributedComputing { .. } => 1,
        EnterpriseError::Monitoring { .. } => 2,
        EnterpriseError::Security { .. } => 3,
        EnterpriseError::Compliance { .. } => 4,
        EnterpriseError::Marketplace { .. } => 5,
        EnterpriseError::ClusterManagement { .. } => 6,
        EnterpriseError::Storage { .. } => 7,
        EnterpriseError::Network { .. } => 8,
        EnterpriseError::Configuration { .. } => 9,
        EnterpriseError::ResourceExhausted { .. } => 10,
        EnterpriseError::PermissionDenied { .. } => 11,
        EnterpriseError::ServiceUnavailable { .. } => 12,
        EnterpriseError::Timeout { .. } => 13,
        EnterpriseError::Validation { .. } => 14,
        EnterpriseError::Serialization(_) => 15,
        EnterpriseError::Io(_) => 16,
        EnterpriseError::Other { .. } => 17,
    }
}

/// The length and first character of an error's code, which tell the
/// codes apart.
spec fn code_key(e: EnterpriseError) -> (nat, char) {
    match e {
        EnterpriseError::StreamProcessing { .. } => (17, 'S'),
        EnterpriseError::DistributedComputing { .. } => (21, 'D'),
        EnterpriseError::Monitoring { .. } => (10, 'M'),
        EnterpriseError::Security { .. } => (8, 'S'),
        EnterpriseError::Compliance { .. } => (10, 'C'),
        EnterpriseError::Marketplace { .. } => (11, 'M'),
        EnterpriseError::ClusterManagement { .. } => (18, 'C'),
        EnterpriseError::Storage { .. } => (7, 'S'),
        EnterpriseError::Network { .. } => (7, 'N'),
        EnterpriseError::Configuration { .. } => (13, 'C'),
        EnterpriseError::ResourceExhausted { .. } => (18, 'R'),
        EnterpriseError::PermissionDenied { .. } => (17, 'P'),
        EnterpriseError::ServiceUnavailable { .. } => (19, 'S'),
        EnterpriseError::Timeout { .. } => (7, 'T'),
        EnterpriseError::Validation { .. } => (10, 'V'),
        EnterpriseError::Serialization(_) => (13, 'S'),
        EnterpriseError::Io(_) => (2, 'I'),
        EnterpriseError::Other { .. } => (5, 'O'),
    }
}

/// The code of an error has the length and first character of its key.
proof fn lemma_code_key(e: EnterpriseError)
    ensures
        error_code_of(e).len() == code_key(e).0,
        error_code_of(e)[0] == code_key(e).1,
{
    match e {
        EnterpriseError::StreamProcessing { .. } => {
            reveal_strlit("STREAM_PROCESSING");
        },
        EnterpriseError::DistributedComputing { .. } => {
            reveal_strlit("DISTRIBUTED_COMPUTING");
        },
        EnterpriseError::Monitoring { .. } => {
            reveal_strlit("MONITORING");
        },
        EnterpriseError::Security { .. } => {
            reveal_strlit("SECURITY");
        },
        EnterpriseError::Compliance { .. } => {
            reveal_strlit("COMPLIANCE");
        },
        EnterpriseError::Marketplace { .. } => {
            reveal_strlit("MARKETPLACE");
        },
        EnterpriseError::ClusterManagement { .. } => {
            reveal_strlit("CLUSTER_MANAGEMENT");
        },
        EnterpriseError::Storage { .. } => {
            reveal_strlit("STORAGE");
        },
        EnterpriseError::Network { .. } => {
            reveal_strlit("NETWORK");
        },
        EnterpriseError::Configuration { .. } => {
            reveal_strlit("CONFIGURATION");
        },
        EnterpriseError::ResourceExhausted { .. } => {
            reveal_strlit("RESOURCE_EXHAUSTED");
        },
        EnterpriseError::PermissionDenied { .. } => {
            reveal_strlit("PERMISSION_DENIED");
        },
        EnterpriseError::ServiceUnavailable { .. } => {
            reveal_strlit("SERVICE_UNAVAILABLE");
        },
        EnterpriseError::Timeout { .. } => {
            reveal_strlit("TIMEOUT");
        },
        EnterpriseError::Validation { .. } => {
            reveal_strlit("VALIDATION");
        },
        EnterpriseError::Serialization(_) => {
            reveal_strlit("SERIALIZATION");
        },
        EnterpriseError::Io(_) => {
            reveal_strlit("IO");
        },
        EnterpriseError::Other { .. } => {
            reveal_strlit("OTHER");
        },
    }
}

/// Two errors share a code exactly when they are of the same kind.
pub proof fn lemma_error_codes_distinct(a: EnterpriseError, b: EnterpriseError)
    ensures
        (error_code_of(a) == error_code_of(b)) <==> (kind_index(a) == kind_index(b)),
{
    lemma_code_key(a);
    lemma_code_key(b);
}

/// Errors worth retrying: those of the network, of an unavailable service,
/// of a timeout and of exhausted resources.
pub open spec fn retryable(e: EnterpriseError) -> bool {
    ||| e is Network
    ||| e is ServiceUnavailable
    ||| e is Timeout
    ||| e is ResourceExhausted
}

/// Errors that concern security: security, permission and compliance errors.
pub open spec fn security_related(e: EnterpriseError) -> bool {
    ||| e is Security
    ||| e is PermissionDenied
    ||| e is Compliance
}

impl EnterpriseError {
    /// A stream processing error.
    pub fn stream_processing(message: &str, code: &str) -> (e: Self)
        ensures
            e matches EnterpriseError::StreamProcessing { message: m, code: c } && m@ == message@
                && c@ == code@,
    {
        EnterpriseError::StreamProcessing { message: String::from_str(message), code: String::from_str(code) }
    }

    /// A distributed computing error.
    pub fn distributed_computing(message: &str, node_id: Option<String>) -> (e: Self)
        ensures
            e matches EnterpriseError::DistributedComputing { message: m, node_id: n } && m@ == message@
                && n == node_id,
    {
        EnterpriseError::DistributedComputing { message: String::from_str(message), node_id }
    }

    /// A monitoring error.
    pub fn monitoring(message: &str, component: &str) -> (e: Self)
        ensures
            e matches EnterpriseError::Monitoring { message: m, component: c } && m@ == message@
                && c@ == component@,
    {
        EnterpriseError::Monitoring { message: String::from_str(message), component: String::from_str(component) }
    }

    /// A security error.
    pub fn security(message: &str, security_level: SecurityLevel) -> (e: Self)
        ensures
            e matches EnterpriseError::Security { message: m, security_level: l } && m@ == message@
                && l == security_level,
    {
        EnterpriseError::Security { message: String::from_str(message), security_level }
    }

    /// A compliance error.
    pub fn compliance(message: &str, requirement: &str) -> (e: Self)
        ensures
            e matches EnterpriseError::Compliance { message: m, requirement: r } && m@ == message@
                && r@ == requirement@,
    {
        EnterpriseError::Compliance { message: String::from_str(message), requirement: String::from_str(requirement) }
    }

    /// A marketplace error.
    pub fn marketplace(message: &str, plugin_id: Option<String>) -> (e: Self)
        ensures
            e matches EnterpriseError::Marketplace { message: m, plugin_id: p } && m@ == message@
                && p == plugin_id,
    {
        EnterpriseError::Marketplace { message: String::from_str(message), plugin_id }
    }

    /// A cluster management error.
    pub fn cluster_management(message: &str, cluster_id: &str) -> (e: Self)
        ensures
            e matches EnterpriseError::ClusterManagement { message: m, cluster_id: c } && m@ == message@
                && c@ == cluster_id@,
    {
        EnterpriseError::ClusterManagement { message: String::from_str(message), cluster_id: String::from_str(cluster_id) }
    }

    /// A storage error.
    pub fn storage(message: &str, storage_type: &str) -> (e: Self)
        ensures
            e matches EnterpriseError::Storage { message: m, storage_type: t } && m@ == message@
                && t@ == storage_type@,
    {
        EnterpriseError::Storage { message: String::from_str(message), storage_type: String::from_str(storage_type) }
    }

    /// A network error.
    pub fn network(message: &str, endpoint: Option<String>) -> (e: Self)
        ensures
            e matches EnterpriseError::Network { message: m, endpoint: p } && m@ == message@
                && p == endpoint,
    {
        EnterpriseError::Network { message: String::from_str(message), endpoint }
    }

    /// A configuration error.
    pub fn configuration(message: &str) -> (e: Self)
        ensures
            e matches EnterpriseError::Configuration { message: m } && m@ == message@,
    {
        EnterpriseError::Configuration { message: String::from_str(message) }
    }

    /// A resource exhaustion error.
    pub fn resource_exhausted(message: &str, resource_type: &str) -> (e: Self)
        ensures
            e matches EnterpriseError::ResourceExhausted { message: m, resource_type: t } && m@ == message@
                && t@ == resource_type@,
    {
        EnterpriseError::ResourceExhausted {
            message: String::from_str(message),
            resource_type: String::from_str(resource_type),
        }
    }

    /// A permission error.
    pub fn permission_denied(message: &str, required_permission: &str) -> (e: Self)
        ensures
            e matches EnterpriseError::PermissionDenied { message: m, required_permission: p } && m@ == message@
                && p@ == required_permission@,
    {
        EnterpriseError::PermissionDenied {
            message: String::from_str(message),
            required_permission: String::from_str(required_permission),
        }
    }

    /// A service availability error.
    pub fn service_unavailable(message: &str, service_name: &str) -> (e: Self)
        ensures
            e matches EnterpriseError::ServiceUnavailable { message: m, service_name: s } && m@ == message@
                && s@ == service_name@,
    {
        EnterpriseError::ServiceUnavailable {
            message: String::from_str(message),
            service_name: String::from_str(service_name),
        }
    }

    /// A timeout error.
    pub fn timeout(message: &str, timeout_ms: u64) -> (e: Self)
        ensures
            e matches EnterpriseError::Timeout { message: m, timeout_ms: t } && m@ == message@
                && t == timeout_ms,
    {
        EnterpriseError::Timeout { message: String::from_str(message), timeout_ms }
    }

    /// A validation error.
    pub fn validation(message: &str, field: Option<String>) -> (e: Self)
        ensures
            e matches EnterpriseError::Validation { message: m, field: f } && m@ == message@ && f == field,
    {
        EnterpriseError::Validation { message: String::from_str(message), field }
    }

    /// An error of another kind.
    pub fn other(message: &str) -> (e: Self)
        ensures
            e matches EnterpriseError::Other { message: m } && m@ == message@,
    {
        EnterpriseError::Other { message: String::from_str(message) }
    }

    /// The code that names the kind of this error.
    pub fn error_code(&self) -> (code: &'static str)
        ensures
            code@ == error_code_of(*self),
    {
        match self {
            EnterpriseError::StreamProcessing { .. } => "STREAM_PROCESSING",
            EnterpriseError::DistributedComputing { .. } => "DISTRIBUTED_COMPUTING",
            EnterpriseError::Monitoring { .. } => "MONITORING",
            EnterpriseError::Security { .. } => "SECURITY",
            EnterpriseError::Compliance { .. } => "COMPLIANCE",
            EnterpriseError::Marketplace { .. } => "MARKETPLACE",
            EnterpriseError::ClusterManagement { .. } => "CLUSTER_MANAGEMENT",
            EnterpriseError::Storage { .. } => "STORAGE",
            EnterpriseError::Network { .. } => "NETWORK",
            EnterpriseError::Configuration { .. } => "CONFIGURATION",
            EnterpriseError::ResourceExhausted { .. } => "RESOURCE_EXHAUSTED",
            EnterpriseError::PermissionDenied { .. } => "PERMISSION_DENIED",
            EnterpriseError::ServiceUnavailable { .. } => "SERVICE_UNAVAILABLE",
            EnterpriseError::Timeout { .. } => "TIMEOUT",
            EnterpriseError::Validation { .. } => "VALIDATION",
            EnterpriseError::Serialization(_) => "SERIALIZATION",
            EnterpriseError::Io(_) => "IO",
            EnterpriseError::Other { .. } => "OTHER",
        }
    }

    /// Whether retrying the failed operation may succeed.
    pub fn is_retryable(&self) -> (r: bool)
        ensures
            r == retryable(*self),
    {
        match self {
            EnterpriseError::Network { .. } => true,
            EnterpriseError::ServiceUnavailable { .. } => true,
            EnterpriseError::Timeout { .. } => true,
            EnterpriseError::ResourceExhausted { .. } => true,
            _ => false,
        }
    }

    /// Whether the error concerns security.
    pub fn is_security_related(&self) -> (r: bool)
        ensures
            r == security_related(*self),
    {
        match self {
            EnterpriseError::Security { .. } => true,
            EnterpriseError::PermissionDenied { .. } => true,
            EnterpriseError::Compliance { .. } => true,
            _ => false,
        }
    }
}

/// No error is both worth retrying and a matter of security, and every
/// error has a code that is not empty.
pub proof fn lemma_error_classes_disjoint(e: EnterpriseError)
    ensures
        !(retryable(e) && security_related(e)),
        error_code_of(e).len() > 0,
{
    reveal_strlit("STREAM_PROCESSING");
    reveal_strlit("DISTRIBUTED_COMPUTING");
    reveal_strlit("MONITORING");
    reveal_strlit("SECURITY");
    reveal_strlit("COMPLIANCE");
    reveal_strlit("MARKETPLACE");
    reveal_strlit("CLUSTER_MANAGEMENT");
    reveal_strlit("STORAGE");
    reveal_strlit("NETWORK");
    reveal_strlit("CONFIGURATION");
    reveal_strlit("RESOURCE_EXHAUSTED");
    reveal_strlit("PERMISSION_DENIED");
    reveal_strlit("SERVICE_UNAVAILABLE");
    reveal_strlit("TIMEOUT");
    reveal_strlit("VALIDATION");
    reveal_strlit("SERIALIZATION");
    reveal_strlit("IO");
    reveal_strlit("OTHER");
}

} // verus!
