use dataflare_wasm::error::{EnterpriseError, SecurityLevel};

#[test]
fn test_enterprise_error_creation() {
    let error = EnterpriseError::stream_processing("测试错误", "TEST_001");
    assert_eq!(error.error_code(), "STREAM_PROCESSING");
    assert!(!error.is_retryable());
    assert!(!error.is_security_related());
}

#[test]
fn test_security_error() {
    let error = EnterpriseError::security("权限不足", SecurityLevel::High);
    assert!(error.is_security_related());
    assert_eq!(error.error_code(), "SECURITY");
}

#[test]
fn test_retryable_error() {
    let error = EnterpriseError::network("网络超时", Some("http://example.com".to_string()));
    assert!(error.is_retryable());
}

#[test]
fn test_security_level_display() {
    assert_eq!(SecurityLevel::Low.to_string(), "低级别");
    assert_eq!(SecurityLevel::Medium.to_string(), "中级别");
    assert_eq!(SecurityLevel::High.to_string(), "高级别");
    assert_eq!(SecurityLevel::Critical.to_string(), "关键级别");
}

#[test]
fn error_codes_of_each_kind() {
    assert_eq!(EnterpriseError::configuration("c").error_code(), "CONFIGURATION");
    assert_eq!(EnterpriseError::timeout("t", 10).error_code(), "TIMEOUT");
    assert!(EnterpriseError::timeout("t", 10).is_retryable());
    assert!(EnterpriseError::permission_denied("p", "admin").is_security_related());
    assert!(!EnterpriseError::permission_denied("p", "admin").is_retryable());
}
