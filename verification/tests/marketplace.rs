use dataflare_wasm::marketplace::quality_scorer::{PluginQualityScorer, QualityPoints};
use dataflare_wasm::keyed::KeyedList;
use dataflare_wasm::marketplace::api::MarketplaceAPI;
use dataflare_wasm::marketplace::auth::{AuthService, Permission, UserRole};
use dataflare_wasm::marketplace::instance::{kept_versions, latest_version, publish_result, DataFlareMarketplace, MarketplaceConfig};
use dataflare_wasm::marketplace::is_valid_semver;
use dataflare_wasm::marketplace::license::{
    LicenseManager, LicenseStatus, LicenseType, PricingModel, UsageLimits, UsageRequest, UsageUpdate,
};
use dataflare_wasm::marketplace::payment::{
    BillingCycle, CardType, PaymentMethod, PaymentService, PaymentStatus, SubscriptionPlan, SubscriptionStatus,
};
use dataflare_wasm::marketplace::review::{ReviewService, ReviewTag, VoteType};
use dataflare_wasm::marketplace::security_scanner::PluginSecurityScanner;
use dataflare_wasm::marketplace::types::{
    AuthToken, CompatibilityInfo, Pagination, PluginMetadata, PluginPackage, PluginReview, PluginVersion, SecurityConfig,
    SecurityRating, SecurityFinding,
};
use dataflare_wasm::wasm_error::WasmError;

fn metadata(id: &str, name: &str, description: &str) -> PluginMetadata {
    PluginMetadata {
        id: id.to_string(),
        name: name.to_string(),
        description: description.to_string(),
        author: "author".to_string(),
        author_email: None,
        homepage: None,
        repository: None,
        documentation: None,
        keywords: vec!["data".to_string()],
        categories: vec!["processing".to_string()],
        created_at: 0,
        updated_at: 0,
    }
}

fn version(v: &str) -> PluginVersion {
    PluginVersion {
        version: v.to_string(),
        published_at: 0,
        download_url: String::new(),
        checksum: String::new(),
        file_size: 8,
        compatibility: CompatibilityInfo {
            min_dataflare_version: "0.1.0".to_string(),
            max_dataflare_version: None,
            platforms: vec![],
            architectures: vec![],
        },
        changelog: String::new(),
        prerelease: false,
        deprecated: false,
    }
}

fn package(id: &str, name: &str, description: &str, v: &str, binary: Vec<u8>) -> PluginPackage {
    PluginPackage {
        metadata: metadata(id, name, description),
        version: version(v),
        wasm_binary: binary,
        config_file: None,
        readme: None,
        license_file: None,
        additional_files: KeyedList::new(),
    }
}

fn wasm_header() -> Vec<u8> {
    vec![0x00, 0x61, 0x73, 0x6D, 0x01, 0x00, 0x00, 0x00]
}

fn card() -> PaymentMethod {
    PaymentMethod::CreditCard {
        card_number_encrypted: "encrypted_card_number".to_string(),
        cardholder_name: "John Doe".to_string(),
        expiry_month: 12,
        expiry_year: 2025,
        card_type: CardType::Visa,
    }
}

fn limits(users: Option<u32>, data: Option<u64>, calls: Option<u64>) -> UsageLimits {
    UsageLimits {
        max_users: users,
        max_data_mb: data,
        max_api_calls: calls,
        geographic_restrictions: vec![],
        industry_restrictions: vec![],
    }
}

#[test]
fn test_semver_validation() {
    assert!(is_valid_semver("1.0.0"));
    assert!(is_valid_semver("0.1.0"));
    assert!(is_valid_semver("10.20.30"));
    assert!(!is_valid_semver("1.0"));
    assert!(!is_valid_semver("1.0.0.0"));
    assert!(!is_valid_semver("1.0.a"));
}

#[test]
fn semver_parts_must_fit_in_32_bits() {
    assert!(is_valid_semver("4294967295.0.0"));
    assert!(!is_valid_semver("4294967296.0.0"));
    assert!(is_valid_semver("+1.0.0"));
    assert!(!is_valid_semver("..."));
}

#[test]
fn mod_test_license_management() {
    let mut license_manager = LicenseManager::new();
    let license_type = LicenseType::Commercial {
        name: "Professional".to_string(),
        pricing_model: PricingModel::Subscription {
            monthly_price_cents: 2999,
            yearly_price_cents: Some(29999),
            currency: "USD".to_string(),
        },
        usage_limits: limits(Some(10), Some(1000), Some(10000)),
    };

    let license = license_manager
        .activate_license("test-plugin".to_string(), "user-123".to_string(), license_type)
        .unwrap();

    assert_eq!(license.plugin_id, "test-plugin");
    assert_eq!(license.user_id, "user-123");
    assert!(license.license_key.starts_with("DF-"));

    let usage_request = UsageRequest { data_mb: 100, api_calls: 1000, users: 5 };
    let validation = license_manager.validate_license("test-plugin", "user-123", &usage_request).unwrap();
    assert!(validation.is_valid);
    assert_eq!(validation.message, "许可证有效");
}

#[test]
fn tests_test_license_management() {
    let mut license_manager = LicenseManager::new();
    let commercial_license = LicenseType::Commercial {
        name: "Pro License".to_string(),
        pricing_model: PricingModel::Subscription {
            monthly_price_cents: 2999,
            yearly_price_cents: Some(29999),
            currency: "USD".to_string(),
        },
        usage_limits: limits(Some(10), Some(1000), Some(10000)),
    };
    let license = license_manager
        .activate_license("test-plugin".to_string(), "user-1".to_string(), commercial_license)
        .unwrap();
    assert_eq!(license.plugin_id, "test-plugin");
    assert_eq!(license.user_id, "user-1");
    assert_eq!(license.status, LicenseStatus::Active);

    let usage_request = UsageRequest { data_mb: 100, api_calls: 500, users: 5 };
    let validation = license_manager.validate_license("test-plugin", "user-1", &usage_request).unwrap();
    assert!(validation.is_valid);
    assert_eq!(validation.message, "许可证有效");

    let usage_update = UsageUpdate { data_processed_mb: 100, api_calls: 500, active_users: 5 };
    license_manager.update_usage_stats("test-plugin", "user-1", &usage_update).unwrap();

    let trial_license = LicenseType::Trial { trial_days: 30, feature_limits: vec!["No commercial use".to_string()] };
    let trial = license_manager
        .activate_license("test-plugin-2".to_string(), "user-2".to_string(), trial_license)
        .unwrap();
    assert_eq!(trial.status, LicenseStatus::Active);
    assert!(trial.expires_at.is_some());
}

#[test]
fn license_limits_and_revocation() {
    let mut manager = LicenseManager::new();
    let license = manager
        .activate_license(
            "p".to_string(),
            "u".to_string(),
            LicenseType::Commercial {
                name: "Small".to_string(),
                pricing_model: PricingModel::Free,
                usage_limits: limits(None, Some(100), None),
            },
        )
        .unwrap();
    let too_much = UsageRequest { data_mb: 101, api_calls: 0, users: 1 };
    let refused = manager.validate_license("p", "u", &too_much).unwrap();
    assert!(!refused.is_valid);
    let missing = manager.validate_license("p", "nobody", &too_much).unwrap();
    assert!(!missing.is_valid);
    manager.revoke_license(&license.id).unwrap();
    let fine = UsageRequest { data_mb: 1, api_calls: 0, users: 1 };
    let after = manager.validate_license("p", "u", &fine).unwrap();
    assert!(!after.is_valid);
    assert_eq!(manager.get_user_licenses("u").len(), 1);
}

#[test]
fn test_payment_processing() {
    let mut payment_service = PaymentService::new();
    let payment = payment_service
        .process_payment("user-123".to_string(), "test-plugin".to_string(), 2999, "USD".to_string(), card())
        .unwrap();
    assert_eq!(payment.user_id, "user-123");
    assert_eq!(payment.plugin_id, "test-plugin");
    assert_eq!(payment.amount_cents, 2999);
    assert_eq!(payment.currency, "USD");
    assert_eq!(payment.status, PaymentStatus::Completed);

    let plan = SubscriptionPlan {
        id: "pro-monthly".to_string(),
        name: "Professional Monthly".to_string(),
        monthly_price_cents: 2999,
        yearly_price_cents: Some(29999),
        billing_cycle: BillingCycle::Monthly,
        features: vec!["Advanced Analytics".to_string(), "Priority Support".to_string()],
        usage_limits: limits(Some(10), Some(1000), Some(10000)),
    };
    payment_service.add_subscription_plan(plan).unwrap();

    let subscription = payment_service
        .create_subscription("user-123".to_string(), "test-plugin".to_string(), "pro-monthly".to_string(), card())
        .unwrap();
    assert_eq!(subscription.user_id, "user-123");
    assert_eq!(subscription.plugin_id, "test-plugin");
    assert_eq!(subscription.plan.id, "pro-monthly");
    assert_eq!(subscription.status, SubscriptionStatus::Active);

    assert!(payment_service
        .create_subscription("user-123".to_string(), "test-plugin".to_string(), "missing".to_string(), card())
        .is_err());
}

#[test]
fn refunds_never_exceed_the_payment() {
    let mut payments = PaymentService::new();
    let p = payments.process_payment("u".to_string(), "p".to_string(), 1000, "USD".to_string(), card()).unwrap();
    assert!(payments.process_refund(&p.id, 1001, "too much".to_string()).is_err());
    payments.process_refund(&p.id, 400, "partial".to_string()).unwrap();
    assert!(payments.process_refund(&p.id, 100, "again".to_string()).is_err());
    let q = payments.process_payment("u".to_string(), "p".to_string(), 500, "USD".to_string(), card()).unwrap();
    payments.process_refund(&q.id, 500, "all".to_string()).unwrap();
    assert!(payments.process_refund("missing", 1, "none".to_string()).is_ok());
    let history = payments.get_user_payment_history("u");
    assert_eq!(history.len(), 2);
    assert_eq!(history[0].refunded_amount_cents, 400);
    assert_eq!(history[0].status, PaymentStatus::PartiallyRefunded);
    assert_eq!(history[1].refunded_amount_cents, 500);
    assert_eq!(history[1].status, PaymentStatus::Refunded);
}

#[test]
fn revenue_counts_completed_payments_in_the_period() {
    let mut payments = PaymentService::new();
    for i in 0..5 {
        payments
            .process_payment(format!("user-{}", i), "test-plugin".to_string(), 1000, "USD".to_string(), card())
            .unwrap();
    }
    assert_eq!(payments.period_revenue_cents("test-plugin", i64::MIN, i64::MAX), 5000);
    assert_eq!(payments.period_revenue_cents("other", i64::MIN, i64::MAX), 0);
}

#[test]
fn test_auth_system() {
    let mut auth = AuthService::new("test-secret-key");
    let user = auth
        .register_user("testuser".to_string(), "test@example.com".to_string(), "password123".to_string(), "Test User".to_string())
        .unwrap();
    assert_eq!(user.username, "testuser");
    assert_eq!(user.email, "test@example.com");
    assert_eq!(user.role, UserRole::User);

    match auth.begin_login("testuser") {
        Err(WasmError::PluginExecution(m)) => assert_eq!(m, "账户已被暂停或删除"),
        other => panic!("a new account awaits verification: {:?}", other),
    }
    match auth.begin_login("nobody") {
        Err(WasmError::PluginExecution(m)) => assert_eq!(m, "用户名或密码错误"),
        other => panic!("unexpected {:?}", other),
    }
    let session = auth.open_session(&user.id, "127.0.0.1".to_string(), "test-agent".to_string());
    assert!(!session.is_empty());

    let (api_key, key_info) = auth
        .create_api_key(user.id.clone(), "Test API Key".to_string(), vec![Permission::ReadPlugins, Permission::PublishPlugins], None)
        .unwrap();
    assert!(!api_key.is_empty());
    assert_eq!(key_info.name, "Test API Key");
    assert!(key_info.scopes.contains(&Permission::ReadPlugins));
    assert_ne!(key_info.key_hash, api_key);
    assert_eq!(key_info.key_hash.len(), 64);

    let (verified_user, permissions) = auth.verify_api_key(&api_key).unwrap();
    assert_eq!(verified_user.id, user.id);
    assert!(permissions.contains(&Permission::ReadPlugins));
    assert!(auth.verify_api_key("df_wrong").is_err());

    assert!(auth
        .register_user("testuser".to_string(), "x@example.com".to_string(), "p".to_string(), "X".to_string())
        .is_err());
}

#[test]
fn higher_roles_hold_lower_roles_permissions() {
    let auth = AuthService::new("k");
    let user = auth.get_user_permissions(&UserRole::User);
    let developer = auth.get_user_permissions(&UserRole::Developer);
    let admin = auth.get_user_permissions(&UserRole::Admin);
    let super_admin = auth.get_user_permissions(&UserRole::SuperAdmin);
    for p in &user {
        assert!(developer.contains(p));
    }
    for p in &developer {
        assert!(admin.contains(p));
    }
    for p in &admin {
        assert!(super_admin.contains(p));
    }
    assert!(auth.check_permission(&admin, Permission::DeletePlugins));
    assert!(!auth.check_permission(&admin, Permission::ManageUsers));
    assert!(auth.check_permission(&super_admin, Permission::ManageUsers));
    assert!(!auth.check_permission(&user, Permission::PublishPlugins));
}

#[test]
fn test_review_system() {
    let mut reviews = ReviewService::new();
    let review = reviews
        .submit_review(
            "test-plugin".to_string(),
            "user-1".to_string(),
            "testuser".to_string(),
            5,
            "Great plugin!".to_string(),
            "This plugin works perfectly for my needs.".to_string(),
            Some("1.0.0".to_string()),
            vec![ReviewTag::Performance, ReviewTag::Usability],
        )
        .unwrap();
    assert_eq!(review.plugin_id, "test-plugin");
    assert_eq!(review.rating, 5);
    assert_eq!(review.title, "Great plugin!");

    let (listed, total) = reviews.get_plugin_reviews("test-plugin", None, 0, 10).unwrap();
    assert_eq!(listed.len(), 1);
    assert_eq!(total, 1);
    assert_eq!(listed[0].id, review.id);

    reviews.vote_review(review.id.clone(), "user-2".to_string(), VoteType::Helpful).unwrap();
    let (updated, _) = reviews.get_plugin_reviews("test-plugin", None, 0, 10).unwrap();
    assert_eq!(updated[0].helpful_count, 1);

    let counts = reviews.review_counts("test-plugin", 0);
    assert_eq!(counts.total_reviews, 1);
    assert_eq!(counts.rating_sum, 5);
}

#[test]
fn reviews_are_one_per_user_and_rated_one_to_five() {
    let mut reviews = ReviewService::new();
    let r = |s: &mut ReviewService, user: &str, rating: u8| {
        s.submit_review("p".to_string(), user.to_string(), user.to_string(), rating, "t".to_string(), "c".to_string(), None, vec![])
    };
    assert!(r(&mut reviews, "a", 0).is_err());
    assert!(r(&mut reviews, "a", 6).is_err());
    assert!(r(&mut reviews, "a", 3).is_ok());
    match r(&mut reviews, "a", 4) {
        Err(WasmError::PluginExecution(m)) => assert_eq!(m, "您已经评论过该插件"),
        other => panic!("unexpected {:?}", other),
    }
}

#[test]
fn scanner_rates_a_plain_package_safe() {
    let scanner = PluginSecurityScanner::new(SecurityConfig::default()).unwrap();
    let result = scanner.scan_plugin(&package("clean", "clean", "plain", "1.0.0", wasm_header())).unwrap();
    assert_eq!(result.security_rating, SecurityRating::Safe);
    assert!(result.findings.is_empty());

    let risky = scanner
        .scan_plugin(&package("malicious-lib", "admin tool", "uses http", "1.0.0", vec![1, 2]))
        .unwrap();
    assert!(!risky.findings.is_empty());
    assert!(risky.findings.iter().any(|f| matches!(f, SecurityFinding::Vulnerability { .. })));
}

#[test]
fn marketplace_validates_packages() {
    let market = DataFlareMarketplace::new(MarketplaceConfig::default()).unwrap();
    let ok = market.validate_plugin_package(&package("clean", "clean", "plain", "1.0.0", wasm_header())).unwrap();
    assert!(ok.is_valid);
    assert!(ok.errors.is_empty());

    let bad = market.validate_plugin_package(&package("x", "", "", "1.0", vec![])).unwrap();
    assert!(!bad.is_valid);
    assert_eq!(
        bad.errors,
        vec![
            "插件名称不能为空".to_string(),
            "插件描述不能为空".to_string(),
            "WASM二进制文件不能为空".to_string(),
            "版本号格式无效".to_string()
        ]
    );
}

#[test]
fn publishing_gives_the_download_path() {
    let r = publish_result("demo".to_string(), "1.2.3".to_string(), 7);
    assert_eq!(r.download_url, "/api/plugins/demo/versions/1.2.3/download");
    assert_eq!(r.published_at, 7);
}

#[test]
fn deleting_a_version_keeps_the_others_in_order() {
    let vs = vec![version("1.0.0"), version("1.1.0"), version("1.0.0"), version("2.0.0")];
    let left = kept_versions(&vs, "1.0.0");
    let names: Vec<String> = left.iter().map(|v| v.version.clone()).collect();
    assert_eq!(names, vec!["1.1.0".to_string(), "2.0.0".to_string()]);
    assert_eq!(latest_version(&left), "2.0.0");
    assert_eq!(latest_version(&vec![]), "0.0.0");
}

fn token(expires_at: i64) -> AuthToken {
    AuthToken { token: "t".to_string(), user_id: "u".to_string(), expires_at }
}

#[test]
fn api_checks_tokens() {
    assert!(MarketplaceAPI::validate_auth_token_at(&token(100), 50).is_ok());
    match MarketplaceAPI::validate_auth_token_at(&token(10), 50) {
        Err(WasmError::Runtime(m)) => assert_eq!(m, "认证令牌已过期"),
        other => panic!("unexpected {:?}", other),
    }
    let empty = AuthToken { token: String::new(), user_id: "u".to_string(), expires_at: 100 };
    match MarketplaceAPI::validate_auth_token_at(&empty, 50) {
        Err(WasmError::Runtime(m)) => assert_eq!(m, "无效的认证令牌"),
        other => panic!("unexpected {:?}", other),
    }
}

#[test]
fn api_submits_and_lists_reviews() {
    let market = DataFlareMarketplace::new(MarketplaceConfig::default()).unwrap();
    let mut api = MarketplaceAPI::new(market, Default::default());
    let review = PluginReview {
        id: "ignored".to_string(),
        user_id: "u1".to_string(),
        username: "alice".to_string(),
        rating: 4,
        comment: "works".to_string(),
        created_at: 0,
        verified_purchase: false,
    };
    let expired = api.submit_review_at("p", review.clone(), token(1), 10);
    assert!(!expired.success);
    assert_eq!(expired.error.as_deref(), Some("认证失败: 认证令牌已过期"));

    let ok = api.submit_review_at("p", review.clone(), token(100), 10);
    assert!(ok.success);
    let again = api.submit_review_at("p", review, token(100), 10);
    assert_eq!(again.error.as_deref(), Some("您已经评论过该插件"));

    let listed = api.get_plugin_reviews("p", Pagination { page: 0, page_size: 10 });
    assert!(listed.success);
    let items = listed.data.unwrap();
    assert_eq!(items.len(), 1);
    assert_eq!(items[0].comment, "works");
    assert_eq!(items[0].username, "alice");
}

#[test]
fn api_envelopes() {
    let ok = MarketplaceAPI::success(3);
    assert!(ok.success);
    assert_eq!(ok.data, Some(3));
    let err: dataflare_wasm::marketplace::api::ApiResponse<u8> = MarketplaceAPI::error("nope");
    assert!(!err.success);
    assert_eq!(err.error.as_deref(), Some("nope"));
    let from_err: dataflare_wasm::marketplace::api::ApiResponse<u8> =
        MarketplaceAPI::respond(Err(WasmError::Runtime("down".to_string())), 5);
    assert_eq!(from_err.error.as_deref(), Some("down"));
    assert_eq!(from_err.timestamp, 5);
}

#[test]
fn published_plugins_can_be_read_back_and_downloaded() {
    let mut market = DataFlareMarketplace::new(MarketplaceConfig::default()).unwrap();
    let r = market
        .publish_plugin(package("demo", "Demo", "a demo plugin", "1.0.0", wasm_header()), token(10), 5)
        .unwrap();
    assert_eq!(r.plugin_id, "demo");
    assert_eq!(r.download_url, "/api/plugins/demo/versions/1.0.0/download");
    let details = market.get_plugin_details("demo").unwrap();
    assert_eq!(details.metadata.name, "Demo");
    assert_eq!(details.latest_version, "1.0.0");
    assert_eq!(details.license.license_type, "MIT");
    assert_eq!(details.download_count, 0);
    let versions = market.get_plugin_versions("demo").unwrap();
    assert_eq!(versions.len(), 1);
    let downloaded = market.download_plugin("demo", "1.0.0").unwrap();
    assert_eq!(downloaded.wasm_binary, wasm_header());
    assert_eq!(market.storage.get_plugin("demo").unwrap().download_count, 1);
    assert_eq!(
        market.download_plugin("demo", "9.9.9").unwrap_err(),
        WasmError::PluginExecution("插件包不存在: demo:9.9.9".to_string())
    );
    assert_eq!(
        market.get_plugin_details("nope").unwrap_err(),
        WasmError::PluginExecution("插件不存在: nope".to_string())
    );
}

#[test]
fn publishing_refuses_invalid_and_duplicate_packages() {
    let mut market = DataFlareMarketplace::new(MarketplaceConfig::default()).unwrap();
    let err = market.publish_plugin(package("x", "", "d", "1.0.0", wasm_header()), token(10), 5).unwrap_err();
    assert_eq!(err, WasmError::PluginExecution("插件验证失败: [\"插件名称不能为空\"]".to_string()));
    market.publish_plugin(package("dup", "Dup", "d", "1.0.0", wasm_header()), token(10), 5).unwrap();
    let err = market.publish_plugin(package("dup", "Dup", "d", "1.0.1", wasm_header()), token(10), 6).unwrap_err();
    assert_eq!(err, WasmError::PluginExecution("插件ID dup 已存在".to_string()));
    let err = market.publish_plugin(package("bad id", "B", "d", "1.0.0", wasm_header()), token(10), 6).unwrap_err();
    assert_eq!(err, WasmError::PluginExecution("插件ID只能包含字母、数字、连字符和下划线".to_string()));
}

#[test]
fn updating_and_deleting_versions() {
    let mut market = DataFlareMarketplace::new(MarketplaceConfig::default()).unwrap();
    market.publish_plugin(package("p", "P", "d", "1.0.0", wasm_header()), token(10), 5).unwrap();
    let u = market.update_plugin("p", package("p", "P", "d", "1.1.0", wasm_header()), token(10), 9).unwrap();
    assert_eq!(u.new_version, "1.1.0");
    assert_eq!(u.updated_at, 9);
    let details = market.get_plugin_details("p").unwrap();
    assert_eq!(details.latest_version, "1.1.0");
    assert_eq!(details.metadata.updated_at, 9);
    assert_eq!(
        market.update_plugin("q", package("q", "Q", "d", "1.0.0", wasm_header()), token(10), 9).unwrap_err(),
        WasmError::PluginExecution("插件不存在: q".to_string())
    );
    market.delete_plugin_version("p", "1.0.0", token(10)).unwrap();
    let names: Vec<String> = market.get_plugin_versions("p").unwrap().into_iter().map(|v| v.version).collect();
    assert_eq!(names, vec!["1.1.0".to_string()]);
    assert!(market.storage.get_plugin_package("p", "1.0.0").is_none());
    market.delete_plugin_version("p", "1.1.0", token(10)).unwrap();
    assert!(market.get_plugin_versions("p").is_err());
    assert!(market.storage.get_plugin("p").is_none());
}

#[test]
fn marketplace_stats_and_user_plugins() {
    let mut market = DataFlareMarketplace::new(MarketplaceConfig::default()).unwrap();
    market.publish_plugin(package("a", "A", "d", "1.0.0", wasm_header()), token(10), 5).unwrap();
    market.publish_plugin(package("b", "B", "d", "1.0.0", wasm_header()), token(10), 5).unwrap();
    let stats = market.get_marketplace_stats(0);
    assert_eq!(stats.total_plugins, 2);
    assert_eq!(stats.total_downloads, 0);
    assert_eq!(stats.active_users, 0);
    assert_eq!(stats.new_plugins_this_month, 2);
    assert_eq!(stats.top_categories, vec![("processing".to_string(), 2)]);
    market.storage.save_user_plugin("u1", "b").unwrap();
    market.storage.save_user_plugin("u1", "gone").unwrap();
    market.storage.save_user_plugin("u1", "a").unwrap();
    let listed: Vec<String> = market.get_user_plugins("u1", token(10)).unwrap().into_iter().map(|s| s.id).collect();
    assert_eq!(listed, vec!["b".to_string(), "a".to_string()]);
}

#[test]
fn subscriptions_and_plans_are_listed() {
    let mut payments = PaymentService::new();
    let plan = SubscriptionPlan {
        id: "basic".to_string(),
        name: "Basic".to_string(),
        monthly_price_cents: 500,
        yearly_price_cents: None,
        billing_cycle: BillingCycle::Monthly,
        features: vec![],
        usage_limits: limits(None, None, None),
    };
    payments.add_subscription_plan(plan).unwrap();
    payments.create_subscription("u1".to_string(), "p".to_string(), "basic".to_string(), card()).unwrap();
    payments.create_subscription("u2".to_string(), "p".to_string(), "basic".to_string(), card()).unwrap();
    payments.create_subscription("u1".to_string(), "q".to_string(), "basic".to_string(), card()).unwrap();
    let mine: Vec<String> = payments.get_user_subscriptions("u1").into_iter().map(|s| s.plugin_id).collect();
    assert_eq!(mine, vec!["p".to_string(), "q".to_string()]);
    let plans: Vec<String> = payments.get_subscription_plans("anything").into_iter().map(|p| p.id).collect();
    assert_eq!(plans, vec!["basic".to_string()]);
}

#[test]
fn test_quality_scorer() {
    let scorer = PluginQualityScorer::new().unwrap();
    let mut pkg = package(
        "test-plugin",
        "Test Plugin",
        "A comprehensive test plugin with detailed description",
        "1.0.0",
        b"\0asm\x01\x00\x00\x00test_binary_content".to_vec(),
    );
    pkg.metadata.author = "Test Author".to_string();
    pkg.metadata.author_email = Some("test@example.com".to_string());
    pkg.metadata.homepage = Some("https://example.com".to_string());
    pkg.metadata.repository = Some("https://github.com/test/plugin".to_string());
    pkg.metadata.keywords = vec!["test".to_string(), "performance".to_string()];
    pkg.metadata.categories = vec!["testing".to_string()];
    pkg.version.compatibility.min_dataflare_version = "4.0.0".to_string();
    pkg.version.changelog = "Initial release".to_string();
    pkg.version.file_size = 0;
    pkg.readme = Some("# Test Plugin\n\nThis is a test plugin with comprehensive documentation.".to_string());
    pkg.license_file = Some("MIT License".to_string());

    let points = scorer.component_points(&pkg).unwrap();
    assert_eq!(
        points,
        QualityPoints { code_quality: 100, performance: 100, documentation: 90, test_coverage: 70, security: 100 }
    );
    let components = [
        (points.code_quality, 0.30),
        (points.performance, 0.25),
        (points.documentation, 0.20),
        (points.test_coverage, 0.15),
        (points.security, 0.10),
    ];
    let overall: f64 = components.iter().map(|(p, w)| *p as f64 * w).sum::<f64>()
        / components.iter().map(|(_, w)| w).sum::<f64>();
    assert!(overall > 60.0);
    assert!(overall >= 70.0);
    assert_eq!(components.len(), 5);
}

#[test]
fn quality_points_penalise_what_is_missing() {
    let scorer = PluginQualityScorer::new().unwrap();
    let mut pkg = package("p", "P", "short", "1.0.0", vec![1, 2, 3]);
    pkg.metadata.keywords = vec![];
    pkg.metadata.categories = vec![];
    let points = scorer.component_points(&pkg).unwrap();
    assert_eq!(points.code_quality, 85);
    assert_eq!(points.performance, 100);
    assert_eq!(points.documentation, 0);
    assert_eq!(points.test_coverage, 50);
    assert_eq!(points.security, 50);
    pkg.wasm_binary = vec![0u8; 1024 * 1024 + 1];
    pkg.metadata.keywords = vec!["tested".to_string()];
    pkg.metadata.description = "Runs its own TESTS".to_string();
    let points = scorer.component_points(&pkg).unwrap();
    assert_eq!(points.performance, 75);
    assert_eq!(points.test_coverage, 100);
    assert_eq!(points.security, 70);
    assert_eq!(points.code_quality, 80);
}

#[test]
fn user_licenses_come_in_activation_order() {
    let mut licenses = LicenseManager::new();
    licenses.activate_license("p1".to_string(), "u".to_string(), LicenseType::Trial { trial_days: 30, feature_limits: vec![] }).unwrap();
    licenses.activate_license("p2".to_string(), "u".to_string(), LicenseType::Trial { trial_days: 30, feature_limits: vec![] }).unwrap();
    licenses.activate_license("p3".to_string(), "v".to_string(), LicenseType::Trial { trial_days: 30, feature_limits: vec![] }).unwrap();
    let mine: Vec<String> = licenses.get_user_licenses("u").into_iter().map(|l| l.plugin_id).collect();
    assert_eq!(mine, vec!["p1".to_string(), "p2".to_string()]);
    assert!(licenses.get_user_licenses("nobody").is_empty());
}
