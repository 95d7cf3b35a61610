//! The marketplace's own services, built from one configuration, and the
//! checks and bookkeeping of publishing: package validation, the result of a
//! publication, and what deleting a version leaves.

use vstd::prelude::*;
use crate::marketplace::auth::{AuthService, UserView};
use crate::marketplace::license::{LicenseManager, LicenseView};
use crate::marketplace::payment::{PaymentService, PaymentView, PlanView, SubscriptionView};
use crate::marketplace::quality_scorer::PluginQualityScorer;
use crate::marketplace::registry::{
    category_total, copy_entry, created_since, download_total, latest_version_of, metadata_problem, same_entry, summarize,
    summarizes, top_named, pair_views, PluginRegistry, PluginSummary, RegistryEntry,
};
use crate::marketplace::review::{ReviewService, ReviewView};
use crate::marketplace::search::{postings, PluginSearchEngine};
use crate::marketplace::security_scanner::{
    lemma_rating_by_views, lemma_view_rating_critical, rating_of, rating_of_views, static_findings, view_findings, wasm_magic,
    FindingView, PluginSecurityScanner,
};
use crate::marketplace::storage::{spec_package_key, MemoryStorage};
use crate::marketplace::types::{
    copy_metadata, copy_package, copy_version, copy_versions, same_metadata, same_package, same_version, same_versions, ApiConfig, AuthToken, LicenseInfo,
    PluginPackage, PluginVersion, PublishResult, PublishStatus, RecommendationConfig, UpdateResult, SearchConfig, SecurityConfig,
    SecurityFinding, SecurityRating, SecuritySeverity, StorageConfig, StorageType,
};
use crate::marketplace::{is_valid_semver, spec_is_valid_semver};
use crate::text::{concat, copy_option_string, debug_strings, debug_text_of_strings, owned, string_views};
use crate::wasm_error::{WasmError, WasmResult};

verus! {

/// The configuration of every part of the marketplace.
#[derive(Debug, Clone)]
pub struct MarketplaceConfig {
    pub storage_config: StorageConfig,
    pub security_config: SecurityConfig,
    pub search_config: SearchConfig,
    pub recommendation_config: RecommendationConfig,
    pub api_config: ApiConfig,
}

impl Default for MarketplaceConfig {
    /// Each part with its own defaults.
    fn default() -> (c: Self)
        ensures
            c.storage_config.storage_type == StorageType::Memory,
            c.storage_config.connection_string@ == "memory://"@,
            c.storage_config.max_connections == 10,
            c.security_config == (SecurityConfig {
                enable_vulnerability_scanning: true,
                enable_malware_detection: true,
                max_scan_time_seconds: 300,
            }),
            c.search_config == (SearchConfig { max_results_per_page: 50, enable_fuzzy_search: true, search_timeout_ms: 5000 }),
            c.recommendation_config == (RecommendationConfig {
                enable_collaborative_filtering: true,
                enable_content_based: true,
                max_recommendations: 10,
            }),
            c.api_config.rate_limit_per_minute == 100,
            c.api_config.enable_authentication,
            string_views(c.api_config.cors_origins@) == seq!["*"@],
    {
        MarketplaceConfig {
            storage_config: StorageConfig::default(),
            security_config: SecurityConfig::default(),
            search_config: SearchConfig::default(),
            recommendation_config: RecommendationConfig::default(),
            api_config: ApiConfig::default(),
        }
    }
}

/// What validating a package found.
#[derive(Debug, Clone)]
pub struct ValidationResult {
    pub is_valid: bool,
    pub errors: Vec<String>,
    pub warnings: Vec<String>,
    pub security_findings: Vec<SecurityFinding>,
    pub security_rating: SecurityRating,
}

impl ValidationResult {
    /// A valid result with nothing found, rated safe.
    pub fn new() -> (v: Self)
        ensures
            v.is_valid,
            v.errors@.len() == 0,
            v.warnings@.len() == 0,
            v.security_findings@.len() == 0,
            v.security_rating == SecurityRating::Safe,
    {
        ValidationResult {
            is_valid: true,
            errors: Vec::new(),
            warnings: Vec::new(),
            security_findings: Vec::new(),
            security_rating: SecurityRating::Safe,
        }
    }
}

/// The basic errors of a package, in the order they are checked: an empty
/// name, an empty description, an empty binary, an invalid version.
pub open spec fn package_errors(p: PluginPackage) -> Seq<Seq<char>> {
    (if p.metadata.name@.len() == 0 { seq!["插件名称不能为空"@] } else { Seq::empty() })
        + (if p.metadata.description@.len() == 0 { seq!["插件描述不能为空"@] } else { Seq::empty() })
        + (if p.wasm_binary@.len() == 0 { seq!["WASM二进制文件不能为空"@] } else { Seq::empty() })
        + (if !spec_is_valid_semver(p.version.version@) { seq!["版本号格式无效"@] } else { Seq::empty() })
}

/// The marketplace's services that live in memory: search, security
/// scanning, quality scoring, accounts, reviews, licences and payments,
/// the plugin registry and the store it writes through to.
pub struct DataFlareMarketplace {
    pub registry: PluginRegistry,
    pub storage: MemoryStorage,
    pub search_engine: PluginSearchEngine,
    pub security_scanner: PluginSecurityScanner,
    pub quality_scorer: PluginQualityScorer,
    pub auth_service: AuthService,
    pub review_service: ReviewService,
    pub license_manager: LicenseManager,
    pub payment_service: PaymentService,
    pub config: MarketplaceConfig,
}

/// The signing secret of the account service.
pub open spec fn jwt_secret() -> Seq<char> {
    "your-jwt-secret-key"@
}

impl DataFlareMarketplace {
    /// Every service well formed.
    pub open spec fn wf(self) -> bool {
        &&& self.registry.wf()
        &&& self.storage.wf()
        &&& self.search_engine.wf()
        &&& self.auth_service.wf()
        &&& self.review_service.wf()
        &&& self.license_manager.wf()
        &&& self.payment_service.wf()
    }

    /// The rating the security scan gives `p`.
    pub open spec fn package_rating(self, p: PluginPackage) -> SecurityRating {
        rating_of_views(self.security_scanner.spec_scan_findings(p))
    }

    /// Whether `p` passes validation: no basic error, and not rated
    /// critical.
    pub open spec fn package_accepted(self, p: PluginPackage) -> bool {
        package_errors(p).len() == 0 && self.package_rating(p) != SecurityRating::Critical
    }

    /// The services, each empty, configured from `config`.
    pub fn new(config: MarketplaceConfig) -> (r: WasmResult<Self>)
        ensures
            r matches Ok(m) && m.wf() && m.config == config
                && m.registry.entries() == Map::<Seq<char>, RegistryEntry>::empty()
                && m.storage.plugins() == Map::<Seq<char>, RegistryEntry>::empty()
                && m.storage.packages() == Map::<Seq<char>, PluginPackage>::empty() && m.search_engine.config() == config.search_config
                && postings(m.search_engine.indices().name_index) == Map::<Seq<char>, Seq<Seq<char>>>::empty()
                && m.security_scanner.config() == config.security_config
                && m.auth_service.users() == Map::<Seq<char>, UserView>::empty()
                && m.review_service.reviews() == Map::<Seq<char>, ReviewView>::empty()
                && m.license_manager.licenses() == Map::<Seq<char>, LicenseView>::empty()
                && m.payment_service.payments() == Map::<Seq<char>, PaymentView>::empty()
                && m.payment_service.subscriptions() == Map::<Seq<char>, SubscriptionView>::empty()
                && m.payment_service.plans() == Map::<Seq<char>, PlanView>::empty(),
    {
        let search_engine = match PluginSearchEngine::new(config.search_config) {
            Ok(e) => e,
            Err(e) => return Err(e),
        };
        let security_scanner = match PluginSecurityScanner::new(config.security_config) {
            Ok(s) => s,
            Err(e) => return Err(e),
        };
        let quality_scorer = match PluginQualityScorer::new() {
            Ok(q) => q,
            Err(e) => return Err(e),
        };
        let auth_service = AuthService::new("your-jwt-secret-key");
        let review_service = ReviewService::new();
        let license_manager = LicenseManager::new();
        let payment_service = PaymentService::new();
        Ok(DataFlareMarketplace {
            registry: PluginRegistry::new(),
            storage: MemoryStorage::new(),
            search_engine,
            security_scanner,
            quality_scorer,
            auth_service,
            review_service,
            license_manager,
            payment_service,
            config,
        })
    }

    /// Validates a package: its security scan, then its basic errors. It is
    /// valid when it has no error and is not rated critical.
    pub fn validate_plugin_package(&self, package: &PluginPackage) -> (r: WasmResult<ValidationResult>)
        ensures
            r matches Ok(v) && view_findings(v.security_findings@) == self.security_scanner.spec_scan_findings(*package)
                && v.security_rating == rating_of(v.security_findings@)
                && string_views(v.errors@) == package_errors(*package)
                && v.warnings@.len() == 0
                && v.is_valid == (package_errors(*package).len() == 0 && v.security_rating != SecurityRating::Critical)
                && v.security_rating == self.package_rating(*package)
                && v.is_valid == self.package_accepted(*package),
    {
        let mut result = ValidationResult::new();
        let scan = match self.security_scanner.scan_plugin(package) {
            Ok(s) => s,
            Err(e) => return Err(e),
        };
        proof {
            lemma_rating_by_views(scan.findings@);
        }
        result.security_findings = scan.findings;
        result.security_rating = scan.security_rating;
        let ghost e0 = package_errors(*package);
        if package.metadata.name.as_str().unicode_len() == 0 {
            result.errors.push(String::from_str("插件名称不能为空"));
        }
        if package.metadata.description.as_str().unicode_len() == 0 {
            result.errors.push(String::from_str("插件描述不能为空"));
        }
        if package.wasm_binary.len() == 0 {
            result.errors.push(String::from_str("WASM二进制文件不能为空"));
        }
        if !is_valid_semver(package.version.version.as_str()) {
            result.errors.push(String::from_str("版本号格式无效"));
        }
        assert(string_views(result.errors@) =~= e0);
        result.is_valid = result.errors.len() == 0 && result.security_rating != SecurityRating::Critical;
        Ok(result)
    }
}

/// A package whose scan has a finding of critical severity is rated
/// critical and refused.
pub proof fn lemma_critical_package_refused(m: DataFlareMarketplace, p: PluginPackage, i: int)
    requires
        0 <= i < m.security_scanner.spec_scan_findings(p).len(),
        (match m.security_scanner.spec_scan_findings(p)[i] {
            FindingView::DangerousImport { severity, .. } => severity,
            FindingView::UnexpectedExport { severity, .. } => severity,
            FindingView::Vulnerability { severity, .. } => severity,
            FindingView::PermissionAbuse { severity, .. } => severity,
            FindingView::MaliciousCode { severity, .. } => severity,
        }) == SecuritySeverity::Critical,
    ensures
        m.package_rating(p) == SecurityRating::Critical,
        !m.package_accepted(p),
{
    lemma_view_rating_critical(m.security_scanner.spec_scan_findings(p), i);
}

/// With vulnerability scanning on, a package whose module has at least
/// four bytes and does not start with the WebAssembly magic number is
/// rated critical and refused.
pub proof fn lemma_bad_magic_refused(m: DataFlareMarketplace, p: PluginPackage)
    requires
        m.security_scanner.config().enable_vulnerability_scanning,
        p.wasm_binary@.len() >= 4,
        p.wasm_binary@.subrange(0, 4) != wasm_magic(),
    ensures
        m.package_rating(p) == SecurityRating::Critical,
        !m.package_accepted(p),
{
    let a = static_findings(p.wasm_binary@);
    let fs = m.security_scanner.spec_scan_findings(p);
    let k = a.len() - 1;
    assert(a[k] is MaliciousCode && a[k]->MaliciousCode_severity == SecuritySeverity::Critical);
    assert(fs[k] == a[k]);
    lemma_critical_package_refused(m, p, k);
}

/// Whether `e` is the registration that publishing `p`, rated `rating`,
/// makes: its description and its one version, nothing counted, under the
/// MIT licence with the package's licence text, published.
pub open spec fn published_entry(e: RegistryEntry, p: PluginPackage, rating: SecurityRating) -> bool {
    &&& same_metadata(e.metadata, p.metadata)
    &&& e.versions@.len() == 1
    &&& same_version(e.versions@[0], p.version)
    &&& e.download_count == 0
    &&& e.active_installs == 0
    &&& e.review_count == 0
    &&& e.rating == 0
    &&& e.security_rating == rating
    &&& e.license.license_type@ == "MIT"@
    &&& e.license.license_text == p.license_file
    &&& e.license.is_open_source
    &&& e.license.allows_commercial_use
    &&& e.dependencies@.len() == 0
    &&& e.status == PublishStatus::Published
}

/// Whether `e` is the registration `old` becomes when `p`, rated `rating`,
/// is added to it at `now`: the new version last, the description updated
/// at `now`, the new rating, all else kept.
pub open spec fn updated_entry(e: RegistryEntry, old: RegistryEntry, p: PluginPackage, rating: SecurityRating, now: i64) -> bool {
    &&& same_metadata(e.metadata, old.metadata.set_updated(now))
    &&& e.versions@.len() == old.versions@.len() + 1
    &&& same_versions(e.versions@.drop_last(), old.versions@)
    &&& same_version(e.versions@.last(), p.version)
    &&& e.download_count == old.download_count
    &&& e.active_installs == old.active_installs
    &&& e.review_count == old.review_count
    &&& e.rating == old.rating
    &&& e.security_rating == rating
    &&& e.license == old.license
    &&& e.dependencies@ == old.dependencies@
    &&& e.status == old.status
}

/// Whether `e` is `old` with only the versions other than `version` kept.
pub open spec fn trimmed_entry(e: RegistryEntry, old: RegistryEntry, version: Seq<char>) -> bool {
    &&& same_metadata(e.metadata, old.metadata)
    &&& same_versions(e.versions@, old.versions@.filter(other_version(version)))
    &&& e.download_count == old.download_count
    &&& e.active_installs == old.active_installs
    &&& e.review_count == old.review_count
    &&& e.rating == old.rating
    &&& e.security_rating == old.security_rating
    &&& e.license == old.license
    &&& e.dependencies@ == old.dependencies@
    &&& e.status == old.status
}

/// The message of a package that fails validation.
pub open spec fn validation_message(p: PluginPackage) -> Seq<char> {
    "插件验证失败: "@ + debug_text_of_strings(package_errors(p))
}

/// Copies of the versions other than `version`, in order.
pub fn kept_versions(versions: &Vec<PluginVersion>, version: &str) -> (r: Vec<PluginVersion>)
    ensures
        same_versions(r@, versions@.filter(other_version(version@))),
{
    let ghost pred = other_version(version@);
    let mut out: Vec<PluginVersion> = Vec::new();
    let mut i: usize = 0;
    while i < versions.len()
        invariant
            i <= versions@.len(),
            pred == other_version(version@),
            same_versions(out@, versions@.subrange(0, i as int).filter(pred)),
        decreases versions.len() - i,
    {
        proof {
            crate::seqs::lemma_filter_push(versions@.subrange(0, i as int), pred, versions@[i as int]);
            assert(versions@.subrange(0, i as int).push(versions@[i as int]) =~= versions@.subrange(0, i + 1));
        }
        if !crate::text::str_eq(versions[i].version.as_str(), version) {
            let ghost before = out@;
            out.push(copy_version(&versions[i]));
            assert(out@.drop_last() == before);
        }
        i = i + 1;
    }
    assert(versions@.subrange(0, versions@.len() as int) =~= versions@);
    out
}

impl DataFlareMarketplace {
    /// Publishes `package` at `now`: refused when it fails validation, when
    /// its identifier is taken, or when its description fails the registry's
    /// check; else registered, written through to the store, and its package
    /// kept for download.
    pub fn publish_plugin(&mut self, package: PluginPackage, auth: AuthToken, now: i64) -> (r: WasmResult<PublishResult>)
        requires
            old(self).wf(),
        ensures
            final(self).wf(),
            !old(self).package_accepted(package) ==> (r matches Err(WasmError::PluginExecution(m)) && m@
                == validation_message(package) && final(self).registry.entries() == old(self).registry.entries()
                && final(self).storage.plugins() == old(self).storage.plugins() && final(self).storage.packages() == old(self).storage.packages()),
            old(self).package_accepted(package) && old(self).registry.entries().contains_key(package.metadata.id@)
                ==> (r matches Err(WasmError::PluginExecution(m)) && m@ == "插件ID "@ + package.metadata.id@ + " 已存在"@
                && final(self).registry.entries() == old(self).registry.entries()
                && final(self).storage.plugins() == old(self).storage.plugins() && final(self).storage.packages() == old(self).storage.packages()),
            old(self).package_accepted(package) && !old(self).registry.entries().contains_key(package.metadata.id@)
                && metadata_problem(package.metadata) is Some ==> (r matches Err(WasmError::PluginExecution(m)) && Some(m@)
                == metadata_problem(package.metadata) && final(self).registry.entries() == old(self).registry.entries()
                && final(self).storage.plugins() == old(self).storage.plugins() && final(self).storage.packages() == old(self).storage.packages()),
            old(self).package_accepted(package) && !old(self).registry.entries().contains_key(package.metadata.id@)
                && metadata_problem(package.metadata) is None ==> {
                &&& r matches Ok(res) && res.plugin_id@ == package.metadata.id@ && res.version@ == package.version.version@
                    && res.published_at == now && res.download_url@ == download_path(package.metadata.id@, package.version.version@)
                &&& final(self).registry.entries().dom() == old(self).registry.entries().dom().insert(package.metadata.id@)
                &&& published_entry(final(self).registry.entries()[package.metadata.id@], package, old(self).package_rating(package))
                &&& forall|k: Seq<char>| k != package.metadata.id@ && #[trigger] old(self).registry.entries().contains_key(k)
                    ==> final(self).registry.entries()[k] == old(self).registry.entries()[k]
                &&& final(self).storage.plugins().dom() == old(self).storage.plugins().dom().insert(package.metadata.id@)
                &&& same_entry(final(self).storage.plugins()[package.metadata.id@], final(self).registry.entries()[package.metadata.id@])
                &&& forall|k: Seq<char>| k != package.metadata.id@ && #[trigger] old(self).storage.plugins().contains_key(k)
                    ==> final(self).storage.plugins()[k] == old(self).storage.plugins()[k]
                &&& final(self).storage.packages() == old(self).storage.packages().insert(
                    spec_package_key(package.metadata.id@, package.version.version@),
                    package,
                )
            },
    {
        let validation = match self.validate_plugin_package(&package) {
            Ok(v) => v,
            Err(e) => return Err(e),
        };
        if !validation.is_valid {
            let text = debug_strings(&validation.errors);
            return Err(WasmError::PluginExecution(concat("插件验证失败: ", text.as_str())));
        }
        let mut versions: Vec<PluginVersion> = Vec::new();
        versions.push(copy_version(&package.version));
        let entry = RegistryEntry {
            metadata: copy_metadata(&package.metadata),
            versions,
            download_count: 0,
            active_installs: 0,
            review_count: 0,
            rating: 0,
            security_rating: validation.security_rating,
            license: LicenseInfo {
                license_type: String::from_str("MIT"),
                license_text: copy_option_string(&package.license_file),
                is_open_source: true,
                allows_commercial_use: true,
            },
            dependencies: Vec::new(),
            status: PublishStatus::Published,
        };
        proof {
            reveal_strlit("MIT");
        }
        let stored = copy_entry(&entry);
        let ghost e = entry;
        match self.registry.register_plugin(entry) {
            Err(err) => return Err(err),
            Ok(_) => {},
        }
        let _ = self.storage.save_plugin(stored);
        let plugin_id = package.metadata.id.clone();
        let version = package.version.version.clone();
        let _ = self.storage.save_plugin_package(plugin_id.as_str(), version.as_str(), package);
        Ok(publish_result(plugin_id, version, now))
    }

    /// Adds the version in `package` to the registered plugin `plugin_id` at
    /// `now`: refused when the package fails validation, when no such plugin
    /// is registered, or when its description fails the registry's check;
    /// else the registration is updated and written through to the store,
    /// and the package kept for download.
    pub fn update_plugin(&mut self, plugin_id: &str, package: PluginPackage, auth: AuthToken, now: i64) -> (r: WasmResult<UpdateResult>)
        requires
            old(self).wf(),
        ensures
            final(self).wf(),
            !old(self).package_accepted(package) ==> (r matches Err(WasmError::PluginExecution(m)) && m@
                == validation_message(package) && final(self).registry.entries() == old(self).registry.entries()
                && final(self).storage.plugins() == old(self).storage.plugins() && final(self).storage.packages() == old(self).storage.packages()),
            old(self).package_accepted(package) && !old(self).registry.entries().contains_key(plugin_id@) ==> (r matches Err(
                WasmError::PluginExecution(m),
            ) && m@ == "插件不存在: "@ + plugin_id@ && final(self).registry.entries() == old(self).registry.entries()
                && final(self).storage.plugins() == old(self).storage.plugins() && final(self).storage.packages() == old(self).storage.packages()),
            old(self).package_accepted(package) && old(self).registry.entries().contains_key(plugin_id@) && metadata_problem(
                old(self).registry.entries()[plugin_id@].metadata,
            ) is Some ==> (r matches Err(WasmError::PluginExecution(m)) && Some(m@) == metadata_problem(
                old(self).registry.entries()[plugin_id@].metadata,
            ) && final(self).registry.entries() == old(self).registry.entries()
                && final(self).storage.plugins() == old(self).storage.plugins() && final(self).storage.packages() == old(self).storage.packages()),
            old(self).package_accepted(package) && old(self).registry.entries().contains_key(plugin_id@) && metadata_problem(
                old(self).registry.entries()[plugin_id@].metadata,
            ) is None ==> {
                &&& r matches Ok(res) && res.plugin_id@ == plugin_id@ && res.new_version@ == package.version.version@
                    && res.updated_at == now
                &&& final(self).registry.entries().dom() == old(self).registry.entries().dom()
                &&& updated_entry(
                    final(self).registry.entries()[plugin_id@],
                    old(self).registry.entries()[plugin_id@],
                    package,
                    old(self).package_rating(package),
                    now,
                )
                &&& forall|k: Seq<char>| k != plugin_id@ && #[trigger] old(self).registry.entries().contains_key(k)
                    ==> final(self).registry.entries()[k] == old(self).registry.entries()[k]
                &&& final(self).storage.plugins().dom() == old(self).storage.plugins().dom().insert(
                    final(self).registry.entries()[plugin_id@].metadata.id@,
                )
                &&& same_entry(
                    final(self).storage.plugins()[final(self).registry.entries()[plugin_id@].metadata.id@],
                    final(self).registry.entries()[plugin_id@],
                )
                &&& forall|k: Seq<char>| k != final(self).registry.entries()[plugin_id@].metadata.id@ && #[trigger] old(self).storage.plugins().contains_key(k) ==> final(self).storage.plugins()[k] == old(self).storage.plugins()[k]
                &&& final(self).storage.packages() == old(self).storage.packages().insert(
                    spec_package_key(plugin_id@, package.version.version@),
                    package,
                )
            },
    {
        let validation = match self.validate_plugin_package(&package) {
            Ok(v) => v,
            Err(e) => return Err(e),
        };
        if !validation.is_valid {
            let text = debug_strings(&validation.errors);
            return Err(WasmError::PluginExecution(concat("插件验证失败: ", text.as_str())));
        }
        let mut entry = match self.registry.get_plugin(plugin_id) {
            Some(e) => copy_entry(e),
            None => return Err(WasmError::PluginExecution(concat("插件不存在: ", plugin_id))),
        };
        let ghost before = entry;
        entry.versions.push(copy_version(&package.version));
        entry.metadata.updated_at = now;
        entry.security_rating = validation.security_rating;
        assert(entry.versions@.drop_last() == before.versions@);
        let stored = copy_entry(&entry);
        match self.registry.update_plugin(plugin_id, entry) {
            Err(err) => return Err(err),
            Ok(_) => {},
        }
        let _ = self.storage.save_plugin(stored);
        let version = package.version.version.clone();
        let _ = self.storage.save_plugin_package(plugin_id, version.as_str(), package);
        Ok(UpdateResult { plugin_id: owned(plugin_id), new_version: version, updated_at: now })
    }

    /// Deletes `version` of `plugin_id`: its package is forgotten, and the
    /// registration keeps the other versions, or goes with the last one.
    /// Refused when the registration left fails the registry's check.
    pub fn delete_plugin_version(&mut self, plugin_id: &str, version: &str, auth: AuthToken) -> (r: WasmResult<()>)
        requires
            old(self).wf(),
        ensures
            final(self).wf(),
            final(self).storage.packages() == old(self).storage.packages().remove(spec_package_key(plugin_id@, version@)),
            !old(self).registry.entries().contains_key(plugin_id@) ==> r is Ok && final(self).registry.entries() == old(self).registry.entries() && final(self).storage.plugins() == old(self).storage.plugins(),
            old(self).registry.entries().contains_key(plugin_id@) && old(self).registry.entries()[plugin_id@].versions@.filter(
                other_version(version@),
            ).len() == 0 ==> r is Ok && final(self).registry.entries() == old(self).registry.entries().remove(plugin_id@)
                && final(self).storage.plugins() == old(self).storage.plugins().remove(plugin_id@),
            old(self).registry.entries().contains_key(plugin_id@) && old(self).registry.entries()[plugin_id@].versions@.filter(
                other_version(version@),
            ).len() > 0 && metadata_problem(old(self).registry.entries()[plugin_id@].metadata) is Some ==> (r matches Err(
                WasmError::PluginExecution(m),
            ) && Some(m@) == metadata_problem(old(self).registry.entries()[plugin_id@].metadata)
                && final(self).registry.entries() == old(self).registry.entries()
                && final(self).storage.plugins() == old(self).storage.plugins()),
            old(self).registry.entries().contains_key(plugin_id@) && old(self).registry.entries()[plugin_id@].versions@.filter(
                other_version(version@),
            ).len() > 0 && metadata_problem(old(self).registry.entries()[plugin_id@].metadata) is None ==> {
                &&& r is Ok
                &&& final(self).registry.entries().dom() == old(self).registry.entries().dom()
                &&& trimmed_entry(final(self).registry.entries()[plugin_id@], old(self).registry.entries()[plugin_id@], version@)
                &&& forall|k: Seq<char>| k != plugin_id@ && #[trigger] old(self).registry.entries().contains_key(k)
                    ==> final(self).registry.entries()[k] == old(self).registry.entries()[k]
                &&& final(self).storage.plugins().dom() == old(self).storage.plugins().dom().insert(
                    final(self).registry.entries()[plugin_id@].metadata.id@,
                )
                &&& same_entry(
                    final(self).storage.plugins()[final(self).registry.entries()[plugin_id@].metadata.id@],
                    final(self).registry.entries()[plugin_id@],
                )
            },
    {
        let _ = self.storage.delete_plugin_package(plugin_id, version);
        let (kept, entry) = match self.registry.get_plugin(plugin_id) {
            None => return Ok(()),
            Some(e) => (kept_versions(&e.versions, version), copy_entry(e)),
        };
        if kept.len() == 0 {
            let _ = self.registry.delete_plugin(plugin_id);
            let _ = self.storage.delete_plugin(plugin_id);
            return Ok(());
        }
        let mut entry = entry;
        entry.versions = kept;
        let stored = copy_entry(&entry);
        match self.registry.update_plugin(plugin_id, entry) {
            Err(err) => return Err(err),
            Ok(_) => {},
        }
        let _ = self.storage.save_plugin(stored);
        Ok(())
    }
}

/// What the marketplace shows of a plugin.
#[derive(Debug, Clone)]
pub struct PluginDetails {
    pub metadata: crate::marketplace::types::PluginMetadata,
    pub latest_version: String,
    pub versions: Vec<PluginVersion>,
    pub download_count: u64,
    pub active_installs: u64,
    pub review_count: u64,
    /// The average review rating, in hundredths of a star.
    pub rating: u32,
    pub security_rating: SecurityRating,
    pub license: LicenseInfo,
    pub dependencies: Vec<crate::marketplace::types::PluginDependency>,
    pub readme: Option<String>,
    pub changelog: Option<String>,
}

/// Whether `d` shows the registration `e`.
pub open spec fn details_of(d: PluginDetails, e: RegistryEntry) -> bool {
    &&& same_metadata(d.metadata, e.metadata)
    &&& d.latest_version@ == latest_version_of(e)
    &&& same_versions(d.versions@, e.versions@)
    &&& d.download_count == e.download_count
    &&& d.active_installs == e.active_installs
    &&& d.review_count == e.review_count
    &&& d.rating == e.rating
    &&& d.security_rating == e.security_rating
    &&& d.license == e.license
    &&& d.dependencies@ == e.dependencies@
    &&& d.readme is None
    &&& d.changelog is None
}

/// The marketplace's figures.
#[derive(Debug, Clone)]
pub struct MarketplaceStats {
    pub total_plugins: u64,
    pub total_downloads: u64,
    pub active_users: u64,
    pub new_plugins_this_month: u64,
    pub top_categories: Vec<(String, u64)>,
}

impl DataFlareMarketplace {
    /// The versions of `plugin_id`, oldest first: refused when no such
    /// plugin is registered.
    pub fn get_plugin_versions(&self, plugin_id: &str) -> (r: WasmResult<Vec<PluginVersion>>)
        requires
            self.wf(),
        ensures
            self.registry.entries().contains_key(plugin_id@) ==> (r matches Ok(vs) && same_versions(
                vs@,
                self.registry.entries()[plugin_id@].versions@,
            )),
            !self.registry.entries().contains_key(plugin_id@) ==> (r matches Err(WasmError::PluginExecution(m)) && m@
                == "插件不存在: "@ + plugin_id@),
    {
        match self.registry.get_plugin(plugin_id) {
            Some(e) => Ok(copy_versions(&e.versions)),
            None => Err(WasmError::PluginExecution(concat("插件不存在: ", plugin_id))),
        }
    }

    /// What is shown of `plugin_id`: refused when no such plugin is
    /// registered.
    pub fn get_plugin_details(&self, plugin_id: &str) -> (r: WasmResult<PluginDetails>)
        requires
            self.wf(),
        ensures
            self.registry.entries().contains_key(plugin_id@) ==> (r matches Ok(d) && details_of(
                d,
                self.registry.entries()[plugin_id@],
            )),
            !self.registry.entries().contains_key(plugin_id@) ==> (r matches Err(WasmError::PluginExecution(m)) && m@
                == "插件不存在: "@ + plugin_id@),
    {
        match self.registry.get_plugin(plugin_id) {
            Some(e) => {
                let c = copy_entry(e);
                let latest = latest_version(&e.versions);
                proof {
                    reveal_strlit("0.0.0");
                }
                Ok(PluginDetails {
                    metadata: c.metadata,
                    latest_version: latest,
                    versions: c.versions,
                    download_count: c.download_count,
                    active_installs: c.active_installs,
                    review_count: c.review_count,
                    rating: c.rating,
                    security_rating: c.security_rating,
                    license: c.license,
                    dependencies: c.dependencies,
                    readme: None,
                    changelog: None,
                })
            },
            None => Err(WasmError::PluginExecution(concat("插件不存在: ", plugin_id))),
        }
    }

    /// The package of `version` of `plugin_id`, counting a download of the
    /// plugin in the store: refused when no such package is kept.
    pub fn download_plugin(&mut self, plugin_id: &str, version: &str) -> (r: WasmResult<PluginPackage>)
        requires
            old(self).wf(),
            old(self).storage.plugins().contains_key(plugin_id@) ==> old(self).storage.plugins()[plugin_id@].download_count
                < u64::MAX,
        ensures
            final(self).wf(),
            final(self).registry == old(self).registry,
            final(self).storage.packages() == old(self).storage.packages(),
            !old(self).storage.packages().contains_key(spec_package_key(plugin_id@, version@)) ==> (r matches Err(
                WasmError::PluginExecution(m),
            ) && m@ == "插件包不存在: "@ + plugin_id@ + ":"@ + version@ && final(self).storage.plugins() == old(self).storage.plugins()),
            old(self).storage.packages().contains_key(spec_package_key(plugin_id@, version@)) ==> {
                &&& r matches Ok(p) && same_package(p, old(self).storage.packages()[spec_package_key(plugin_id@, version@)])
                &&& !old(self).storage.plugins().contains_key(plugin_id@) ==> final(self).storage.plugins() == old(self).storage.plugins()
                &&& old(self).storage.plugins().contains_key(plugin_id@) ==> final(self).storage.plugins() == old(self).storage.plugins().insert(
                    plugin_id@,
                    RegistryEntry {
                        download_count: (old(self).storage.plugins()[plugin_id@].download_count + 1) as u64,
                        ..old(self).storage.plugins()[plugin_id@]
                    },
                )
            },
    {
        let package = match self.storage.get_plugin_package(plugin_id, version) {
            Some(p) => copy_package(p),
            None => {
                let a = concat("插件包不存在: ", plugin_id);
                let b = concat(a.as_str(), ":");
                return Err(WasmError::PluginExecution(concat(b.as_str(), version)));
            },
        };
        let _ = self.storage.increment_download_count(plugin_id);
        Ok(package)
    }

    /// The marketplace's figures, counting as new the plugins created at or
    /// after `month_start`.
    pub fn get_marketplace_stats(&self, month_start: i64) -> (s: MarketplaceStats)
        requires
            self.wf(),
            category_total(self.registry.entry_list()) < u64::MAX,
            download_total(self.registry.entry_list()) <= u64::MAX,
        ensures
            s.total_plugins == self.registry.entries().dom().len(),
            s.total_downloads == download_total(self.registry.entry_list()),
            s.active_users == 0,
            s.new_plugins_this_month == created_since(self.registry.entry_list(), month_start),
            top_named(self.registry.entry_list(), pair_views(s.top_categories@)),
    {
        let counts = self.registry.stats_at(month_start);
        MarketplaceStats {
            total_plugins: counts.total_plugins,
            total_downloads: counts.total_downloads,
            active_users: 0,
            new_plugins_this_month: counts.new_plugins_this_month,
            top_categories: counts.top_categories,
        }
    }

    /// The listings of the plugins saved for `user_id` that are registered,
    /// in the order they were saved.
    pub fn get_user_plugins(&self, user_id: &str, auth: AuthToken) -> (r: WasmResult<Vec<PluginSummary>>)
        requires
            self.wf(),
        ensures
            r matches Ok(items) && {
                let ids = if self.storage.user_plugins().contains_key(user_id@) {
                    self.storage.user_plugins()[user_id@]
                } else {
                    Seq::empty()
                };
                let known = ids.filter(|id: Seq<char>| self.registry.entries().contains_key(id));
                &&& items@.len() == known.len()
                &&& forall|k: int| 0 <= k < items@.len() ==> summarizes(#[trigger] items@[k], self.registry.entries()[known[k]])
            },
    {
        let ids = match self.storage.get_user_plugins(user_id) {
            Ok(v) => v,
            Err(e) => return Err(e),
        };
        let ghost pred = |id: Seq<char>| self.registry.entries().contains_key(id);
        let ghost all = string_views(ids@);
        let mut items: Vec<PluginSummary> = Vec::new();
        let mut i: usize = 0;
        while i < ids.len()
            invariant
                self.wf(),
                all == string_views(ids@),
                i <= ids@.len(),
                pred == (|id: Seq<char>| self.registry.entries().contains_key(id)),
                items@.len() == all.subrange(0, i as int).filter(pred).len(),
                forall|k: int| 0 <= k < items@.len() ==> summarizes(
                    #[trigger] items@[k],
                    self.registry.entries()[all.subrange(0, i as int).filter(pred)[k]],
                ),
            decreases ids.len() - i,
        {
            proof {
                crate::seqs::lemma_filter_push(all.subrange(0, i as int), pred, all[i as int]);
                assert(all.subrange(0, i as int).push(all[i as int]) =~= all.subrange(0, i + 1));
            }
            assert(all[i as int] == ids@[i as int]@);
            match self.registry.get_plugin(ids[i].as_str()) {
                Some(e) => {
                    let ghost prev = all.subrange(0, i as int).filter(pred);
                    items.push(summarize(e));
                    assert(all.subrange(0, i + 1).filter(pred) == prev.push(all[i as int]));
                },
                None => {},
            }
            i = i + 1;
        }
        assert(all.subrange(0, ids@.len() as int) =~= all);
        Ok(items)
    }
}

/// Where a published version is downloaded from.
pub open spec fn download_path(plugin_id: Seq<char>, version: Seq<char>) -> Seq<char> {
    "/api/plugins/"@ + plugin_id + "/versions/"@ + version + "/download"@
}

/// The result of publishing `version` of `plugin_id` at `published_at`.
pub fn publish_result(plugin_id: String, version: String, published_at: i64) -> (r: PublishResult)
    ensures
        r.plugin_id@ == plugin_id@,
        r.version@ == version@,
        r.published_at == published_at,
        r.download_url@ == download_path(plugin_id@, version@),
{
    let a = concat("/api/plugins/", plugin_id.as_str());
    let b = concat(a.as_str(), "/versions/");
    let c = concat(b.as_str(), version.as_str());
    let url = concat(c.as_str(), "/download");
    PublishResult { plugin_id, version, published_at, download_url: url }
}

/// The version strings of a list of versions.
pub open spec fn version_strings(vs: Seq<PluginVersion>) -> Seq<Seq<char>> {
    vs.map_values(|v: PluginVersion| v.version@)
}

/// Whether a version is not `version`.
pub open spec fn other_version(version: Seq<char>) -> spec_fn(PluginVersion) -> bool {
    |v: PluginVersion| v.version@ != version
}

/// The newest version of a list (the last), or `0.0.0` when it is empty.
pub fn latest_version(versions: &Vec<PluginVersion>) -> (v: String)
    ensures
        versions@.len() == 0 ==> v@ == "0.0.0"@,
        versions@.len() > 0 ==> v@ == versions@.last().version@,
{
    if versions.len() == 0 {
        String::from_str("0.0.0")
    } else {
        let last = &versions[versions.len() - 1];
        crate::text::owned(last.version.as_str())
    }
}

} // verus!

verus! {

/// A package the store keeps is what a download of its plugin and version
/// hands back: whatever publishing wrote under a key is read back under it.
pub proof fn lemma_published_package_is_downloaded(
    before: DataFlareMarketplace,
    after: DataFlareMarketplace,
    p: PluginPackage,
)
    requires
        after.storage.packages() == before.storage.packages().insert(
            spec_package_key(p.metadata.id@, p.version.version@),
            p,
        ),
    ensures
        after.storage.packages().contains_key(spec_package_key(p.metadata.id@, p.version.version@)),
        after.storage.packages()[spec_package_key(p.metadata.id@, p.version.version@)] == p,
{
}

} // verus!
