//! Shared types of the plugin marketplace. Instants are milliseconds since
//! the Unix epoch (UTC).

use vstd::prelude::*;
use crate::keyed::{copy_bytes, KeyedList};
use crate::text::{clone_strings, copy_option_string, string_views};

verus! {

/// What describes a plugin.
#[derive(Debug, Clone)]
pub struct PluginMetadata {
    pub id: String,
    pub name: String,
    pub description: String,
    pub author: String,
    pub author_email: Option<String>,
    pub homepage: Option<String>,
    pub repository: Option<String>,
    pub documentation: Option<String>,
    pub keywords: Vec<String>,
    pub categories: Vec<String>,
    pub created_at: i64,
    pub updated_at: i64,
}

impl PluginMetadata {
    /// The same description, updated at `at`.
    pub open spec fn set_updated(self, at: i64) -> PluginMetadata {
        PluginMetadata { updated_at: at, ..self }
    }
}

/// Which DataFlare versions and platforms a plugin runs on.
#[derive(Debug, Clone)]
pub struct CompatibilityInfo {
    pub min_dataflare_version: String,
    pub max_dataflare_version: Option<String>,
    pub platforms: Vec<String>,
    pub architectures: Vec<String>,
}

/// A published version of a plugin.
#[derive(Debug, Clone)]
pub struct PluginVersion {
    pub version: String,
    pub published_at: i64,
    pub download_url: String,
    pub checksum: String,
    pub file_size: u64,
    pub compatibility: CompatibilityInfo,
    pub changelog: String,
    pub prerelease: bool,
    pub deprecated: bool,
}

/// How risky a plugin is judged to be.
#[derive(Debug, Clone, Copy, PartialEq, Eq, Structural)]
pub enum SecurityRating {
    Safe,
    Low,
    Medium,
    High,
    Critical,
}

/// The license a plugin is published under.
#[derive(Debug, Clone)]
pub struct LicenseInfo {
    pub license_type: String,
    pub license_text: Option<String>,
    pub is_open_source: bool,
    pub allows_commercial_use: bool,
}

/// When a dependency is needed.
#[derive(Debug, Clone, Copy, PartialEq, Eq, Structural)]
pub enum DependencyType {
    Runtime,
    Development,
    Build,
}

/// A dependency of a plugin.
#[derive(Debug, Clone)]
pub struct PluginDependency {
    pub name: String,
    pub version_requirement: String,
    pub optional: bool,
    pub dependency_type: DependencyType,
}

/// Where a plugin is in its publication.
#[derive(Debug, Clone, Copy, PartialEq, Eq, Structural)]
pub enum PublishStatus {
    Published,
    Draft,
    Unpublished,
    Deprecated,
}

/// How search results are ordered.
#[derive(Debug, Clone, Copy, PartialEq, Eq, Structural)]
pub enum SortBy {
    Relevance,
    Downloads,
    Rating,
    Updated,
    Created,
    Name,
}

/// A page of results, counted from 0.
#[derive(Debug, Clone, Copy, PartialEq, Eq, Structural)]
pub struct Pagination {
    pub page: u32,
    pub page_size: u32,
}

/// What a search asks for: words to look for, the categories, tags,
/// author and licence to keep, the lowest average rating (in hundredths of
/// a star), the order and the page.
#[derive(Debug, Clone)]
pub struct SearchQuery {
    pub query: Option<String>,
    pub categories: Vec<String>,
    pub tags: Vec<String>,
    pub author: Option<String>,
    pub license: Option<String>,
    pub min_rating: Option<u32>,
    pub sort_by: SortBy,
    pub pagination: Pagination,
}

/// A plugin as uploaded: its description, version, module and files.
#[derive(Debug, Clone)]
pub struct PluginPackage {
    pub metadata: PluginMetadata,
    pub version: PluginVersion,
    pub wasm_binary: Vec<u8>,
    pub config_file: Option<String>,
    pub readme: Option<String>,
    pub license_file: Option<String>,
    pub additional_files: KeyedList<Vec<u8>>,
}

/// A review as the API reports it.
#[derive(Debug, Clone)]
pub struct PluginReview {
    pub id: String,
    pub user_id: String,
    pub username: String,
    /// From 1 to 5.
    pub rating: u8,
    pub comment: String,
    /// Milliseconds since the Unix epoch (UTC).
    pub created_at: i64,
    pub verified_purchase: bool,
}

/// A token that authenticates a user until it expires.
#[derive(Debug, Clone)]
pub struct AuthToken {
    pub token: String,
    pub user_id: String,
    pub expires_at: i64,
}

/// What publishing a plugin gave.
#[derive(Debug, Clone)]
pub struct PublishResult {
    pub plugin_id: String,
    pub version: String,
    pub published_at: i64,
    pub download_url: String,
}

/// What updating a plugin gave.
#[derive(Debug, Clone)]
pub struct UpdateResult {
    pub plugin_id: String,
    pub new_version: String,
    pub updated_at: i64,
}

/// How severe a security finding is.
#[derive(Debug, Clone, Copy, PartialEq, Eq, Structural)]
pub enum SecuritySeverity {
    Low,
    Medium,
    High,
    Critical,
}

/// Something a security scan found.
#[derive(Debug, Clone)]
pub enum SecurityFinding {
    DangerousImport { module: String, function: String, severity: SecuritySeverity },
    UnexpectedExport { function: String, severity: SecuritySeverity },
    Vulnerability { dependency: String, version: String, cve_id: String, severity: SecuritySeverity, description: String },
    PermissionAbuse { permission: String, reason: String, severity: SecuritySeverity },
    MaliciousCode { pattern: String, location: String, severity: SecuritySeverity },
}

/// The area a quality recommendation concerns.
#[derive(Debug, Clone, Copy, PartialEq, Eq, Structural)]
pub enum RecommendationType {
    CodeQuality,
    Performance,
    Security,
    Documentation,
    Testing,
}

/// How urgent a recommendation is.
#[derive(Debug, Clone, Copy, PartialEq, Eq, Structural)]
pub enum Priority {
    Low,
    Medium,
    High,
    Critical,
}

/// A suggestion to improve a plugin.
#[derive(Debug, Clone)]
pub struct QualityRecommendation {
    pub recommendation_type: RecommendationType,
    pub message: String,
    pub priority: Priority,
}

/// The kind of project a user builds.
#[derive(Debug, Clone, Copy, PartialEq, Eq, Structural)]
pub enum ProjectType {
    DataPipeline,
    RealTimeAnalytics,
    BatchProcessing,
    MachineLearning,
    DataVisualization,
}

/// The performance a user asks for.
#[derive(Debug, Clone, Copy, PartialEq, Eq, Structural)]
pub struct PerformanceRequirements {
    pub max_latency_ms: Option<u64>,
    pub min_throughput_rps: Option<u64>,
    pub memory_limit_mb: Option<u64>,
}

/// Why a plugin is recommended.
#[derive(Debug, Clone, Copy, PartialEq, Eq, Structural)]
pub enum RecommendationReason {
    SimilarUsers,
    ContentSimilarity,
    Complementary,
    WorkflowMatch,
    PerformanceOptimization,
    CostEffective,
}

/// Where the marketplace keeps its data.
#[derive(Debug, Clone, Copy, PartialEq, Eq, Structural)]
pub enum StorageType {
    Memory,
    File,
    Database,
}

/// The storage backend's configuration.
#[derive(Debug, Clone)]
pub struct StorageConfig {
    pub storage_type: StorageType,
    pub connection_string: String,
    pub max_connections: u32,
}

impl Default for StorageConfig {
    /// In memory, at `memory://`, with 10 connections.
    fn default() -> (c: Self)
        ensures
            c.storage_type == StorageType::Memory,
            c.connection_string@ == "memory://"@,
            c.max_connections == 10,
    {
        StorageConfig {
            storage_type: StorageType::Memory,
            connection_string: String::from_str("memory://"),
            max_connections: 10,
        }
    }
}

/// The security scanner's configuration.
#[derive(Debug, Clone, Copy, PartialEq, Eq, Structural)]
pub struct SecurityConfig {
    pub enable_vulnerability_scanning: bool,
    pub enable_malware_detection: bool,
    pub max_scan_time_seconds: u64,
}

impl Default for SecurityConfig {
    /// Both scans on, at most 300 s.
    fn default() -> (c: Self)
        ensures
            c == (SecurityConfig {
                enable_vulnerability_scanning: true,
                enable_malware_detection: true,
                max_scan_time_seconds: 300,
            }),
    {
        SecurityConfig { enable_vulnerability_scanning: true, enable_malware_detection: true, max_scan_time_seconds: 300 }
    }
}

/// The search engine's configuration.
#[derive(Debug, Clone, Copy, PartialEq, Eq, Structural)]
pub struct SearchConfig {
    pub max_results_per_page: u32,
    pub enable_fuzzy_search: bool,
    pub search_timeout_ms: u64,
}

impl Default for SearchConfig {
    /// 50 results a page, fuzzy matching on, 5 s.
    fn default() -> (c: Self)
        ensures
            c == (SearchConfig { max_results_per_page: 50, enable_fuzzy_search: true, search_timeout_ms: 5000 }),
    {
        SearchConfig { max_results_per_page: 50, enable_fuzzy_search: true, search_timeout_ms: 5000 }
    }
}

/// The recommendation engine's configuration.
#[derive(Debug, Clone, Copy, PartialEq, Eq, Structural)]
pub struct RecommendationConfig {
    pub enable_collaborative_filtering: bool,
    pub enable_content_based: bool,
    pub max_recommendations: u32,
}

impl Default for RecommendationConfig {
    /// Both methods on, at most 10 recommendations.
    fn default() -> (c: Self)
        ensures
            c == (RecommendationConfig {
                enable_collaborative_filtering: true,
                enable_content_based: true,
                max_recommendations: 10,
            }),
    {
        RecommendationConfig { enable_collaborative_filtering: true, enable_content_based: true, max_recommendations: 10 }
    }
}

/// The API's configuration.
#[derive(Debug, Clone)]
pub struct ApiConfig {
    pub rate_limit_per_minute: u32,
    pub enable_authentication: bool,
    pub cors_origins: Vec<String>,
}

impl Default for ApiConfig {
    /// 100 requests a minute, authentication on, any origin.
    fn default() -> (c: Self)
        ensures
            c.rate_limit_per_minute == 100,
            c.enable_authentication,
            string_views(c.cors_origins@) == seq!["*"@],
    {
        let origins = vec![String::from_str("*")];
        assert(string_views(origins@) =~= seq!["*"@]);
        ApiConfig { rate_limit_per_minute: 100, enable_authentication: true, cors_origins: origins }
    }
}

/// Whether `a` and `b` hold the same compatibility information.
pub open spec fn same_compatibility(a: CompatibilityInfo, b: CompatibilityInfo) -> bool {
    &&& a.min_dataflare_version == b.min_dataflare_version
    &&& a.max_dataflare_version == b.max_dataflare_version
    &&& a.platforms@ == b.platforms@
    &&& a.architectures@ == b.architectures@
}

/// Whether `a` and `b` describe the same version.
pub open spec fn same_version(a: PluginVersion, b: PluginVersion) -> bool {
    &&& a.version == b.version
    &&& a.published_at == b.published_at
    &&& a.download_url == b.download_url
    &&& a.checksum == b.checksum
    &&& a.file_size == b.file_size
    &&& same_compatibility(a.compatibility, b.compatibility)
    &&& a.changelog == b.changelog
    &&& a.prerelease == b.prerelease
    &&& a.deprecated == b.deprecated
}

/// Whether `a` and `b` describe a plugin alike.
pub open spec fn same_metadata(a: PluginMetadata, b: PluginMetadata) -> bool {
    &&& a.id == b.id
    &&& a.name == b.name
    &&& a.description == b.description
    &&& a.author == b.author
    &&& a.author_email == b.author_email
    &&& a.homepage == b.homepage
    &&& a.repository == b.repository
    &&& a.documentation == b.documentation
    &&& a.keywords@ == b.keywords@
    &&& a.categories@ == b.categories@
    &&& a.created_at == b.created_at
    &&& a.updated_at == b.updated_at
}

/// Whether two lists of versions hold the same versions in the same order.
pub open spec fn same_versions(a: Seq<PluginVersion>, b: Seq<PluginVersion>) -> bool {
    a.len() == b.len() && forall|i: int| 0 <= i < a.len() ==> same_version(#[trigger] a[i], b[i])
}

/// A copy of compatibility information.
pub fn copy_compatibility(c: &CompatibilityInfo) -> (r: CompatibilityInfo)
    ensures
        same_compatibility(r, *c),
{
    CompatibilityInfo {
        min_dataflare_version: c.min_dataflare_version.clone(),
        max_dataflare_version: copy_option_string(&c.max_dataflare_version),
        platforms: clone_strings(&c.platforms),
        architectures: clone_strings(&c.architectures),
    }
}

/// A copy of a version.
pub fn copy_version(v: &PluginVersion) -> (r: PluginVersion)
    ensures
        same_version(r, *v),
{
    PluginVersion {
        version: v.version.clone(),
        published_at: v.published_at,
        download_url: v.download_url.clone(),
        checksum: v.checksum.clone(),
        file_size: v.file_size,
        compatibility: copy_compatibility(&v.compatibility),
        changelog: v.changelog.clone(),
        prerelease: v.prerelease,
        deprecated: v.deprecated,
    }
}

/// A copy of a list of versions.
pub fn copy_versions(vs: &Vec<PluginVersion>) -> (r: Vec<PluginVersion>)
    ensures
        same_versions(r@, vs@),
{
    let mut r: Vec<PluginVersion> = Vec::new();
    let mut i: usize = 0;
    while i < vs.len()
        invariant
            i <= vs@.len(),
            r@.len() == i,
            forall|k: int| 0 <= k < i ==> same_version(#[trigger] r@[k], vs@[k]),
        decreases vs.len() - i,
    {
        r.push(copy_version(&vs[i]));
        i = i + 1;
    }
    r
}

/// A copy of a plugin's description.
pub fn copy_metadata(m: &PluginMetadata) -> (r: PluginMetadata)
    ensures
        same_metadata(r, *m),
{
    PluginMetadata {
        id: m.id.clone(),
        name: m.name.clone(),
        description: m.description.clone(),
        author: m.author.clone(),
        author_email: copy_option_string(&m.author_email),
        homepage: copy_option_string(&m.homepage),
        repository: copy_option_string(&m.repository),
        documentation: copy_option_string(&m.documentation),
        keywords: clone_strings(&m.keywords),
        categories: clone_strings(&m.categories),
        created_at: m.created_at,
        updated_at: m.updated_at,
    }
}

/// A copy of a licence description.
pub fn copy_license(l: &LicenseInfo) -> (r: LicenseInfo)
    ensures
        r == *l,
{
    LicenseInfo {
        license_type: l.license_type.clone(),
        license_text: copy_option_string(&l.license_text),
        is_open_source: l.is_open_source,
        allows_commercial_use: l.allows_commercial_use,
    }
}

/// A copy of a dependency.
pub fn copy_dependency(d: &PluginDependency) -> (r: PluginDependency)
    ensures
        r == *d,
{
    PluginDependency {
        name: d.name.clone(),
        version_requirement: d.version_requirement.clone(),
        optional: d.optional,
        dependency_type: d.dependency_type,
    }
}

/// Whether `a` and `b` hold the same upload.
pub open spec fn same_package(a: PluginPackage, b: PluginPackage) -> bool {
    &&& same_metadata(a.metadata, b.metadata)
    &&& same_version(a.version, b.version)
    &&& a.wasm_binary@ == b.wasm_binary@
    &&& a.config_file == b.config_file
    &&& a.readme == b.readme
    &&& a.license_file == b.license_file
    &&& a.additional_files.key_order() == b.additional_files.key_order()
    &&& a.additional_files.map().dom() == b.additional_files.map().dom()
    &&& forall|k: Seq<char>| #[trigger] a.additional_files.map().contains_key(k) ==> a.additional_files.map()[k]@
        == b.additional_files.map()[k]@
}

/// A copy of an upload.
pub fn copy_package(p: &PluginPackage) -> (r: PluginPackage)
    ensures
        same_package(r, *p),
{
    PluginPackage {
        metadata: copy_metadata(&p.metadata),
        version: copy_version(&p.version),
        wasm_binary: copy_bytes(&p.wasm_binary),
        config_file: copy_option_string(&p.config_file),
        readme: copy_option_string(&p.readme),
        license_file: copy_option_string(&p.license_file),
        additional_files: p.additional_files.clone_bytes(),
    }
}

} // verus!
