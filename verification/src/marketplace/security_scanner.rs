//! Security scanning of plugin packages: checks of the module's header,
//! dangerous dependencies, suspicious names, known malware patterns and
//! network access, and the rating that the findings earn.

use vstd::prelude::*;
use crate::clock::{system_now_millis, utc_now_millis};
use crate::keyed::KeyedList;
use crate::marketplace::types::{
    PluginMetadata, PluginPackage, SecurityConfig, SecurityFinding, SecurityRating, SecuritySeverity,
};
use crate::text::{concat, lowercase, owned, seq_contains, str_contains, to_lowercase};
use crate::wasm_error::WasmResult;

verus! {

/// A known vulnerability of a dependency.
#[derive(Debug, Clone)]
pub struct Vulnerability {
    pub cve_id: String,
    pub severity: SecuritySeverity,
    pub description: String,
    pub affected_versions: String,
}

/// A pattern of known malicious code.
#[derive(Debug, Clone)]
pub struct MaliciousPattern {
    pub name: String,
    pub description: String,
    /// The text whose presence in a module reveals the pattern.
    pub rule: String,
    pub severity: SecuritySeverity,
}

/// Known vulnerabilities by dependency name.
#[derive(Debug, Clone)]
pub struct VulnerabilityDatabase {
    pub vulnerabilities: KeyedList<Vec<Vulnerability>>,
}

/// The malicious patterns looked for.
#[derive(Debug, Clone)]
pub struct MalwareDetector {
    pub malicious_patterns: Vec<MaliciousPattern>,
}

/// The permissions deemed dangerous.
#[derive(Debug, Clone)]
pub struct PermissionAnalyzer {
    pub dangerous_permissions: Vec<String>,
}

/// Counts of a scan.
#[derive(Debug, Clone, Copy, PartialEq, Eq, Structural)]
pub struct SecurityScanStats {
    pub scan_duration_ms: u64,
    pub files_scanned: u32,
    pub issues_found: u32,
    pub critical_issues: u32,
}

/// The outcome of a scan.
#[derive(Debug, Clone)]
pub struct SecurityScanResult {
    /// Milliseconds since the Unix epoch (UTC) when the scan started.
    pub scan_time: i64,
    pub security_rating: SecurityRating,
    pub findings: Vec<SecurityFinding>,
    pub stats: SecurityScanStats,
}

/// A finding with its texts read as character sequences.
pub enum FindingView {
    DangerousImport { module: Seq<char>, function: Seq<char>, severity: SecuritySeverity },
    UnexpectedExport { function: Seq<char>, severity: SecuritySeverity },
    Vulnerability {
        dependency: Seq<char>,
        version: Seq<char>,
        cve_id: Seq<char>,
        severity: SecuritySeverity,
        description: Seq<char>,
    },
    PermissionAbuse { permission: Seq<char>, reason: Seq<char>, severity: SecuritySeverity },
    MaliciousCode { pattern: Seq<char>, location: Seq<char>, severity: SecuritySeverity },
}

/// A finding read as character sequences.
pub open spec fn view_finding(f: SecurityFinding) -> FindingView {
    match f {
        SecurityFinding::DangerousImport { module, function, severity } => FindingView::DangerousImport {
            module: module@,
            function: function@,
            severity,
        },
        SecurityFinding::UnexpectedExport { function, severity } => FindingView::UnexpectedExport {
            function: function@,
            severity,
        },
        SecurityFinding::Vulnerability { dependency, version, cve_id, severity, description } => FindingView::Vulnerability {
            dependency: dependency@,
            version: version@,
            cve_id: cve_id@,
            severity,
            description: description@,
        },
        SecurityFinding::PermissionAbuse { permission, reason, severity } => FindingView::PermissionAbuse {
            permission: permission@,
            reason: reason@,
            severity,
        },
        SecurityFinding::MaliciousCode { pattern, location, severity } => FindingView::MaliciousCode {
            pattern: pattern@,
            location: location@,
            severity,
        },
    }
}

/// A list of findings read as character sequences.
pub open spec fn view_findings(fs: Seq<SecurityFinding>) -> Seq<FindingView> {
    fs.map_values(|f: SecurityFinding| view_finding(f))
}

/// The severity of a finding.
pub open spec fn severity_of(f: SecurityFinding) -> SecuritySeverity {
    match f {
        SecurityFinding::DangerousImport { severity, .. } => severity,
        SecurityFinding::UnexpectedExport { severity, .. } => severity,
        SecurityFinding::Vulnerability { severity, .. } => severity,
        SecurityFinding::PermissionAbuse { severity, .. } => severity,
        SecurityFinding::MaliciousCode { severity, .. } => severity,
    }
}

/// How many findings have severity `s`.
pub open spec fn count_severity(fs: Seq<SecurityFinding>, s: SecuritySeverity) -> nat
    decreases fs.len(),
{
    if fs.len() == 0 {
        0
    } else {
        count_severity(fs.drop_last(), s) + if severity_of(fs.last()) == s { 1nat } else { 0nat }
    }
}

/// The rating findings earn: critical with any critical finding, high with
/// any high one, medium with more than two medium ones, low with a medium
/// one or more than five low ones, safe otherwise.
pub open spec fn rating_of(fs: Seq<SecurityFinding>) -> SecurityRating {
    if count_severity(fs, SecuritySeverity::Critical) > 0 {
        SecurityRating::Critical
    } else if count_severity(fs, SecuritySeverity::High) > 0 {
        SecurityRating::High
    } else if count_severity(fs, SecuritySeverity::Medium) > 2 {
        SecurityRating::Medium
    } else if count_severity(fs, SecuritySeverity::Medium) > 0 || count_severity(fs, SecuritySeverity::Low) > 5 {
        SecurityRating::Low
    } else {
        SecurityRating::Safe
    }
}

/// The severity of a finding read as character sequences.
pub open spec fn view_severity(f: FindingView) -> SecuritySeverity {
    match f {
        FindingView::DangerousImport { severity, .. } => severity,
        FindingView::UnexpectedExport { severity, .. } => severity,
        FindingView::Vulnerability { severity, .. } => severity,
        FindingView::PermissionAbuse { severity, .. } => severity,
        FindingView::MaliciousCode { severity, .. } => severity,
    }
}

/// How many of the findings `fs` have severity `s`.
pub open spec fn count_view_severity(fs: Seq<FindingView>, s: SecuritySeverity) -> nat
    decreases fs.len(),
{
    if fs.len() == 0 {
        0
    } else {
        count_view_severity(fs.drop_last(), s) + if view_severity(fs.last()) == s { 1nat } else { 0nat }
    }
}

/// The rating findings earn, read from their views.
pub open spec fn rating_of_views(fs: Seq<FindingView>) -> SecurityRating {
    if count_view_severity(fs, SecuritySeverity::Critical) > 0 {
        SecurityRating::Critical
    } else if count_view_severity(fs, SecuritySeverity::High) > 0 {
        SecurityRating::High
    } else if count_view_severity(fs, SecuritySeverity::Medium) > 2 {
        SecurityRating::Medium
    } else if count_view_severity(fs, SecuritySeverity::Medium) > 0 || count_view_severity(fs, SecuritySeverity::Low)
        > 5 {
        SecurityRating::Low
    } else {
        SecurityRating::Safe
    }
}

proof fn lemma_count_by_views(fs: Seq<SecurityFinding>, s: SecuritySeverity)
    ensures
        count_severity(fs, s) == count_view_severity(view_findings(fs), s),
    decreases fs.len(),
{
    if fs.len() > 0 {
        lemma_count_by_views(fs.drop_last(), s);
        assert(view_findings(fs).drop_last() =~= view_findings(fs.drop_last()));
    }
}

/// The rating of findings depends on their views alone.
pub proof fn lemma_rating_by_views(fs: Seq<SecurityFinding>)
    ensures
        rating_of(fs) == rating_of_views(view_findings(fs)),
{
    lemma_count_by_views(fs, SecuritySeverity::Critical);
    lemma_count_by_views(fs, SecuritySeverity::High);
    lemma_count_by_views(fs, SecuritySeverity::Medium);
    lemma_count_by_views(fs, SecuritySeverity::Low);
}

/// Some finding of `fs` has severity `s` exactly when `s` is counted.
proof fn lemma_count_positive(fs: Seq<SecurityFinding>, s: SecuritySeverity)
    ensures
        count_severity(fs, s) > 0 <==> exists|i: int| 0 <= i < fs.len() && severity_of(#[trigger] fs[i]) == s,
    decreases fs.len(),
{
    if fs.len() > 0 {
        lemma_count_positive(fs.drop_last(), s);
        if count_severity(fs.drop_last(), s) > 0 {
            let i = choose|i: int| 0 <= i < fs.drop_last().len() && severity_of(#[trigger] fs.drop_last()[i]) == s;
            assert(fs[i] == fs.drop_last()[i]);
        }
        if exists|i: int| 0 <= i < fs.len() && severity_of(#[trigger] fs[i]) == s {
            let i = choose|i: int| 0 <= i < fs.len() && severity_of(#[trigger] fs[i]) == s;
            if i < fs.len() - 1 {
                assert(fs.drop_last()[i] == fs[i]);
            }
        }
    }
}

/// The rating read on the findings themselves: a critical finding makes it
/// critical; with none, a high finding makes it high; and a package rated
/// safe has no critical, high or medium finding.
pub proof fn lemma_rating_by_severities(fs: Seq<SecurityFinding>)
    ensures
        (exists|i: int| 0 <= i < fs.len() && (match #[trigger] fs[i] {
            SecurityFinding::DangerousImport { severity, .. } => severity,
            SecurityFinding::UnexpectedExport { severity, .. } => severity,
            SecurityFinding::Vulnerability { severity, .. } => severity,
            SecurityFinding::PermissionAbuse { severity, .. } => severity,
            SecurityFinding::MaliciousCode { severity, .. } => severity,
        }) == SecuritySeverity::Critical)
            ==> rating_of(fs) == SecurityRating::Critical,
        (forall|i: int| 0 <= i < fs.len() ==> (match #[trigger] fs[i] {
            SecurityFinding::DangerousImport { severity, .. } => severity,
            SecurityFinding::UnexpectedExport { severity, .. } => severity,
            SecurityFinding::Vulnerability { severity, .. } => severity,
            SecurityFinding::PermissionAbuse { severity, .. } => severity,
            SecurityFinding::MaliciousCode { severity, .. } => severity,
        }) != SecuritySeverity::Critical)
            && (exists|i: int| 0 <= i < fs.len() && (match #[trigger] fs[i] {
            SecurityFinding::DangerousImport { severity, .. } => severity,
            SecurityFinding::UnexpectedExport { severity, .. } => severity,
            SecurityFinding::Vulnerability { severity, .. } => severity,
            SecurityFinding::PermissionAbuse { severity, .. } => severity,
            SecurityFinding::MaliciousCode { severity, .. } => severity,
        }) == SecuritySeverity::High)
            ==> rating_of(fs) == SecurityRating::High,
        rating_of(fs) == SecurityRating::Safe ==> forall|i: int| 0 <= i < fs.len() ==> (match #[trigger] fs[i] {
            SecurityFinding::DangerousImport { severity, .. } => severity,
            SecurityFinding::UnexpectedExport { severity, .. } => severity,
            SecurityFinding::Vulnerability { severity, .. } => severity,
            SecurityFinding::PermissionAbuse { severity, .. } => severity,
            SecurityFinding::MaliciousCode { severity, .. } => severity,
        })
            == SecuritySeverity::Low,
{
    lemma_count_positive(fs, SecuritySeverity::Critical);
    lemma_count_positive(fs, SecuritySeverity::High);
    lemma_count_positive(fs, SecuritySeverity::Medium);
    assert forall|i: int| 0 <= i < fs.len() implies (match #[trigger] fs[i] {
            SecurityFinding::DangerousImport { severity, .. } => severity,
            SecurityFinding::UnexpectedExport { severity, .. } => severity,
            SecurityFinding::Vulnerability { severity, .. } => severity,
            SecurityFinding::PermissionAbuse { severity, .. } => severity,
            SecurityFinding::MaliciousCode { severity, .. } => severity,
        }) == severity_of(fs[i]) by {}
}

/// Read on finding views, a critical finding makes the rating critical.
pub proof fn lemma_view_rating_critical(fs: Seq<FindingView>, i: int)
    requires
        0 <= i < fs.len(),
        (match fs[i] {
            FindingView::DangerousImport { severity, .. } => severity,
            FindingView::UnexpectedExport { severity, .. } => severity,
            FindingView::Vulnerability { severity, .. } => severity,
            FindingView::PermissionAbuse { severity, .. } => severity,
            FindingView::MaliciousCode { severity, .. } => severity,
        }) == SecuritySeverity::Critical,
    ensures
        rating_of_views(fs) == SecurityRating::Critical,
{
    lemma_view_count_positive(fs, i);
}

/// A view of severity critical at `i` is counted.
proof fn lemma_view_count_positive(fs: Seq<FindingView>, i: int)
    requires
        0 <= i < fs.len(),
        view_severity(fs[i]) == SecuritySeverity::Critical,
    ensures
        count_view_severity(fs, SecuritySeverity::Critical) > 0,
    decreases fs.len(),
{
    if i < fs.len() - 1 {
        assert(fs.drop_last()[i] == fs[i]);
        lemma_view_count_positive(fs.drop_last(), i);
    }
}

/// The WebAssembly magic number, `\0asm`.
pub open spec fn wasm_magic() -> Seq<u8> {
    seq![0u8, 0x61u8, 0x73u8, 0x6du8]
}

/// The findings of the header check: a module shorter than 8 bytes has an
/// invalid header (high), and one of at least 4 bytes not starting with the
/// magic number an invalid magic number (critical).
pub open spec fn static_findings(bin: Seq<u8>) -> Seq<FindingView> {
    let short = if bin.len() < 8 {
        seq![FindingView::MaliciousCode {
            pattern: "invalid_wasm_header"@,
            location: "binary_header"@,
            severity: SecuritySeverity::High,
        }]
    } else {
        Seq::empty()
    };
    let magic = if bin.len() >= 4 && bin.subrange(0, 4) != wasm_magic() {
        seq![FindingView::MaliciousCode {
            pattern: "invalid_wasm_magic"@,
            location: "binary_header"@,
            severity: SecuritySeverity::Critical,
        }]
    } else {
        Seq::empty()
    };
    short + magic
}

/// The dependency names deemed dangerous.
pub open spec fn dangerous_dependencies() -> Seq<Seq<char>> {
    seq!["malicious-lib"@, "unsafe-crate"@]
}

/// The finding for a dangerous dependency `dep`.
pub open spec fn dependency_finding(dep: Seq<char>) -> FindingView {
    FindingView::Vulnerability {
        dependency: dep,
        version: "unknown"@,
        cve_id: "CVE-2024-XXXX"@,
        severity: SecuritySeverity::High,
        description: "检测到危险依赖: "@ + dep,
    }
}

/// The words that make a plugin's name suspicious.
pub open spec fn suspicious_keywords() -> Seq<Seq<char>> {
    seq!["admin"@, "root"@, "system"@, "kernel"@]
}

/// The finding for a suspicious word `kw` in a plugin's name.
pub open spec fn permission_finding(kw: Seq<char>) -> FindingView {
    FindingView::PermissionAbuse {
        permission: kw,
        reason: "插件名称包含可疑关键词: "@ + kw,
        severity: SecuritySeverity::Medium,
    }
}

/// The words that reveal network access in a description.
pub open spec fn network_keywords() -> Seq<Seq<char>> {
    seq!["http"@, "tcp"@, "udp"@, "socket"@, "network"@]
}

/// The finding for network access revealed by `kw`.
pub open spec fn network_finding(kw: Seq<char>) -> FindingView {
    FindingView::PermissionAbuse {
        permission: "network_access"@,
        reason: "插件可能进行网络访问: "@ + kw,
        severity: SecuritySeverity::Low,
    }
}

/// One finding for each word of `words` that `text` contains, in order.
pub open spec fn findings_for_words(
    words: Seq<Seq<char>>,
    text: Seq<char>,
    make: spec_fn(Seq<char>) -> FindingView,
) -> Seq<FindingView>
    decreases words.len(),
{
    if words.len() == 0 {
        Seq::empty()
    } else {
        findings_for_words(words.drop_last(), text, make) + if seq_contains(text, words.last()) {
            seq![make(words.last())]
        } else {
            Seq::empty()
        }
    }
}

/// The first word of `words` that `text` contains, if any.
pub open spec fn first_contained(words: Seq<Seq<char>>, text: Seq<char>) -> Option<Seq<char>>
    decreases words.len(),
{
    if words.len() == 0 {
        None
    } else if seq_contains(text, words[0]) {
        Some(words[0])
    } else {
        first_contained(words.drop_first(), text)
    }
}

/// The text that `String::from_utf8_lossy` decodes from `bytes`.
pub uninterp spec fn utf8_lossy(bytes: Seq<u8>) -> Seq<char>;

/// `String::from_utf8_lossy`: the bytes decoded as UTF-8, each invalid
/// sequence replaced by U+FFFD.
#[verifier::external_body]
fn decode_lossy(bytes: &[u8]) -> (s: String)
    ensures
        s@ == utf8_lossy(bytes@),
{
    String::from_utf8_lossy(bytes).into_owned()
}

/// One finding for each pattern whose rule the module's text contains.
pub open spec fn malware_findings(patterns: Seq<MaliciousPattern>, bin: Seq<u8>) -> Seq<FindingView>
    decreases patterns.len(),
{
    if patterns.len() == 0 {
        Seq::empty()
    } else {
        let p = patterns.last();
        malware_findings(patterns.drop_last(), bin) + if seq_contains(utf8_lossy(bin), p.rule@) {
            seq![FindingView::MaliciousCode { pattern: p.name@, location: "wasm_binary"@, severity: p.severity }]
        } else {
            Seq::empty()
        }
    }
}

/// Scans plugin packages.
#[derive(Debug, Clone)]
pub struct PluginSecurityScanner {
    vulnerability_db: VulnerabilityDatabase,
    malware_detector: MalwareDetector,
    permission_analyzer: PermissionAnalyzer,
    config: SecurityConfig,
}

impl PluginSecurityScanner {
    /// The configuration.
    pub closed spec fn config(self) -> SecurityConfig {
        self.config
    }

    /// The malicious patterns looked for.
    pub closed spec fn patterns(self) -> Seq<MaliciousPattern> {
        self.malware_detector.malicious_patterns@
    }

    /// A scanner with `config`, looking for the `malware` pattern (high).
    pub fn new(config: SecurityConfig) -> (r: WasmResult<Self>)
        ensures
            r matches Ok(s) && s.config() == config && s.patterns().len() == 1
                && s.patterns()[0].name@ == "suspicious_string"@ && s.patterns()[0].rule@ == "malware"@
                && s.patterns()[0].severity == SecuritySeverity::High,
    {
        let mut vulns: KeyedList<Vec<Vulnerability>> = KeyedList::new();
        vulns.insert(
            String::from_str("example-lib"),
            vec![
                Vulnerability {
                    cve_id: String::from_str("CVE-2024-0001"),
                    severity: SecuritySeverity::High,
                    description: String::from_str("示例漏洞"),
                    affected_versions: String::from_str("*"),
                },
            ],
        );
        let patterns = vec![
            MaliciousPattern {
                name: String::from_str("suspicious_string"),
                description: String::from_str("可疑字符串"),
                rule: String::from_str("malware"),
                severity: SecuritySeverity::High,
            },
        ];
        let dangerous = vec![
            String::from_str("file_system_access"),
            String::from_str("network_access"),
            String::from_str("system_calls"),
        ];
        Ok(PluginSecurityScanner {
            vulnerability_db: VulnerabilityDatabase { vulnerabilities: vulns },
            malware_detector: MalwareDetector { malicious_patterns: patterns },
            permission_analyzer: PermissionAnalyzer { dangerous_permissions: dangerous },
            config,
        })
    }

    /// The findings a scan of `plugin_package` gives: the static-code check
    /// and dependency check when vulnerability scanning is on, the name
    /// check, the malware check when malware detection is on, and the network
    /// check, in that order.
    pub open spec fn spec_scan_findings(self, plugin_package: PluginPackage) -> Seq<FindingView> {
        (if self.config().enable_vulnerability_scanning {
            static_findings(plugin_package.wasm_binary@)
        } else {
            Seq::empty()
        }) + (if self.config().enable_vulnerability_scanning {
            findings_for_words(dangerous_dependencies(), plugin_package.metadata.id@, |d: Seq<char>| dependency_finding(d))
        } else {
            Seq::empty()
        }) + findings_for_words(suspicious_keywords(), lowercase(plugin_package.metadata.name@), |k: Seq<char>| permission_finding(k))
            + (if self.config().enable_malware_detection {
            malware_findings(self.patterns(), plugin_package.wasm_binary@)
        } else {
            Seq::empty()
        }) + match first_contained(network_keywords(), lowercase(plugin_package.metadata.description@)) {
            Some(k) => seq![network_finding(k)],
            None => Seq::<FindingView>::empty(),
        }
    }

    /// Scans `plugin_package`: the header check and dependency check when
    /// vulnerability scanning is on, the name check, the malware check when
    /// malware detection is on, and the network check, with their findings
    /// in that order and the rating they earn.
    pub fn scan_plugin(&self, plugin_package: &PluginPackage) -> (r: WasmResult<SecurityScanResult>)
        ensures
            r matches Ok(res) && view_findings(res.findings@) == self.spec_scan_findings(*plugin_package)
                && res.security_rating == rating_of(res.findings@) && res.stats.issues_found == res.findings@.len() as u32
                && res.stats.critical_issues == count_severity(res.findings@, SecuritySeverity::Critical) as u32
                && res.stats.files_scanned == (if self.config().enable_vulnerability_scanning { 1u32 } else { 0u32 }),
    {
        let started = system_now_millis();
        let scan_time = utc_now_millis();
        let mut findings: Vec<SecurityFinding> = Vec::new();
        let mut files_scanned: u32 = 0;
        if self.config.enable_vulnerability_scanning {
            let mut f = self.analyze_static_code(plugin_package.wasm_binary.as_slice());
            let ghost fv = f@;
            findings.append(&mut f);
            assert(view_findings(findings@) =~= view_findings(fv));
            files_scanned = files_scanned + 1;
        }
        let ghost v1 = view_findings(findings@);
        assert(v1 =~= if self.config().enable_vulnerability_scanning {
            static_findings(plugin_package.wasm_binary@)
        } else {
            Seq::empty()
        });
        if self.config.enable_vulnerability_scanning {
            let mut f = self.scan_dependencies(plugin_package.metadata.id.as_str());
            let ghost a = findings@;
            let ghost fv = f@;
            findings.append(&mut f);
            assert(view_findings(findings@) =~= view_findings(a) + view_findings(fv));
        }
        let ghost v2 = view_findings(findings@);
        let mut f = self.audit_permissions(&plugin_package.metadata);
        let ghost a3 = findings@;
        let ghost f3 = f@;
        findings.append(&mut f);
        assert(view_findings(findings@) =~= view_findings(a3) + view_findings(f3));
        if self.config.enable_malware_detection {
            let mut f = self.detect_malware(plugin_package.wasm_binary.as_slice());
            let ghost a = findings@;
            let ghost fv = f@;
            findings.append(&mut f);
            assert(view_findings(findings@) =~= view_findings(a) + view_findings(fv));
        }
        let mut f = self.analyze_network_behavior(&plugin_package.metadata);
        let ghost a5 = findings@;
        let ghost f5 = f@;
        findings.append(&mut f);
        assert(view_findings(findings@) =~= view_findings(a5) + view_findings(f5));
        let security_rating = self.calculate_security_rating(&findings);
        let critical_issues = self.count_critical(&findings);
        let finished = system_now_millis();
        let stats = SecurityScanStats {
            scan_duration_ms: if finished > started { finished - started } else { 0 },
            files_scanned,
            issues_found: findings.len() as u32,
            critical_issues,
        };
        Ok(SecurityScanResult { scan_time, security_rating, findings, stats })
    }

    /// The number of critical findings, narrowed to 32 bits.
    fn count_critical(&self, findings: &Vec<SecurityFinding>) -> (n: u32)
        ensures
            n == count_severity(findings@, SecuritySeverity::Critical) as u32,
    {
        let mut n: usize = 0;
        let mut i: usize = 0;
        while i < findings.len()
            invariant
                i <= findings@.len(),
                n == count_severity(findings@.subrange(0, i as int), SecuritySeverity::Critical),
                n <= i,
            decreases findings.len() - i,
        {
            assert(findings@.subrange(0, i + 1).drop_last() =~= findings@.subrange(0, i as int));
            if matches!(self.get_finding_severity(&findings[i]), SecuritySeverity::Critical) {
                n = n + 1;
            }
            i = i + 1;
        }
        assert(findings@.subrange(0, i as int) =~= findings@);
        n as u32
    }

    /// The findings of the header check.
    pub fn analyze_static_code(&self, wasm_binary: &[u8]) -> (r: Vec<SecurityFinding>)
        ensures
            view_findings(r@) == static_findings(wasm_binary@),
    {
        let mut findings: Vec<SecurityFinding> = Vec::new();
        if wasm_binary.len() < 8 {
            findings.push(SecurityFinding::MaliciousCode {
                pattern: String::from_str("invalid_wasm_header"),
                location: String::from_str("binary_header"),
                severity: SecuritySeverity::High,
            });
        }
        let ghost first = view_findings(findings@);
        if wasm_binary.len() >= 4 {
            let is_magic = wasm_binary[0] == 0u8 && wasm_binary[1] == 0x61u8 && wasm_binary[2] == 0x73u8
                && wasm_binary[3] == 0x6du8;
            assert(is_magic == (wasm_binary@.subrange(0, 4) =~= wasm_magic()));
            if !is_magic {
                findings.push(SecurityFinding::MaliciousCode {
                    pattern: String::from_str("invalid_wasm_magic"),
                    location: String::from_str("binary_header"),
                    severity: SecuritySeverity::Critical,
                });
            }
        }
        assert(view_findings(findings@) =~= static_findings(wasm_binary@));
        findings
    }

    /// One finding for each dangerous dependency name that `plugin_id`
    /// contains.
    pub fn scan_dependencies(&self, plugin_id: &str) -> (r: Vec<SecurityFinding>)
        ensures
            view_findings(r@) == findings_for_words(dangerous_dependencies(), plugin_id@, |d: Seq<char>| dependency_finding(d)),
    {
        let mut findings: Vec<SecurityFinding> = Vec::new();
        let deps: [&str; 2] = ["malicious-lib", "unsafe-crate"];
        let mut i: usize = 0;
        assert(deps@.map_values(|d: &str| d@) =~= dangerous_dependencies());
        while i < 2
            invariant
                i <= 2,
                deps@.map_values(|d: &str| d@) == dangerous_dependencies(),
                view_findings(findings@) == findings_for_words(
                    dangerous_dependencies().subrange(0, i as int),
                    plugin_id@,
                    |d: Seq<char>| dependency_finding(d),
                ),
            decreases 2 - i,
        {
            let dep = deps[i];
            assert(dep@ == dangerous_dependencies()[i as int]);
            assert(dangerous_dependencies().subrange(0, i + 1).drop_last() =~= dangerous_dependencies().subrange(0, i as int));
            let ghost before = findings@;
            if str_contains(plugin_id, dep) {
                findings.push(SecurityFinding::Vulnerability {
                    dependency: owned(dep),
                    version: String::from_str("unknown"),
                    cve_id: String::from_str("CVE-2024-XXXX"),
                    severity: SecuritySeverity::High,
                    description: concat("检测到危险依赖: ", dep),
                });
                assert(view_findings(findings@) =~= view_findings(before).push(dependency_finding(dep@)));
            } else {
                assert(view_findings(findings@) =~= view_findings(before));
            }
            i = i + 1;
        }
        assert(dangerous_dependencies().subrange(0, 2) =~= dangerous_dependencies());
        findings
    }

    /// One finding for each suspicious word that the lowercased name of the
    /// plugin contains.
    pub fn audit_permissions(&self, metadata: &PluginMetadata) -> (r: Vec<SecurityFinding>)
        ensures
            view_findings(r@) == findings_for_words(suspicious_keywords(), lowercase(metadata.name@), |k: Seq<char>| permission_finding(k)),
    {
        let name = to_lowercase(metadata.name.as_str());
        let mut findings: Vec<SecurityFinding> = Vec::new();
        let words: [&str; 4] = ["admin", "root", "system", "kernel"];
        let mut i: usize = 0;
        assert(words@.map_values(|d: &str| d@) =~= suspicious_keywords());
        while i < 4
            invariant
                i <= 4,
                name@ == lowercase(metadata.name@),
                words@.map_values(|d: &str| d@) == suspicious_keywords(),
                view_findings(findings@) == findings_for_words(
                    suspicious_keywords().subrange(0, i as int),
                    name@,
                    |k: Seq<char>| permission_finding(k),
                ),
            decreases 4 - i,
        {
            let kw = words[i];
            assert(kw@ == suspicious_keywords()[i as int]);
            assert(suspicious_keywords().subrange(0, i + 1).drop_last() =~= suspicious_keywords().subrange(0, i as int));
            let ghost before = findings@;
            if str_contains(name.as_str(), kw) {
                findings.push(SecurityFinding::PermissionAbuse {
                    permission: owned(kw),
                    reason: concat("插件名称包含可疑关键词: ", kw),
                    severity: SecuritySeverity::Medium,
                });
                assert(view_findings(findings@) =~= view_findings(before).push(permission_finding(kw@)));
            } else {
                assert(view_findings(findings@) =~= view_findings(before));
            }
            i = i + 1;
        }
        assert(suspicious_keywords().subrange(0, 4) =~= suspicious_keywords());
        findings
    }

    /// One finding for each malicious pattern whose rule occurs in the
    /// module's text.
    pub fn detect_malware(&self, wasm_binary: &[u8]) -> (r: Vec<SecurityFinding>)
        ensures
            view_findings(r@) == malware_findings(self.patterns(), wasm_binary@),
    {
        let mut findings: Vec<SecurityFinding> = Vec::new();
        let patterns = &self.malware_detector.malicious_patterns;
        let mut i: usize = 0;
        while i < patterns.len()
            invariant
                patterns@ == self.patterns(),
                i <= patterns@.len(),
                view_findings(findings@) == malware_findings(patterns@.subrange(0, i as int), wasm_binary@),
            decreases patterns.len() - i,
        {
            let p = &patterns[i];
            assert(patterns@.subrange(0, i + 1).drop_last() =~= patterns@.subrange(0, i as int));
            assert(patterns@.subrange(0, i + 1).last() == *p);
            let ghost before = findings@;
            if self.binary_contains_pattern(wasm_binary, p.rule.as_str()) {
                findings.push(SecurityFinding::MaliciousCode {
                    pattern: p.name.clone(),
                    location: String::from_str("wasm_binary"),
                    severity: p.severity,
                });
                assert(view_findings(findings@) =~= view_findings(before).push(FindingView::MaliciousCode {
                    pattern: p.name@,
                    location: "wasm_binary"@,
                    severity: p.severity,
                }));
            } else {
                assert(view_findings(findings@) =~= view_findings(before));
            }
            i = i + 1;
        }
        assert(patterns@.subrange(0, i as int) =~= patterns@);
        findings
    }

    /// A single finding for the first network word that the lowercased
    /// description contains, if any.
    pub fn analyze_network_behavior(&self, metadata: &PluginMetadata) -> (r: Vec<SecurityFinding>)
        ensures
            view_findings(r@) == match first_contained(network_keywords(), lowercase(metadata.description@)) {
                Some(k) => seq![network_finding(k)],
                None => Seq::<FindingView>::empty(),
            },
    {
        let desc = to_lowercase(metadata.description.as_str());
        let words: [&str; 5] = ["http", "tcp", "udp", "socket", "network"];
        assert(words@.map_values(|d: &str| d@) =~= network_keywords());
        assert(network_keywords().subrange(0, 5) =~= network_keywords());
        let mut i: usize = 0;
        while i < 5
            invariant
                i <= 5,
                desc@ == lowercase(metadata.description@),
                words@.map_values(|d: &str| d@) == network_keywords(),
                first_contained(network_keywords(), desc@) == first_contained(network_keywords().subrange(i as int, 5), desc@),
            decreases 5 - i,
        {
            let kw = words[i];
            assert(kw@ == network_keywords()[i as int]);
            let ghost rest = network_keywords().subrange(i as int, 5);
            assert(rest[0] == kw@);
            assert(rest.drop_first() =~= network_keywords().subrange(i + 1, 5));
            if str_contains(desc.as_str(), kw) {
                let mut findings: Vec<SecurityFinding> = Vec::new();
                findings.push(SecurityFinding::PermissionAbuse {
                    permission: String::from_str("network_access"),
                    reason: concat("插件可能进行网络访问: ", kw),
                    severity: SecuritySeverity::Low,
                });
                assert(view_findings(findings@) =~= seq![network_finding(kw@)]);
                return findings;
            }
            i = i + 1;
        }
        assert(network_keywords().subrange(5, 5).len() == 0);
        let findings: Vec<SecurityFinding> = Vec::new();
        assert(view_findings(findings@) =~= Seq::<FindingView>::empty());
        findings
    }

    /// The rating `findings` earn.
    pub fn calculate_security_rating(&self, findings: &Vec<SecurityFinding>) -> (r: SecurityRating)
        ensures
            r == rating_of(findings@),
    {
        let mut critical: usize = 0;
        let mut high: usize = 0;
        let mut medium: usize = 0;
        let mut low: usize = 0;
        let mut i: usize = 0;
        while i < findings.len()
            invariant
                i <= findings@.len(),
                critical == count_severity(findings@.subrange(0, i as int), SecuritySeverity::Critical),
                high == count_severity(findings@.subrange(0, i as int), SecuritySeverity::High),
                medium == count_severity(findings@.subrange(0, i as int), SecuritySeverity::Medium),
                low == count_severity(findings@.subrange(0, i as int), SecuritySeverity::Low),
                critical + high + medium + low == i,
            decreases findings.len() - i,
        {
            assert(findings@.subrange(0, i + 1).drop_last() =~= findings@.subrange(0, i as int));
            match self.get_finding_severity(&findings[i]) {
                SecuritySeverity::Critical => critical = critical + 1,
                SecuritySeverity::High => high = high + 1,
                SecuritySeverity::Medium => medium = medium + 1,
                SecuritySeverity::Low => low = low + 1,
            }
            i = i + 1;
        }
        assert(findings@.subrange(0, i as int) =~= findings@);
        if critical > 0 {
            SecurityRating::Critical
        } else if high > 0 {
            SecurityRating::High
        } else if medium > 2 {
            SecurityRating::Medium
        } else if medium > 0 || low > 5 {
            SecurityRating::Low
        } else {
            SecurityRating::Safe
        }
    }

    /// The severity of a finding.
    pub fn get_finding_severity<'a>(&self, finding: &'a SecurityFinding) -> (s: &'a SecuritySeverity)
        ensures
            *s == severity_of(*finding),
    {
        match finding {
            SecurityFinding::DangerousImport { severity, .. } => severity,
            SecurityFinding::UnexpectedExport { severity, .. } => severity,
            SecurityFinding::Vulnerability { severity, .. } => severity,
            SecurityFinding::PermissionAbuse { severity, .. } => severity,
            SecurityFinding::MaliciousCode { severity, .. } => severity,
        }
    }

    /// Whether the module, decoded as UTF-8 with invalid bytes replaced,
    /// contains `pattern`.
    pub fn binary_contains_pattern(&self, binary: &[u8], pattern: &str) -> (b: bool)
        ensures
            b == seq_contains(utf8_lossy(binary@), pattern@),
    {
        let text = decode_lossy(binary);
        str_contains(text.as_str(), pattern)
    }
}

} // verus!
