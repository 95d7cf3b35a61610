//! Quality scoring of plugin packages: the analyzers, and the kind and
//! wording of the advice given for a weak component.

use vstd::prelude::*;
use crate::marketplace::types::{PluginPackage, RecommendationType};
use crate::text::{contains_str, lowercase, seq_contains, str_contains, str_eq, string_views, to_lowercase};
use crate::wasm_error::WasmResult;

verus! {

/// Judges code structure.
#[derive(Debug, Clone, Copy)]
pub struct CodeQualityAnalyzer;

/// Judges resource use.
#[derive(Debug, Clone, Copy)]
pub struct PerformanceAnalyzer;

/// Judges documentation.
#[derive(Debug, Clone, Copy)]
pub struct DocumentationAnalyzer;

/// Judges test coverage.
#[derive(Debug, Clone, Copy)]
pub struct TestCoverageAnalyzer;

/// The grade a plugin's quality earns.
#[derive(Debug, Clone, Copy, PartialEq, Eq, Structural)]
pub enum QualityGrade {
    Excellent,
    Good,
    Fair,
    Poor,
    Failing,
}

/// Scores plugin packages.
#[derive(Debug, Clone, Copy)]
pub struct PluginQualityScorer {
    pub code_analyzer: CodeQualityAnalyzer,
    pub performance_analyzer: PerformanceAnalyzer,
    pub documentation_analyzer: DocumentationAnalyzer,
    pub test_analyzer: TestCoverageAnalyzer,
}

/// The kind of advice for the component named `component`.
pub open spec fn recommendation_type_for(component: Seq<char>) -> RecommendationType {
    if component == "code_quality"@ {
        RecommendationType::CodeQuality
    } else if component == "performance"@ {
        RecommendationType::Performance
    } else if component == "documentation"@ {
        RecommendationType::Documentation
    } else if component == "test_coverage"@ {
        RecommendationType::Testing
    } else if component == "security"@ {
        RecommendationType::Security
    } else {
        RecommendationType::CodeQuality
    }
}

/// The advice given for a weak component named `component`.
pub open spec fn advice_for(component: Seq<char>) -> Seq<char> {
    if component == "code_quality"@ {
        "建议优化代码结构，减少复杂度"@
    } else if component == "performance"@ {
        "建议优化性能，减少资源使用"@
    } else if component == "documentation"@ {
        "建议完善文档，添加使用示例"@
    } else if component == "test_coverage"@ {
        "建议增加测试覆盖率"@
    } else if component == "security"@ {
        "建议加强安全措施"@
    } else {
        "建议改进此组件"@
    }
}

/// How many bytes UTF-8 takes for `s`, as `str::len` reports it.
pub open spec fn byte_len(s: Seq<char>) -> usize {
    vstd::utf8::encode_utf8(s).len() as usize
}

/// `x` kept within 0 to 100.
pub open spec fn clamp_points(x: int) -> int {
    if x < 0 {
        0
    } else if x > 100 {
        100
    } else {
        x
    }
}

/// The code quality points of a package: 100, less 10 for a binary over
/// 1 MiB, 5 for a description under 50 bytes, 5 for no keyword, 5 for an
/// empty changelog.
pub open spec fn code_quality_points(p: PluginPackage) -> int {
    clamp_points(
        100 - (if p.wasm_binary@.len() > 1048576 { 10int } else { 0 })
            - (if byte_len(p.metadata.description@) < 50 { 5int } else { 0 })
            - (if p.metadata.keywords@.len() == 0 { 5int } else { 0 })
            - (if p.version.changelog@.len() == 0 { 5int } else { 0 }),
    )
}

/// The performance points of a package: 100, less 5, 15 or 25 as the binary
/// passes 100 KiB, 500 KB and 1 MiB, plus 5 when it is tagged
/// `performance`.
pub open spec fn performance_points(p: PluginPackage) -> int {
    let n = p.wasm_binary@.len();
    clamp_points(
        100 - (if n <= 102400 { 0int } else if n <= 512000 { 5 } else if n <= 1048576 { 15 } else { 25 })
            + (if string_views(p.metadata.keywords@).contains("performance"@) { 5int } else { 0 }),
    )
}

/// The documentation points of a package: 40 for a readme and 10 more when
/// it passes 500 bytes; 15, 25 or 30 as the description passes 20, 100 and
/// 300 bytes; 10 for keywords, 10 for categories, 5 for the author's email,
/// 10 for a homepage or repository.
pub open spec fn documentation_points(p: PluginPackage) -> int {
    let d = byte_len(p.metadata.description@);
    clamp_points(
        (match p.readme {
            Some(r) => 40 + (if byte_len(r@) > 500 { 10int } else { 0 }),
            None => 0int,
        }) + (if d <= 20 { 0int } else if d <= 100 { 15 } else if d <= 300 { 25 } else { 30 })
            + (if p.metadata.keywords@.len() > 0 { 10int } else { 0 })
            + (if p.metadata.categories@.len() > 0 { 10int } else { 0 })
            + (if p.metadata.author_email is Some { 5int } else { 0 })
            + (if p.metadata.homepage is Some || p.metadata.repository is Some { 10int } else { 0 }),
    )
}

/// The test coverage points of a package: 50, plus 30 when it is tagged
/// `tested`, plus 20 when its description mentions "test" in any case.
pub open spec fn test_coverage_points(p: PluginPackage) -> int {
    clamp_points(
        50 + (if string_views(p.metadata.keywords@).contains("tested"@) { 30int } else { 0 })
            + (if seq_contains(lowercase(p.metadata.description@), "test"@) { 20int } else { 0 }),
    )
}

/// Whether a binary starts with the WebAssembly magic number.
pub open spec fn has_magic(b: Seq<u8>) -> bool {
    b.len() >= 4 && b[0] == 0u8 && b[1] == 0x61u8 && b[2] == 0x73u8 && b[3] == 0x6du8
}

/// The security points of a package: 100, less 50 for a binary under 8
/// bytes or else 30 without the WebAssembly magic number, plus 5 for a
/// licence file and 5 for the author's email.
pub open spec fn security_points(p: PluginPackage) -> int {
    clamp_points(
        100 - (if p.wasm_binary@.len() < 8 { 50int } else if !has_magic(p.wasm_binary@) { 30 } else { 0 })
            + (if p.license_file is Some { 5int } else { 0 })
            + (if p.metadata.author_email is Some { 5int } else { 0 }),
    )
}

/// The points of each component of a package's quality, out of 100.
#[derive(Debug, Clone, Copy, PartialEq, Eq, Structural)]
pub struct QualityPoints {
    pub code_quality: u32,
    pub performance: u32,
    pub documentation: u32,
    pub test_coverage: u32,
    pub security: u32,
}

fn clamp_exec(x: i64) -> (r: u32)
    ensures
        r == clamp_points(x as int),
{
    if x < 0 {
        0
    } else if x > 100 {
        100
    } else {
        x as u32
    }
}

impl PluginQualityScorer {
    /// A scorer with its four analyzers.
    pub fn new() -> (r: WasmResult<Self>)
        ensures
            r is Ok,
    {
        Ok(PluginQualityScorer {
            code_analyzer: CodeQualityAnalyzer,
            performance_analyzer: PerformanceAnalyzer,
            documentation_analyzer: DocumentationAnalyzer,
            test_analyzer: TestCoverageAnalyzer,
        })
    }

    /// The code quality points of `plugin_package`.
    pub fn analyze_code_quality(&self, plugin_package: &PluginPackage) -> (r: WasmResult<u32>)
        ensures
            r matches Ok(x) && x == code_quality_points(*plugin_package),
    {
        let mut score: i64 = 100;
        if plugin_package.wasm_binary.len() > 1024 * 1024 {
            score = score - 10;
        }
        if plugin_package.metadata.description.as_str().len() < 50 {
            score = score - 5;
        }
        if plugin_package.metadata.keywords.len() == 0 {
            score = score - 5;
        }
        if plugin_package.version.changelog.as_str().unicode_len() == 0 {
            score = score - 5;
        }
        Ok(clamp_exec(score))
    }

    /// The performance points of `plugin_package`.
    pub fn analyze_performance(&self, plugin_package: &PluginPackage) -> (r: WasmResult<u32>)
        ensures
            r matches Ok(x) && x == performance_points(*plugin_package),
    {
        let mut score: i64 = 100;
        let binary_size = plugin_package.wasm_binary.len();
        if binary_size <= 102400 {
        } else if binary_size <= 512000 {
            score = score - 5;
        } else if binary_size <= 1048576 {
            score = score - 15;
        } else {
            score = score - 25;
        }
        if contains_str(&plugin_package.metadata.keywords, "performance") {
            score = score + 5;
        }
        proof {
            reveal_strlit("performance");
        }
        Ok(clamp_exec(score))
    }

    /// The documentation points of `plugin_package`.
    pub fn analyze_documentation(&self, plugin_package: &PluginPackage) -> (r: WasmResult<u32>)
        ensures
            r matches Ok(x) && x == documentation_points(*plugin_package),
    {
        let mut score: i64 = 0;
        match &plugin_package.readme {
            Some(readme) => {
                score = score + 40;
                if readme.as_str().len() > 500 {
                    score = score + 10;
                }
            },
            None => {},
        }
        let desc_len = plugin_package.metadata.description.as_str().len();
        if desc_len <= 20 {
        } else if desc_len <= 100 {
            score = score + 15;
        } else if desc_len <= 300 {
            score = score + 25;
        } else {
            score = score + 30;
        }
        if plugin_package.metadata.keywords.len() > 0 {
            score = score + 10;
        }
        if plugin_package.metadata.categories.len() > 0 {
            score = score + 10;
        }
        if plugin_package.metadata.author_email.is_some() {
            score = score + 5;
        }
        if plugin_package.metadata.homepage.is_some() || plugin_package.metadata.repository.is_some() {
            score = score + 10;
        }
        Ok(clamp_exec(score))
    }

    /// The test coverage points of `plugin_package`.
    pub fn analyze_test_coverage(&self, plugin_package: &PluginPackage) -> (r: WasmResult<u32>)
        ensures
            r matches Ok(x) && x == test_coverage_points(*plugin_package),
    {
        let mut score: i64 = 50;
        if contains_str(&plugin_package.metadata.keywords, "tested") {
            score = score + 30;
        }
        let lower = to_lowercase(plugin_package.metadata.description.as_str());
        if str_contains(lower.as_str(), "test") {
            score = score + 20;
        }
        proof {
            reveal_strlit("tested");
            reveal_strlit("test");
        }
        Ok(clamp_exec(score))
    }

    /// The security points of `plugin_package`.
    pub fn analyze_security(&self, plugin_package: &PluginPackage) -> (r: WasmResult<u32>)
        ensures
            r matches Ok(x) && x == security_points(*plugin_package),
    {
        let mut score: i64 = 100;
        let b = &plugin_package.wasm_binary;
        if b.len() < 8 {
            score = score - 50;
        } else if !(b[0] == 0u8 && b[1] == 0x61u8 && b[2] == 0x73u8 && b[3] == 0x6du8) {
            score = score - 30;
        }
        if plugin_package.license_file.is_some() {
            score = score + 5;
        }
        if plugin_package.metadata.author_email.is_some() {
            score = score + 5;
        }
        Ok(clamp_exec(score))
    }

    /// The points of each component of `plugin_package`'s quality.
    pub fn component_points(&self, plugin_package: &PluginPackage) -> (r: WasmResult<QualityPoints>)
        ensures
            r matches Ok(q) && q.code_quality == code_quality_points(*plugin_package)
                && q.performance == performance_points(*plugin_package)
                && q.documentation == documentation_points(*plugin_package)
                && q.test_coverage == test_coverage_points(*plugin_package)
                && q.security == security_points(*plugin_package),
    {
        let code_quality = match self.analyze_code_quality(plugin_package) {
            Ok(x) => x,
            Err(e) => return Err(e),
        };
        let performance = match self.analyze_performance(plugin_package) {
            Ok(x) => x,
            Err(e) => return Err(e),
        };
        let documentation = match self.analyze_documentation(plugin_package) {
            Ok(x) => x,
            Err(e) => return Err(e),
        };
        let test_coverage = match self.analyze_test_coverage(plugin_package) {
            Ok(x) => x,
            Err(e) => return Err(e),
        };
        let security = match self.analyze_security(plugin_package) {
            Ok(x) => x,
            Err(e) => return Err(e),
        };
        Ok(QualityPoints { code_quality, performance, documentation, test_coverage, security })
    }

    /// The kind of advice for the component named `component`; code quality
    /// for a name it does not know.
    pub fn get_recommendation_type(&self, component: &str) -> (t: RecommendationType)
        ensures
            t == recommendation_type_for(component@),
    {
        if str_eq(component, "code_quality") {
            RecommendationType::CodeQuality
        } else if str_eq(component, "performance") {
            RecommendationType::Performance
        } else if str_eq(component, "documentation") {
            RecommendationType::Documentation
        } else if str_eq(component, "test_coverage") {
            RecommendationType::Testing
        } else if str_eq(component, "security") {
            RecommendationType::Security
        } else {
            RecommendationType::CodeQuality
        }
    }

    /// The advice given for a weak component named `component`.
    pub fn component_advice(&self, component: &str) -> (m: &'static str)
        ensures
            m@ == advice_for(component@),
    {
        if str_eq(component, "code_quality") {
            "建议优化代码结构，减少复杂度"
        } else if str_eq(component, "performance") {
            "建议优化性能，减少资源使用"
        } else if str_eq(component, "documentation") {
            "建议完善文档，添加使用示例"
        } else if str_eq(component, "test_coverage") {
            "建议增加测试覆盖率"
        } else if str_eq(component, "security") {
            "建议加强安全措施"
        } else {
            "建议改进此组件"
        }
    }
}

} // verus!
