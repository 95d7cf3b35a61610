//! Plugin development tools: project and build configuration, templates,
//! the build and optimisation steps to run, breakpoints and debug sessions,
//! test tallies, and the statistics of benchmark runs.
//!
//! Durations are counted in nanoseconds. Running the compiler, timing and
//! sleeping are left to the caller, which hands the measurements back.

use vstd::prelude::*;
use crate::clock::{system_now_millis, utc_now_secs, DURATION_MAX_NANOS};
use crate::keyed::KeyedList;
use crate::text::{concat, decimal_text, i64_to_string, join_path, owned, path_joined, replace_all, replaced, str_eq, string_views};
use crate::wasm_error::{WasmError, WasmResult};

verus! {

/// How hard the build optimises.
#[derive(Debug, Clone, Copy, PartialEq, Eq, Structural)]
pub enum OptimizationLevel {
    /// No optimisation.
    NoOptimization,
    Basic,
    Full,
    Size,
}

/// How a plugin is built. Directories are paths given as text.
#[derive(Debug, Clone)]
pub struct BuildConfig {
    pub target: String,
    pub optimization: OptimizationLevel,
    pub debug_info: bool,
    pub output_dir: String,
    pub source_dir: String,
    pub dependencies: Vec<String>,
}

/// Whether `c` is the default build of the project at `root`: a WASI build
/// with basic optimisation and debug information, writing to
/// `target/wasm32-wasi/release` and reading `src` under `root`, with no
/// dependencies.
pub open spec fn is_default_build(c: BuildConfig, root: Seq<char>) -> bool {
    &&& c.target@ == "wasm32-wasi"@
    &&& c.optimization == OptimizationLevel::Basic
    &&& c.debug_info
    &&& c.output_dir@ == path_joined(root, "target/wasm32-wasi/release"@)
    &&& c.source_dir@ == path_joined(root, "src"@)
    &&& c.dependencies@.len() == 0
}

impl BuildConfig {
    /// A WASI build with basic optimisation and debug information, writing
    /// to `target/wasm32-wasi/release` and reading `src` under `project_root`.
    pub fn default(project_root: &str) -> (c: Self)
        ensures
            is_default_build(c, project_root@),
    {
        BuildConfig {
            target: String::from_str("wasm32-wasi"),
            optimization: OptimizationLevel::Basic,
            debug_info: true,
            output_dir: join_path(project_root, "target/wasm32-wasi/release"),
            source_dir: join_path(project_root, "src"),
            dependencies: Vec::new(),
        }
    }
}

/// How a plugin's tests are run.
#[derive(Debug, Clone)]
pub struct TestConfig {
    pub test_data_dir: String,
    /// Nanoseconds a test may take.
    pub timeout: u128,
    pub parallel_tests: usize,
    pub coverage: bool,
}

/// Whether `c` is the default test configuration of the project at
/// `root`: test data under `test_data`, 30 s per test, 4 in parallel, no
/// coverage.
pub open spec fn is_default_tests(c: TestConfig, root: Seq<char>) -> bool {
    &&& c.test_data_dir@ == path_joined(root, "test_data"@)
    &&& c.timeout == 30_000_000_000
    &&& c.parallel_tests == 4
    &&& !c.coverage
}

impl TestConfig {
    /// Test data under `test_data`, 30 s per test, 4 in parallel, no coverage.
    pub fn default(project_root: &str) -> (c: Self)
        ensures
            is_default_tests(c, project_root@),
    {
        TestConfig {
            test_data_dir: join_path(project_root, "test_data"),
            timeout: 30_000_000_000,
            parallel_tests: 4,
            coverage: false,
        }
    }
}

/// The state of a debug session.
#[derive(Debug, Clone)]
pub enum DebugState {
    Running,
    Paused,
    Stopped,
    Error(String),
}

/// A frame of a plugin's call stack.
#[derive(Debug, Clone)]
pub struct StackFrame {
    pub function_name: String,
    pub file_name: String,
    pub line_number: u32,
    pub local_variables: KeyedList<String>,
}

/// A debugging session.
#[derive(Debug, Clone)]
pub struct DebugSession {
    pub session_id: String,
    /// Milliseconds on the system clock when the session started.
    pub start_time: u64,
    pub state: DebugState,
    pub call_stack: Vec<StackFrame>,
}

/// How much a debugger logs.
#[derive(Debug, Clone, Copy, PartialEq, Eq, Structural)]
pub enum LogLevel {
    Error,
    Warn,
    Info,
    Debug,
    Trace,
}

/// Breakpoints by file, and the current debug session.
#[derive(Debug)]
pub struct PluginDebugger {
    breakpoints: KeyedList<Vec<u32>>,
    debug_session: Option<DebugSession>,
    log_level: LogLevel,
}

impl PluginDebugger {
    /// The breakpoints are kept under distinct file names.
    pub closed spec fn wf(self) -> bool {
        self.breakpoints.wf()
    }

    /// The breakpoint lines of each file, in the order they were set.
    pub closed spec fn breakpoint_lines(self) -> Map<Seq<char>, Seq<u32>> {
        self.breakpoints.map().map_values(|lines: Vec<u32>| lines@)
    }

    /// The current debug session.
    pub closed spec fn session(self) -> Option<DebugSession> {
        self.debug_session
    }

    /// The log level.
    pub closed spec fn level(self) -> LogLevel {
        self.log_level
    }

    /// A debugger with no breakpoint and no session, logging at `Info`.
    pub fn new() -> (d: Self)
        ensures
            d.wf(),
            d.breakpoint_lines() == Map::<Seq<char>, Seq<u32>>::empty(),
            d.session() is None,
            d.level() == LogLevel::Info,
    {
        let d = PluginDebugger { breakpoints: KeyedList::new(), debug_session: None, log_level: LogLevel::Info };
        assert(d.breakpoint_lines() =~= Map::<Seq<char>, Seq<u32>>::empty());
        d
    }

    /// Adds a breakpoint at `line` of `file`, after those already set there.
    pub fn add_breakpoint(&mut self, file: &str, line: u32)
        requires
            old(self).wf(),
        ensures
            final(self).wf(),
            final(self).session() == old(self).session(),
            final(self).level() == old(self).level(),
            final(self).breakpoint_lines() == old(self).breakpoint_lines().insert(
                file@,
                if old(self).breakpoint_lines().contains_key(file@) {
                    old(self).breakpoint_lines()[file@].push(line)
                } else {
                    seq![line]
                },
            ),
    {
        let mut lines: Vec<u32> = match self.breakpoints.remove(file) {
            Some(v) => v,
            None => Vec::new(),
        };
        lines.push(line);
        self.breakpoints.insert(owned(file), lines);
        assert(self.breakpoint_lines() =~= old(self).breakpoint_lines().insert(
            file@,
            if old(self).breakpoint_lines().contains_key(file@) {
                old(self).breakpoint_lines()[file@].push(line)
            } else {
                seq![line]
            },
        ));
    }

    /// Replaces the current session.
    pub fn set_session(&mut self, session: DebugSession)
        requires
            old(self).wf(),
        ensures
            final(self).wf(),
            final(self).session() == Some(session),
            final(self).breakpoint_lines() == old(self).breakpoint_lines(),
            final(self).level() == old(self).level(),
    {
        self.debug_session = Some(session);
    }
}

impl Default for PluginDebugger {
    fn default() -> (d: Self)
        ensures
            d.wf(),
            d.session() is None,
    {
        PluginDebugger::new()
    }
}

/// The kind of plugin a template produces.
#[derive(Debug, Clone, Copy, PartialEq, Eq, Structural)]
pub enum TemplateType {
    Basic,
    Processor,
    Source,
    Destination,
    Transformer,
    Filter,
    Aggregator,
}

/// A file of a template; a template file has `{{plugin_name}}` filled in.
#[derive(Debug, Clone)]
pub struct TemplateFile {
    pub path: String,
    pub content: String,
    pub is_template: bool,
}

/// A plugin project template.
#[derive(Debug, Clone)]
pub struct PluginTemplate {
    pub name: String,
    pub description: String,
    pub template_type: TemplateType,
    pub files: Vec<TemplateFile>,
    pub dependencies: Vec<String>,
}

/// The placeholder a template file uses for the plugin's name.
pub open spec fn name_placeholder() -> Seq<char> {
    "{{plugin_name}}"@
}

/// The content written for `file` of a plugin named `plugin_name`.
pub open spec fn rendered_content(file: TemplateFile, plugin_name: Seq<char>) -> Seq<char> {
    if file.is_template {
        replaced(file.content@, name_placeholder(), plugin_name)
    } else {
        file.content@
    }
}

/// A cargo build to run: its arguments, the `RUSTFLAGS` to set if any, and
/// the profile directory its output lands in.
#[derive(Debug, Clone)]
pub struct CargoBuild {
    pub args: Vec<String>,
    pub rustflags: Option<String>,
    pub profile_dir: String,
}

/// A benchmark to run.
#[derive(Debug, Clone)]
pub struct Benchmark {
    pub name: String,
    pub description: String,
    pub data_size: usize,
    pub iterations: usize,
}

/// Response-time percentiles, in nanoseconds.
#[derive(Debug, Clone, Copy, PartialEq, Eq)]
pub struct PercentileStats {
    pub p50: u128,
    pub p90: u128,
    pub p95: u128,
    pub p99: u128,
    pub p999: u128,
}

/// The configuration of an extended benchmark run.
#[derive(Debug, Clone)]
pub struct AdvancedBenchmarkConfig {
    pub custom_benchmarks: Vec<Benchmark>,
    pub enable_concurrency_tests: bool,
    pub enable_memory_stress_tests: bool,
    pub concurrency_threads: usize,
    pub memory_stress_size: usize,
    /// Nanoseconds the whole run may take.
    pub test_timeout: u128,
}

/// The grade a benchmark run earns.
#[derive(Debug, Clone, Copy, PartialEq, Eq, Structural)]
pub enum PerformanceGrade {
    Excellent,
    Good,
    Fair,
    Poor,
    Failing,
}

/// The integer statistics of a benchmark run; times in nanoseconds.
#[derive(Debug, Clone)]
pub struct BenchmarkCounts {
    pub name: String,
    pub avg_time: u128,
    pub min_time: u128,
    pub max_time: u128,
    pub memory_usage: u64,
    pub percentiles: PercentileStats,
    pub total_iterations: usize,
    pub successful_iterations: usize,
    pub failed_iterations: usize,
    pub avg_memory_allocations: u64,
    pub peak_memory_usage: u64,
    pub gc_count: u32,
}

/// The outcome of one test.
#[derive(Debug, Clone)]
pub struct TestResult {
    pub name: String,
    pub passed: bool,
    /// Nanoseconds the test took.
    pub duration: u128,
    pub error: Option<String>,
}

/// The outcomes of a test run.
#[derive(Debug, Clone)]
pub struct TestResults {
    pub tests: Vec<TestResult>,
    /// Nanoseconds the run took.
    pub total_time: u128,
}

/// How many tests in `tests` passed.
pub open spec fn count_passed(tests: Seq<TestResult>) -> nat
    decreases tests.len(),
{
    if tests.len() == 0 {
        0
    } else {
        count_passed(tests.drop_last()) + if tests.last().passed { 1nat } else { 0nat }
    }
}

/// How many tests in `tests` failed.
pub open spec fn count_failed(tests: Seq<TestResult>) -> nat
    decreases tests.len(),
{
    if tests.len() == 0 {
        0
    } else {
        count_failed(tests.drop_last()) + if tests.last().passed { 0nat } else { 1nat }
    }
}

/// Every test either passed or failed.
pub proof fn lemma_passed_plus_failed(tests: Seq<TestResult>)
    ensures
        count_passed(tests) + count_failed(tests) == tests.len(),
    decreases tests.len(),
{
    if tests.len() > 0 {
        lemma_passed_plus_failed(tests.drop_last());
    }
}

impl TestResults {
    /// No test yet, and no time.
    pub fn new() -> (r: Self)
        ensures
            r.tests@.len() == 0,
            r.total_time == 0,
    {
        TestResults { tests: Vec::new(), total_time: 0 }
    }

    /// Records a test with no error message.
    pub fn add_test(&mut self, name: &str, passed: bool, duration: u128)
        ensures
            final(self).tests@.len() == old(self).tests@.len() + 1,
            final(self).tests@.drop_last() == old(self).tests@,
            final(self).tests@.last().name@ == name@,
            final(self).tests@.last().passed == passed,
            final(self).tests@.last().duration == duration,
            final(self).tests@.last().error is None,
            final(self).total_time == old(self).total_time,
    {
        self.tests.push(TestResult { name: owned(name), passed, duration, error: None });
        assert(self.tests@.drop_last() =~= old(self).tests@);
    }

    /// The number of tests that passed.
    pub fn passed_count(&self) -> (n: usize)
        ensures
            n == count_passed(self.tests@),
    {
        let mut n: usize = 0;
        let mut i: usize = 0;
        while i < self.tests.len()
            invariant
                i <= self.tests@.len(),
                n == count_passed(self.tests@.subrange(0, i as int)),
                n <= i,
            decreases self.tests.len() - i,
        {
            assert(self.tests@.subrange(0, i + 1).drop_last() =~= self.tests@.subrange(0, i as int));
            if self.tests[i].passed {
                n = n + 1;
            }
            i = i + 1;
        }
        assert(self.tests@.subrange(0, i as int) =~= self.tests@);
        n
    }

    /// The number of tests that failed.
    pub fn failed_count(&self) -> (n: usize)
        ensures
            n == count_failed(self.tests@),
    {
        let mut n: usize = 0;
        let mut i: usize = 0;
        while i < self.tests.len()
            invariant
                i <= self.tests@.len(),
                n == count_failed(self.tests@.subrange(0, i as int)),
                n <= i,
            decreases self.tests.len() - i,
        {
            assert(self.tests@.subrange(0, i + 1).drop_last() =~= self.tests@.subrange(0, i as int));
            if !self.tests[i].passed {
                n = n + 1;
            }
            i = i + 1;
        }
        assert(self.tests@.subrange(0, i as int) =~= self.tests@);
        n
    }
}

impl Default for TestResults {
    fn default() -> (r: Self)
        ensures
            r.tests@.len() == 0,
            r.total_time == 0,
    {
        TestResults::new()
    }
}

/// Whether a path exists on disk, through `std::path::Path::exists`.
/// Nothing is promised of the answer: it depends on the file system.
#[verifier::external_body]
pub(crate) fn path_exists(path: &str) -> bool {
    std::path::Path::new(path).exists()
}

/// Development tools rooted at a project directory.
#[derive(Debug)]
pub struct PluginDevTools {
    project_root: String,
    build_config: BuildConfig,
    test_config: TestConfig,
    debugger: PluginDebugger,
}

impl PluginDevTools {
    /// The debugger's breakpoints are kept under distinct file names.
    pub closed spec fn wf(self) -> bool {
        self.debugger.wf()
    }

    /// The project directory.
    pub closed spec fn root(self) -> Seq<char> {
        self.project_root@
    }

    /// The build configuration.
    pub closed spec fn build(self) -> BuildConfig {
        self.build_config
    }

    /// The test configuration.
    pub closed spec fn tests(self) -> TestConfig {
        self.test_config
    }

    /// The debugger.
    pub closed spec fn debug(self) -> PluginDebugger {
        self.debugger
    }

    /// Tools for the project at `project_root`, which must exist.
    pub fn new(project_root: &str) -> (r: WasmResult<Self>)
        ensures
            match r {
                Ok(t) => t.wf() && t.root() == project_root@ && is_default_build(t.build(), project_root@)
                    && is_default_tests(t.tests(), project_root@) && t.debug().session() is None
                    && t.debug().breakpoint_lines() == Map::<Seq<char>, Seq<u32>>::empty(),
                Err(e) => e matches WasmError::Runtime(m) && m@ == "项目目录不存在: "@ + project_root@,
            },
    {
        let exists = path_exists(project_root);
        Self::with_checked_root(project_root, exists)
    }

    /// Tools for the project at `project_root`, given whether that directory
    /// exists: an error when it does not, else the default build and test
    /// configuration for it and a fresh debugger.
    pub fn with_checked_root(project_root: &str, root_exists: bool) -> (r: WasmResult<Self>)
        ensures
            !root_exists ==> (r matches Err(WasmError::Runtime(m)) && m@ == "项目目录不存在: "@ + project_root@),
            root_exists ==> (r matches Ok(t) && t.wf() && t.root() == project_root@
                && is_default_build(t.build(), project_root@)
                && is_default_tests(t.tests(), project_root@)
                && t.debug().session() is None
                && t.debug().breakpoint_lines() == Map::<Seq<char>, Seq<u32>>::empty()),
    {
        if !root_exists {
            return Err(WasmError::Runtime(concat("项目目录不存在: ", project_root)));
        }
        Ok(PluginDevTools {
            project_root: owned(project_root),
            build_config: BuildConfig::default(project_root),
            test_config: TestConfig::default(project_root),
            debugger: PluginDebugger::new(),
        })
    }

    /// The project directory.
    pub fn project_root(&self) -> (r: &str)
        ensures
            r@ == self.root(),
    {
        self.project_root.as_str()
    }

    /// The build configuration.
    pub fn build_config(&self) -> (c: &BuildConfig)
        ensures
            *c == self.build(),
    {
        &self.build_config
    }

    /// The test configuration.
    pub fn test_config(&self) -> (c: &TestConfig)
        ensures
            *c == self.tests(),
    {
        &self.test_config
    }

    /// The debugger.
    pub fn debugger(&self) -> (d: &PluginDebugger)
        ensures
            *d == self.debug(),
    {
        &self.debugger
    }

    /// Starts a running debug session for `plugin_name`, replacing any other,
    /// and returns its identifier `debug_<name>_<seconds since the epoch>`.
    pub fn start_debug_session(&mut self, plugin_name: &str) -> (r: WasmResult<String>)
        requires
            old(self).wf(),
        ensures
            final(self).wf(),
            r matches Ok(id) && exists|secs: i64| id@ == "debug_"@ + plugin_name@ + "_"@ + decimal_text(secs),
            final(self).debug().session() matches Some(s) && (r matches Ok(id) && s.session_id@ == id@)
                && s.state is Running && s.call_stack@.len() == 0,
            final(self).debug().breakpoint_lines() == old(self).debug().breakpoint_lines(),
            final(self).root() == old(self).root(),
            final(self).build() == old(self).build(),
            final(self).tests() == old(self).tests(),
    {
        let secs = utc_now_secs();
        let head = concat("debug_", plugin_name);
        let head2 = concat(head.as_str(), "_");
        let stamp = i64_to_string(secs);
        let session_id = concat(head2.as_str(), stamp.as_str());
        let session = DebugSession {
            session_id: session_id.clone(),
            start_time: system_now_millis(),
            state: DebugState::Running,
            call_stack: Vec::new(),
        };
        self.debugger.set_session(session);
        Ok(session_id)
    }

    /// Sets a breakpoint at `line` of `file`.
    pub fn set_breakpoint(&mut self, file: &str, line: u32) -> (r: WasmResult<()>)
        requires
            old(self).wf(),
        ensures
            r is Ok,
            final(self).wf(),
            final(self).debug().breakpoint_lines() == old(self).debug().breakpoint_lines().insert(
                file@,
                if old(self).debug().breakpoint_lines().contains_key(file@) {
                    old(self).debug().breakpoint_lines()[file@].push(line)
                } else {
                    seq![line]
                },
            ),
            final(self).debug().session() == old(self).debug().session(),
            final(self).root() == old(self).root(),
            final(self).build() == old(self).build(),
            final(self).tests() == old(self).tests(),
    {
        self.debugger.add_breakpoint(file, line);
        Ok(())
    }

    /// The template of `template_type`: the basic one, whose library source
    /// and manifest are the template files shipped with the tools, or the
    /// processor one; other kinds have none.
    pub fn get_template(&self, template_type: TemplateType, basic_lib_source: &str, basic_manifest: &str) -> (r: WasmResult<PluginTemplate>)
        ensures
            template_type == TemplateType::Basic ==> (r matches Ok(t) && t.template_type == TemplateType::Basic
                && t.files@.len() == 2 && t.files@[0].content@ == basic_lib_source@
                && t.files@[1].content@ == basic_manifest@),
            template_type == TemplateType::Processor ==> (r matches Ok(t) && t.template_type
                == TemplateType::Processor && t.files@.len() == 1),
            !(template_type == TemplateType::Basic || template_type == TemplateType::Processor) ==> (r matches Err(
                WasmError::Runtime(m),
            ) && m@ == "不支持的模板类型"@),
    {
        match template_type {
            TemplateType::Basic => Ok(self.create_basic_template(basic_lib_source, basic_manifest)),
            TemplateType::Processor => Ok(self.create_processor_template()),
            _ => Err(WasmError::Runtime(String::from_str("不支持的模板类型"))),
        }
    }

    /// The basic template: `src/lib.rs` and `Cargo.toml`, both filled in with
    /// the plugin's name, depending on `wasmtime` and `serde`.
    pub fn create_basic_template(&self, basic_lib_source: &str, basic_manifest: &str) -> (t: PluginTemplate)
        ensures
            t.name@ == "basic"@,
            t.template_type == TemplateType::Basic,
            t.files@.len() == 2,
            t.files@[0].path@ == "src/lib.rs"@ && t.files@[0].content@ == basic_lib_source@ && t.files@[0].is_template,
            t.files@[1].path@ == "Cargo.toml"@ && t.files@[1].content@ == basic_manifest@ && t.files@[1].is_template,
            string_views(t.dependencies@) == seq!["wasmtime"@, "serde"@],
    {
        let deps = vec![String::from_str("wasmtime"), String::from_str("serde")];
        assert(string_views(deps@) =~= seq!["wasmtime"@, "serde"@]);
        PluginTemplate {
            name: String::from_str("basic"),
            description: String::from_str("基础插件模板"),
            template_type: TemplateType::Basic,
            files: vec![
                TemplateFile {
                    path: String::from_str("src/lib.rs"),
                    content: owned(basic_lib_source),
                    is_template: true,
                },
                TemplateFile { path: String::from_str("Cargo.toml"), content: owned(basic_manifest), is_template: true },
            ],
            dependencies: deps,
        }
    }

    /// The processor template: a `src/lib.rs` stub depending on
    /// `dataflare-wasm`.
    pub fn create_processor_template(&self) -> (t: PluginTemplate)
        ensures
            t.name@ == "processor"@,
            t.template_type == TemplateType::Processor,
            t.files@.len() == 1,
            t.files@[0].path@ == "src/lib.rs"@ && t.files@[0].content@ == "// 数据处理器插件模板\n"@
                && t.files@[0].is_template,
            string_views(t.dependencies@) == seq!["dataflare-wasm"@],
    {
        let deps = vec![String::from_str("dataflare-wasm")];
        assert(string_views(deps@) =~= seq!["dataflare-wasm"@]);
        PluginTemplate {
            name: String::from_str("processor"),
            description: String::from_str("数据处理器模板"),
            template_type: TemplateType::Processor,
            files: vec![
                TemplateFile {
                    path: String::from_str("src/lib.rs"),
                    content: String::from_str("// 数据处理器插件模板\n"),
                    is_template: true,
                },
            ],
            dependencies: deps,
        }
    }

    /// The files to write for a plugin named `plugin_name` from `template`:
    /// each file's path with its content, the name filled in where the file
    /// is a template.
    pub fn render_template_files(&self, template: &PluginTemplate, plugin_name: &str) -> (r: Vec<(String, String)>)
        ensures
            r@.len() == template.files@.len(),
            forall|i: int| 0 <= i < r@.len() ==> #[trigger] r@[i].0@ == template.files@[i].path@
                && r@[i].1@ == rendered_content(template.files@[i], plugin_name@),
    {
        let mut r: Vec<(String, String)> = Vec::new();
        let mut i: usize = 0;
        while i < template.files.len()
            invariant
                i <= template.files@.len(),
                r@.len() == i,
                forall|j: int| 0 <= j < i ==> #[trigger] r@[j].0@ == template.files@[j].path@
                    && r@[j].1@ == rendered_content(template.files@[j], plugin_name@),
            decreases template.files.len() - i,
        {
            let file = &template.files[i];
            let content = if file.is_template {
                replace_all(file.content.as_str(), "{{plugin_name}}", plugin_name)
            } else {
                file.content.clone()
            };
            let ghost before = r@;
            let path = file.path.clone();
            assert(content@ == rendered_content(template.files@[i as int], plugin_name@));
            r.push((path, content));
            assert(forall|j: int| 0 <= j < i ==> r@[j] == before[j]);
            assert(r@[i as int].0@ == template.files@[i as int].path@);
            i = i + 1;
        }
        r
    }

    /// Where the built module of `plugin_name` is written.
    pub fn build_output_path(&self, plugin_name: &str) -> (p: String)
        ensures
            p@ == path_joined(self.build().output_dir@, plugin_name@ + ".wasm"@),
    {
        let file = concat(plugin_name, ".wasm");
        join_path(self.build_config.output_dir.as_str(), file.as_str())
    }

    /// The cargo build for the configured target: `build --target <target>`,
    /// with `--release` unless optimisation is off, `RUSTFLAGS=-C opt-level=s`
    /// when optimising for size, landing in `debug` without optimisation and
    /// in `release` otherwise.
    pub fn compile_rust_to_wasm(&self) -> (b: CargoBuild)
        ensures
            string_views(b.args@) == if self.build().optimization == OptimizationLevel::NoOptimization {
                seq!["build"@, "--target"@, self.build().target@]
            } else {
                seq!["build"@, "--target"@, self.build().target@, "--release"@]
            },
            self.build().optimization == OptimizationLevel::Size ==> (b.rustflags matches Some(f) && f@
                == "-C opt-level=s"@),
            self.build().optimization != OptimizationLevel::Size ==> b.rustflags is None,
            b.profile_dir@ == if self.build().optimization == OptimizationLevel::NoOptimization {
                "debug"@
            } else {
                "release"@
            },
    {
        let mut args: Vec<String> = vec![
            String::from_str("build"),
            String::from_str("--target"),
            self.build_config.target.clone(),
        ];
        let ghost base = args@;
        assert(string_views(base) =~= seq!["build"@, "--target"@, self.build().target@]);
        let rustflags: Option<String>;
        let profile: String;
        match self.build_config.optimization {
            OptimizationLevel::NoOptimization => {
                rustflags = None;
                profile = String::from_str("debug");
            },
            OptimizationLevel::Basic | OptimizationLevel::Full => {
                args.push(String::from_str("--release"));
                rustflags = None;
                profile = String::from_str("release");
            },
            OptimizationLevel::Size => {
                args.push(String::from_str("--release"));
                rustflags = Some(String::from_str("-C opt-level=s"));
                profile = String::from_str("release");
            },
        }
        assert(self.build().optimization != OptimizationLevel::NoOptimization ==> string_views(args@) =~= string_views(
            base,
        ).push("--release"@));
        CargoBuild { args, rustflags, profile_dir: profile }
    }

    /// The same build, for the `wasm32-unknown-unknown` target.
    pub fn compile_rust_to_wasm_unknown(&self) -> (b: CargoBuild)
        ensures
            string_views(b.args@) == if self.build().optimization == OptimizationLevel::NoOptimization {
                seq!["build"@, "--target"@, self.build().target@]
            } else {
                seq!["build"@, "--target"@, self.build().target@, "--release"@]
            },
            b.profile_dir@ == if self.build().optimization == OptimizationLevel::NoOptimization {
                "debug"@
            } else {
                "release"@
            },
    {
        self.compile_rust_to_wasm()
    }

    /// The build to run for the sources, given whether their directory
    /// exists: an error when it does not or when the target is neither
    /// `wasm32-wasi` nor `wasm32-unknown-unknown`.
    pub fn compile_source(&self, source_exists: bool) -> (r: WasmResult<CargoBuild>)
        ensures
            !source_exists ==> r matches Err(WasmError::Runtime(_)),
            source_exists && (self.build().target@ == "wasm32-wasi"@ || self.build().target@
                == "wasm32-unknown-unknown"@) ==> (r matches Ok(b) && b.profile_dir@ == if self.build().optimization
                == OptimizationLevel::NoOptimization {
                "debug"@
            } else {
                "release"@
            }),
            source_exists && !(self.build().target@ == "wasm32-wasi"@ || self.build().target@
                == "wasm32-unknown-unknown"@) ==> (r matches Err(WasmError::Runtime(m)) && m@ == "不支持的目标架构: "@
                + self.build().target@),
    {
        if !source_exists {
            return Err(WasmError::Runtime(String::from_str("源目录不存在")));
        }
        let t = self.build_config.target.as_str();
        if str_eq(t, "wasm32-wasi") {
            Ok(self.compile_rust_to_wasm())
        } else if str_eq(t, "wasm32-unknown-unknown") {
            Ok(self.compile_rust_to_wasm_unknown())
        } else {
            Err(WasmError::Runtime(concat("不支持的目标架构: ", t)))
        }
    }

    /// The `wasm-opt` arguments of basic optimisation.
    pub fn basic_wasm_optimization(&self) -> (args: Vec<String>)
        ensures
            string_views(args@) == seq!["-O1"@],
    {
        let args = vec![String::from_str("-O1")];
        assert(string_views(args@) =~= seq!["-O1"@]);
        args
    }

    /// The `wasm-opt` arguments of full optimisation.
    pub fn full_wasm_optimization(&self) -> (args: Vec<String>)
        ensures
            string_views(args@) == seq!["-O3"@, "--enable-bulk-memory"@],
    {
        let args = vec![String::from_str("-O3"), String::from_str("--enable-bulk-memory")];
        assert(string_views(args@) =~= seq!["-O3"@, "--enable-bulk-memory"@]);
        args
    }

    /// The `wasm-opt` arguments of size optimisation.
    pub fn size_wasm_optimization(&self) -> (args: Vec<String>)
        ensures
            string_views(args@) == seq!["-Os"@, "--strip-debug"@],
    {
        let args = vec![String::from_str("-Os"), String::from_str("--strip-debug")];
        assert(string_views(args@) =~= seq!["-Os"@, "--strip-debug"@]);
        args
    }

    /// The `wasm-opt` arguments for the configured optimisation, given
    /// whether the module exists: an error when it does not, none when
    /// optimisation is off.
    pub fn optimize_wasm(&self, wasm_exists: bool) -> (r: WasmResult<Option<Vec<String>>>)
        ensures
            !wasm_exists ==> r matches Err(WasmError::Runtime(_)),
            wasm_exists ==> (r matches Ok(a) && match self.build().optimization {
                OptimizationLevel::NoOptimization => a is None,
                OptimizationLevel::Basic => a matches Some(v) && string_views(v@) == seq!["-O1"@],
                OptimizationLevel::Full => a matches Some(v) && string_views(v@) == seq![
                    "-O3"@,
                    "--enable-bulk-memory"@,
                ],
                OptimizationLevel::Size => a matches Some(v) && string_views(v@) == seq!["-Os"@, "--strip-debug"@],
            }),
    {
        if !wasm_exists {
            return Err(WasmError::Runtime(String::from_str("WASM文件不存在")));
        }
        match self.build_config.optimization {
            OptimizationLevel::NoOptimization => Ok(None),
            OptimizationLevel::Basic => Ok(Some(self.basic_wasm_optimization())),
            OptimizationLevel::Full => Ok(Some(self.full_wasm_optimization())),
            OptimizationLevel::Size => Ok(Some(self.size_wasm_optimization())),
        }
    }
}

/// A benchmark with the given name, description, data size and iterations.
fn benchmark(name: &str, description: &str, data_size: usize, iterations: usize) -> (b: Benchmark)
    ensures
        b.name@ == name@,
        b.description@ == description@,
        b.data_size == data_size,
        b.iterations == iterations,
{
    Benchmark { name: owned(name), description: owned(description), data_size, iterations }
}

/// The standard benchmarks: small, medium and large data, and a stress test.
pub fn standard_benchmarks() -> (r: Vec<Benchmark>)
    ensures
        r@.len() == 4,
        r@[0].name@ == "small_data_processing"@ && r@[0].data_size == 1000 && r@[0].iterations == 1000,
        r@[1].name@ == "medium_data_processing"@ && r@[1].data_size == 10000 && r@[1].iterations == 500,
        r@[2].name@ == "large_data_processing"@ && r@[2].data_size == 100000 && r@[2].iterations == 100,
        r@[3].name@ == "stress_test"@ && r@[3].data_size == 1000000 && r@[3].iterations == 10,
{
    vec![
        benchmark("small_data_processing", "小数据量处理", 1000, 1000),
        benchmark("medium_data_processing", "中等数据量处理", 10000, 500),
        benchmark("large_data_processing", "大数据量处理", 100000, 100),
        benchmark("stress_test", "压力测试", 1000000, 10),
    ]
}

/// The concurrency benchmarks: a small and a medium load.
pub fn concurrency_benchmarks() -> (r: Vec<Benchmark>)
    ensures
        r@.len() == 2,
        r@[0].name@ == "concurrent_small_load"@ && r@[0].data_size == 1000 && r@[0].iterations == 100,
        r@[1].name@ == "concurrent_medium_load"@ && r@[1].data_size == 10000 && r@[1].iterations == 50,
{
    vec![
        benchmark("concurrent_small_load", "并发小负载测试", 1000, 100),
        benchmark("concurrent_medium_load", "并发中等负载测试", 10000, 50),
    ]
}

/// The memory stress benchmarks: 1 MiB and 10 MiB.
pub fn memory_stress_benchmarks() -> (r: Vec<Benchmark>)
    ensures
        r@.len() == 2,
        r@[0].name@ == "memory_stress_1mb"@ && r@[0].data_size == 1024 * 1024 && r@[0].iterations == 10,
        r@[1].name@ == "memory_stress_10mb"@ && r@[1].data_size == 10 * 1024 * 1024 && r@[1].iterations == 5,
{
    vec![
        benchmark("memory_stress_1mb", "1MB内存压力测试", 1024 * 1024, 10),
        benchmark("memory_stress_10mb", "10MB内存压力测试", 10 * 1024 * 1024, 5),
    ]
}

/// Whether `s` is in increasing order.
pub open spec fn sorted_nanos(s: Seq<u128>) -> bool {
    forall|i: int, j: int| 0 <= i <= j < s.len() ==> s[i] <= s[j]
}

/// The times of `v` in increasing order.
pub fn sort_times(v: &Vec<u128>) -> (r: Vec<u128>)
    ensures
        sorted_nanos(r@),
        r@.to_multiset() == v@.to_multiset(),
        r@.len() == v@.len(),
{
    broadcast use vstd::seq_lib::group_to_multiset_ensures;
    let mut r: Vec<u128> = Vec::new();
    let mut i: usize = 0;
    while i < v.len()
        invariant
            i <= v@.len(),
            sorted_nanos(r@),
            r@.to_multiset() == v@.subrange(0, i as int).to_multiset(),
            r@.len() == i,
        decreases v.len() - i,
    {
        let x = v[i];
        let mut pos: usize = 0;
        while pos < r.len() && r[pos] <= x
            invariant
                pos <= r@.len(),
                forall|k: int| 0 <= k < pos ==> r@[k] <= x,
            decreases r.len() - pos,
        {
            pos = pos + 1;
        }
        let ghost before = r@;
        r.insert(pos, x);
        proof {
            vstd::seq_lib::to_multiset_insert(before, pos as int, x);
            assert(v@.subrange(0, i + 1) =~= v@.subrange(0, i as int).push(x));
            vstd::seq_lib::to_multiset_build(v@.subrange(0, i as int), x);
            assert forall|a: int, b: int| 0 <= a <= b < r@.len() implies r@[a] <= r@[b] by {
                if a < pos && b > pos {
                    assert(before[a] <= x);
                    assert(r@[b] == before[b - 1]);
                    assert(x < before[pos as int] || pos == before.len());
                    if pos < before.len() {
                        assert(before[pos as int] <= before[b - 1]);
                    }
                } else if a == pos && b > pos {
                    assert(pos < before.len());
                    assert(before[pos as int] <= before[b - 1]);
                }
            }
        }
        i = i + 1;
    }
    assert(v@.subrange(0, i as int) =~= v@);
    r
}

/// The time at the position `len * per_mille / 1000` of a sorted list of
/// `len` times, or 0 past its end.
pub open spec fn percentile_at(sorted: Seq<u128>, per_mille: int) -> u128 {
    let idx = sorted.len() * per_mille / 1000;
    if idx < sorted.len() { sorted[idx] } else { 0 }
}

/// The percentile that sits at `per_mille` thousandths of the way through
/// `sorted`.
fn percentile(sorted: &[u128], per_mille: usize) -> (p: u128)
    requires
        per_mille <= 1000,
        sorted@.len() * 1000 <= usize::MAX,
    ensures
        p == percentile_at(sorted@, per_mille as int),
{
    let n = sorted.len();
    assert(n * per_mille <= n * 1000) by (nonlinear_arith)
        requires
            per_mille <= 1000,
    ;
    let idx = n * per_mille / 1000;
    if idx < sorted.len() {
        sorted[idx]
    } else {
        0
    }
}

/// The 50th, 90th, 95th, 99th and 99.9th percentiles of sorted times, each
/// the time at that fraction of the list's length, rounded down.
pub fn calculate_percentiles(sorted_times: &[u128]) -> (p: PercentileStats)
    requires
        sorted_times@.len() * 1000 <= usize::MAX,
    ensures
        p.p50 == percentile_at(sorted_times@, 500),
        p.p90 == percentile_at(sorted_times@, 900),
        p.p95 == percentile_at(sorted_times@, 950),
        p.p99 == percentile_at(sorted_times@, 990),
        p.p999 == percentile_at(sorted_times@, 999),
{
    PercentileStats {
        p50: percentile(sorted_times, 500),
        p90: percentile(sorted_times, 900),
        p95: percentile(sorted_times, 950),
        p99: percentile(sorted_times, 990),
        p999: percentile(sorted_times, 999),
    }
}

/// The least of a list of times, or 0 for none.
pub open spec fn min_time_of(s: Seq<u128>) -> u128
    decreases s.len(),
{
    if s.len() == 0 {
        0
    } else if s.len() == 1 {
        s[0]
    } else {
        let m = min_time_of(s.drop_last());
        if s.last() < m { s.last() } else { m }
    }
}

/// The greatest of a list of times, or 0 for none.
pub open spec fn max_time_of(s: Seq<u128>) -> u128
    decreases s.len(),
{
    if s.len() == 0 {
        0
    } else {
        let m = max_time_of(s.drop_last());
        if s.last() > m { s.last() } else { m }
    }
}

/// The sum of a list of times.
pub open spec fn sum_times(s: Seq<u128>) -> int
    decreases s.len(),
{
    if s.len() == 0 { 0 } else { sum_times(s.drop_last()) + s.last() }
}

/// A prefix sums to no more than the whole list.
proof fn lemma_sum_times_prefix(s: Seq<u128>, k: int)
    requires
        0 <= k <= s.len(),
    ensures
        sum_times(s.subrange(0, k)) <= sum_times(s),
    decreases s.len(),
{
    if k < s.len() {
        assert(s.subrange(0, k) =~= s.drop_last().subrange(0, k));
        lemma_sum_times_prefix(s.drop_last(), k);
    } else {
        assert(s.subrange(0, k) =~= s);
    }
}

/// The least and greatest of `times`, each 0 for no time.
fn min_max_times(times: &Vec<u128>) -> (r: (u128, u128))
    ensures
        r.0 == min_time_of(times@),
        r.1 == max_time_of(times@),
{
    let mut lo: u128 = 0;
    let mut hi: u128 = 0;
    let mut i: usize = 0;
    while i < times.len()
        invariant
            i <= times@.len(),
            lo == min_time_of(times@.subrange(0, i as int)),
            hi == max_time_of(times@.subrange(0, i as int)),
        decreases times.len() - i,
    {
        let ghost prefix = times@.subrange(0, i + 1);
        assert(prefix.drop_last() =~= times@.subrange(0, i as int));
        let t = times[i];
        if i == 0 || t < lo {
            lo = t;
        }
        if t > hi {
            hi = t;
        }
        i = i + 1;
    }
    assert(times@.subrange(0, i as int) =~= times@);
    (lo, hi)
}

/// The divisor an iteration count gives when it is narrowed to 32 bits, as
/// a duration is divided by a `u32`.
pub open spec fn narrowed(n: int) -> int {
    n % 0x1_0000_0000
}

/// What the simulated work of a benchmark allocates in iteration `i`.
pub open spec fn simulated_allocation(i: int) -> int {
    1024 * (i % 100 + 1)
}

/// The allocations of the first `n` simulated iterations, summed.
pub open spec fn simulated_allocation_total(n: nat) -> int
    decreases n,
{
    if n == 0 { 0 } else { simulated_allocation_total((n - 1) as nat) + simulated_allocation(n - 1) }
}

/// The base pause, in microseconds, of a simulated iteration on `data_size`
/// items.
pub open spec fn simulated_base_micros(data_size: int) -> int {
    if data_size < 1000 {
        50
    } else if data_size < 10000 {
        100
    } else if data_size < 100000 {
        200
    } else {
        500
    }
}

/// The base pause of a simulated iteration of `b`, in microseconds (before
/// jitter), and whether iteration `iteration` succeeds: one in twenty fails.
pub fn simulated_iteration(b: &Benchmark, iteration: usize) -> (r: (u64, bool))
    ensures
        r.0 == simulated_base_micros(b.data_size as int),
        r.1 == (iteration % 20 != 0),
{
    let base: u64 = if b.data_size < 1000 {
        50
    } else if b.data_size < 10000 {
        100
    } else if b.data_size < 100000 {
        200
    } else {
        500
    };
    (base, iteration % 20 != 0)
}

/// How many of a run of `b`'s iterations succeed: all but one in twenty
/// (iteration `i` fails when `i` is a multiple of 20).
pub fn single_benchmark_successes(b: &Benchmark) -> (s: usize)
    ensures
        s == b.iterations - (b.iterations + 19) / 20,
{
    let mut s: usize = 0;
    let mut i: usize = 0;
    while i < b.iterations
        invariant
            i <= b.iterations,
            s == i - (i + 19) / 20,
        decreases b.iterations - i,
    {
        let (_pause, ok) = simulated_iteration(b, i);
        if ok {
            s = s + 1;
        }
        i = i + 1;
    }
    s
}

/// How many of a memory stress run of `b`'s iterations succeed: all but one
/// in fifteen (iteration `i` fails when `i` is a multiple of 15).
pub fn memory_stress_successes(b: &Benchmark) -> (s: usize)
    ensures
        s == b.iterations - (b.iterations + 14) / 15,
{
    let mut s: usize = 0;
    let mut i: usize = 0;
    while i < b.iterations
        invariant
            i <= b.iterations,
            s == i - (i + 14) / 15,
        decreases b.iterations - i,
    {
        if i % 15 != 0 {
            s = s + 1;
        }
        i = i + 1;
    }
    s
}

/// How many of the first `n` iterations of worker `thread_id` fail: those
/// where `thread_id + i` is a multiple of 20.
pub open spec fn worker_failures(thread_id: int, n: nat) -> nat
    decreases n,
{
    if n == 0 {
        0
    } else {
        worker_failures(thread_id, (n - 1) as nat) + if (thread_id + n - 1) % 20 == 0 { 1nat } else { 0nat }
    }
}

/// How many iterations fail over the first `t` workers, each running `per`.
pub open spec fn failures_of_workers(t: nat, per: nat) -> nat
    decreases t,
{
    if t == 0 {
        0
    } else {
        failures_of_workers((t - 1) as nat, per) + worker_failures(t - 1, per)
    }
}

/// How many iterations succeed when four workers each run `per`.
pub open spec fn concurrent_successes_of(per: nat) -> int {
    4 * per - failures_of_workers(4, per)
}

proof fn lemma_worker_failures_bounded(thread_id: int, n: nat)
    ensures
        worker_failures(thread_id, n) <= n,
    decreases n,
{
    if n > 0 {
        lemma_worker_failures_bounded(thread_id, (n - 1) as nat);
    }
}

proof fn lemma_failures_of_workers_bounded(t: nat, per: nat)
    ensures
        failures_of_workers(t, per) <= t * per,
    decreases t,
{
    if t > 0 {
        lemma_failures_of_workers_bounded((t - 1) as nat, per);
        lemma_worker_failures_bounded(t - 1, per);
        assert(t * per == (t - 1) * per + per) by (nonlinear_arith);
    }
}

/// How many iterations of a concurrent run of `b` succeed: four workers
/// each run a quarter of the iterations, and an iteration fails when the
/// worker's number plus its own is a multiple of 20.
pub fn concurrent_successes(b: &Benchmark) -> (s: usize)
    ensures
        s == concurrent_successes_of((b.iterations / 4) as nat),
        s <= b.iterations,
{
    let (threads, per) = concurrent_plan(b);
    let mut s: usize = 0;
    let mut t: usize = 0;
    while t < threads
        invariant
            threads == 4,
            per == b.iterations / 4,
            t <= 4,
            s == t * per - failures_of_workers(t as nat, per as nat),
            s <= t * per,
        decreases threads - t,
    {
        let mut i: usize = 0;
        let mut w: usize = 0;
        proof {
            lemma_failures_of_workers_bounded(t as nat, per as nat);
            assert(t * per + per <= 4 * per) by (nonlinear_arith)
                requires t < 4;
        }
        while i < per
            invariant
                threads == 4,
                per == b.iterations / 4,
                t < 4,
                i <= per,
                w == i - worker_failures(t as int, i as nat),
                w <= i,
                s <= t * per,
                t * per + per <= 4 * per,
            decreases per - i,
        {
            let (ok, _pause) = concurrent_iteration(t, i);
            if ok {
                w = w + 1;
            }
            i = i + 1;
        }
        proof {
            lemma_worker_failures_bounded(t as int, per as nat);
            assert((t + 1) * per == t * per + per) by (nonlinear_arith);
        }
        s = s + w;
        t = t + 1;
    }
    proof {
        assert(4 * per <= b.iterations) by (nonlinear_arith)
            requires per == b.iterations / 4;
    }
    s
}

/// The statistics of a run of `b` that took `total_time` in all, with one
/// measured time per iteration and `successes` successful iterations.
pub fn single_benchmark_counts(b: &Benchmark, times: &Vec<u128>, total_time: u128) -> (c: BenchmarkCounts)
    requires
        times@.len() == b.iterations,
        b.iterations > 0,
        narrowed(b.iterations as int) != 0,
        b.iterations * 1000 <= usize::MAX,
        simulated_allocation_total(b.iterations as nat) <= u64::MAX,
    ensures
        c.name@ == b.name@,
        c.avg_time == total_time / (narrowed(b.iterations as int) as u128),
        c.min_time == min_time_of(times@),
        c.max_time == max_time_of(times@),
        c.total_iterations == b.iterations,
        c.successful_iterations == b.iterations - (b.iterations + 19) / 20,
        c.failed_iterations == (b.iterations + 19) / 20,
        c.peak_memory_usage == (if b.iterations < 100 { 1024 * b.iterations } else { 102400int }),
        c.memory_usage == c.peak_memory_usage,
        c.avg_memory_allocations == simulated_allocation_total(b.iterations as nat) / (b.iterations as int),
        c.gc_count == (b.iterations / 100) as u32,
        exists|sorted: Seq<u128>| sorted_nanos(sorted) && sorted.to_multiset() == times@.to_multiset()
            && c.percentiles.p50 == percentile_at(sorted, 500) && c.percentiles.p99 == percentile_at(sorted, 990),
{
    let successes = single_benchmark_successes(b);
    let n = b.iterations;
    let mut total_alloc: u64 = 0;
    let mut peak: u64 = 0;
    let mut i: usize = 0;
    while i < n
        invariant
            i <= n,
            n == b.iterations,
            simulated_allocation_total(n as nat) <= u64::MAX,
            total_alloc == simulated_allocation_total(i as nat),
            peak == (if i < 100 { 1024 * i } else { 102400int }),
        decreases n - i,
    {
        proof {
            lemma_allocation_total_monotone((i + 1) as nat, n as nat);
        }
        let alloc: u64 = (1024 * (i % 100 + 1)) as u64;
        total_alloc = total_alloc + alloc;
        if alloc > peak {
            peak = alloc;
        }
        i = i + 1;
    }
    let divisor: u32 = ((n as u64) % 0x1_0000_0000u64) as u32;
    let (lo, hi) = min_max_times(times);
    let sorted = sort_times(times);
    let percentiles = calculate_percentiles(sorted.as_slice());
    BenchmarkCounts {
        name: b.name.clone(),
        avg_time: total_time / (divisor as u128),
        min_time: lo,
        max_time: hi,
        memory_usage: peak,
        percentiles,
        total_iterations: n,
        successful_iterations: successes,
        failed_iterations: n - successes,
        avg_memory_allocations: total_alloc / (n as u64),
        peak_memory_usage: peak,
        gc_count: (n / 100) as u32,
    }
}

/// The allocation totals grow with the number of iterations.
proof fn lemma_allocation_total_monotone(a: nat, b: nat)
    requires
        a <= b,
    ensures
        simulated_allocation_total(a) <= simulated_allocation_total(b),
    decreases b,
{
    if a < b {
        lemma_allocation_total_monotone(a, (b - 1) as nat);
    }
}

/// Whether simulated iteration `i` of worker `thread_id` succeeds, and how
/// many microseconds it pauses: one in twenty fails.
pub fn concurrent_iteration(thread_id: usize, i: usize) -> (r: (bool, u64))
    requires
        thread_id < 4,
    ensures
        r.0 == ((thread_id + i) % 20 != 0),
        r.1 == 100 + thread_id * 10 + i % 50,
{
    let success = (thread_id % 20 + i % 20) % 20 != 0;
    assert((thread_id % 20 + i % 20) % 20 == (thread_id + i) % 20) by (nonlinear_arith)
        requires thread_id < 4;
    (success, (100 + thread_id * 10 + i % 50) as u64)
}

/// The number of workers of a concurrent benchmark, and the iterations each
/// runs.
pub fn concurrent_plan(b: &Benchmark) -> (r: (usize, usize))
    ensures
        r.0 == 4,
        r.1 == b.iterations / 4,
{
    (4, b.iterations / 4)
}

/// The statistics of a concurrent run of `b` from all workers' measured
/// times and their successes.
pub fn concurrent_benchmark_counts(b: &Benchmark, all_times: &Vec<u128>) -> (c: BenchmarkCounts)
    requires
        sum_times(all_times@) <= DURATION_MAX_NANOS,
        all_times@.len() > 0 ==> narrowed(all_times@.len() as int) != 0,
        all_times@.len() * 1000 <= usize::MAX,
        b.data_size * 8 <= u64::MAX,
        b.data_size * 8 <= usize::MAX,
    ensures
        c.name@ == b.name@ + "_concurrent"@,
        c.avg_time == if all_times@.len() > 0 {
            (sum_times(all_times@) / narrowed(all_times@.len() as int)) as u128
        } else {
            0
        },
        c.min_time == min_time_of(all_times@),
        c.max_time == max_time_of(all_times@),
        c.memory_usage == b.data_size * 4,
        c.total_iterations == b.iterations,
        c.successful_iterations == concurrent_successes_of((b.iterations / 4) as nat),
        c.failed_iterations == b.iterations - concurrent_successes_of((b.iterations / 4) as nat),
        c.avg_memory_allocations == b.data_size * 2,
        c.peak_memory_usage == b.data_size * 8,
        c.gc_count == (b.iterations / 50) as u32,
{
    let total_successes = concurrent_successes(b);
    let mut sum: u128 = 0;
    let mut i: usize = 0;
    while i < all_times.len()
        invariant
            i <= all_times@.len(),
            sum == sum_times(all_times@.subrange(0, i as int)),
            sum_times(all_times@) <= DURATION_MAX_NANOS,
        decreases all_times.len() - i,
    {
        assert(all_times@.subrange(0, i + 1).drop_last() =~= all_times@.subrange(0, i as int));
        proof {
            lemma_sum_times_prefix(all_times@, i + 1);
        }
        sum = sum + all_times[i];
        i = i + 1;
    }
    assert(all_times@.subrange(0, i as int) =~= all_times@);
    let avg: u128 = if all_times.len() > 0 {
        let divisor: u32 = ((all_times.len() as u64) % 0x1_0000_0000u64) as u32;
        sum / (divisor as u128)
    } else {
        0
    };
    let (lo, hi) = min_max_times(all_times);
    let sorted = sort_times(all_times);
    let percentiles = calculate_percentiles(sorted.as_slice());
    BenchmarkCounts {
        name: concat(b.name.as_str(), "_concurrent"),
        avg_time: avg,
        min_time: lo,
        max_time: hi,
        memory_usage: (b.data_size * 4) as u64,
        percentiles,
        total_iterations: b.iterations,
        successful_iterations: total_successes,
        failed_iterations: b.iterations - total_successes,
        avg_memory_allocations: (b.data_size * 2) as u64,
        peak_memory_usage: (b.data_size * 8) as u64,
        gc_count: (b.iterations / 50) as u32,
    }
}

/// The memory a memory stress iteration `i` of `b` uses, how many
/// microseconds it pauses, and whether it succeeds: one in fifteen fails.
pub fn memory_stress_iteration(b: &Benchmark, i: usize) -> (r: (u64, u64, bool))
    requires
        i < b.iterations,
        b.data_size * (i + 1) <= u64::MAX,
    ensures
        r.0 == b.data_size * (i + 1),
        r.1 == 500 + b.data_size / 1000,
        r.2 == (i % 15 != 0),
{
    let usage: u64 = (b.data_size as u64) * ((i + 1) as u64);
    (usage, (500 + b.data_size / 1000) as u64, i % 15 != 0)
}

/// The statistics of a memory stress run of `b` that took `total_time` in
/// all, with one measured time per iteration and `successes` successes.
pub fn memory_stress_counts(b: &Benchmark, times: &Vec<u128>, total_time: u128) -> (c: BenchmarkCounts)
    requires
        times@.len() == b.iterations,
        b.iterations > 0,
        narrowed(b.iterations as int) != 0,
        b.iterations * 1000 <= usize::MAX,
        b.data_size * b.iterations <= u64::MAX,
    ensures
        c.name@ == b.name@ + "_memory_stress"@,
        c.avg_time == total_time / (narrowed(b.iterations as int) as u128),
        c.min_time == min_time_of(times@),
        c.max_time == max_time_of(times@),
        c.memory_usage == b.data_size * b.iterations,
        c.peak_memory_usage == b.data_size * b.iterations,
        c.total_iterations == b.iterations,
        c.successful_iterations == b.iterations - (b.iterations + 14) / 15,
        c.failed_iterations == (b.iterations + 14) / 15,
        c.avg_memory_allocations == (b.data_size * b.iterations) / (b.iterations as int),
        c.gc_count == (b.iterations / 3) as u32,
{
    let successes = memory_stress_successes(b);
    let n = b.iterations;
    let peak: u64 = (b.data_size as u64) * (n as u64);
    let divisor: u32 = ((n as u64) % 0x1_0000_0000u64) as u32;
    let (lo, hi) = min_max_times(times);
    let sorted = sort_times(times);
    let percentiles = calculate_percentiles(sorted.as_slice());
    BenchmarkCounts {
        name: concat(b.name.as_str(), "_memory_stress"),
        avg_time: total_time / (divisor as u128),
        min_time: lo,
        max_time: hi,
        memory_usage: peak,
        percentiles,
        total_iterations: n,
        successful_iterations: successes,
        failed_iterations: n - successes,
        avg_memory_allocations: peak / (n as u64),
        peak_memory_usage: peak,
        gc_count: (n / 3) as u32,
    }
}

} // verus!
