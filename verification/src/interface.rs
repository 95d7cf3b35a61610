//! The calling convention between the host and a plugin: call requests,
//! their results, a plugin's declared capabilities, and the standard
//! functions of each DSL component kind.

use std::collections::HashMap;
use vstd::prelude::*;
use crate::text::{lowercase, owned, str_eq, string_views, to_lowercase};
use crate::wasm_error::{WasmError, WasmResult};

verus! {

/// A request to call a plugin function.
#[derive(Debug, Clone)]
pub struct WasmFunctionCall {
    pub function_name: String,
    pub parameters: HashMap<String, serde_json::Value>,
    pub context: Option<HashMap<String, serde_json::Value>>,
    /// An identifier to match the result with the request.
    pub call_id: Option<String>,
}

impl WasmFunctionCall {
    /// A call of `function_name` with no parameter, context or identifier.
    pub fn new(function_name: String) -> (c: Self)
        ensures
            c.function_name == function_name,
            c.parameters@ == Map::<String, serde_json::Value>::empty(),
            c.context is None,
            c.call_id is None,
    {
        WasmFunctionCall { function_name, parameters: HashMap::new(), context: None, call_id: None }
    }

    /// The call with `value`, already turned into JSON, under `key`. The
    /// parameter map is a `HashMap` keyed by `String`, whose insertion vstd
    /// describes only for key types it models; so is it described here.
    pub fn with_parameter(self, key: String, value: serde_json::Value) -> (r: WasmResult<Self>)
        ensures
            r matches Ok(c) && c.function_name == self.function_name && c.context == self.context
                && c.call_id == self.call_id && (vstd::std_specs::hash::obeys_key_model::<String>()
                && vstd::std_specs::hash::builds_valid_hashers::<std::collections::hash_map::RandomState>()
                ==> c.parameters@ == self.parameters@.insert(key, value)),
    {
        let mut c = self;
        c.parameters.insert(key, value);
        Ok(c)
    }

    /// The call with `context`.
    pub fn with_context(self, context: HashMap<String, serde_json::Value>) -> (c: Self)
        ensures
            c.function_name == self.function_name,
            c.parameters == self.parameters,
            c.context == Some(context),
            c.call_id == self.call_id,
    {
        let mut c = self;
        c.context = Some(context);
        c
    }

    /// The call with the identifier `call_id`.
    pub fn with_call_id(self, call_id: String) -> (c: Self)
        ensures
            c.function_name == self.function_name,
            c.parameters == self.parameters,
            c.context == self.context,
            c.call_id == Some(call_id),
    {
        let mut c = self;
        c.call_id = Some(call_id);
        c
    }
}

/// The outcome of a plugin call.
#[derive(Debug, Clone)]
pub struct WasmFunctionResult {
    pub success: bool,
    pub result: Option<serde_json::Value>,
    pub error: Option<String>,
    pub execution_time_ms: Option<u64>,
    pub call_id: Option<String>,
    pub metadata: Option<HashMap<String, serde_json::Value>>,
}

impl WasmFunctionResult {
    /// A successful outcome with `result`, already turned into JSON.
    pub fn success(result: serde_json::Value) -> (r: WasmResult<Self>)
        ensures
            r matches Ok(s) && s.success && s.result == Some(result) && s.error is None
                && s.execution_time_ms is None && s.call_id is None && s.metadata is None,
    {
        Ok(WasmFunctionResult {
            success: true,
            result: Some(result),
            error: None,
            execution_time_ms: None,
            call_id: None,
            metadata: None,
        })
    }

    /// A failed outcome with the message `error`.
    pub fn error(error: &str) -> (r: Self)
        ensures
            !r.success,
            r.result is None,
            r.error matches Some(e) && e@ == error@,
            r.execution_time_ms is None,
            r.call_id is None,
            r.metadata is None,
    {
        WasmFunctionResult {
            success: false,
            result: None,
            error: Some(owned(error)),
            execution_time_ms: None,
            call_id: None,
            metadata: None,
        }
    }

    /// The outcome with its execution time.
    pub fn with_execution_time(self, time_ms: u64) -> (r: Self)
        ensures
            r == (WasmFunctionResult { execution_time_ms: Some(time_ms), ..self }),
    {
        let mut r = self;
        r.execution_time_ms = Some(time_ms);
        r
    }

    /// The outcome with the identifier of its request.
    pub fn with_call_id(self, call_id: String) -> (r: Self)
        ensures
            r == (WasmFunctionResult { call_id: Some(call_id), ..self }),
    {
        let mut r = self;
        r.call_id = Some(call_id);
        r
    }

    /// The outcome with `metadata`.
    pub fn with_metadata(self, metadata: HashMap<String, serde_json::Value>) -> (r: Self)
        ensures
            r == (WasmFunctionResult { metadata: Some(metadata), ..self }),
    {
        let mut r = self;
        r.metadata = Some(metadata);
        r
    }

    /// The JSON result of a successful outcome. A failed one gives its
    /// message, or "Unknown error" without one; a successful one with no
    /// value is an error too. Turning the value into a Rust type is left to
    /// the caller.
    pub fn get_result(&self) -> (r: WasmResult<&serde_json::Value>)
        ensures
            !self.success ==> (r matches Err(WasmError::PluginExecution(m)) && m@ == match self.error {
                Some(e) => e@,
                None => "Unknown error"@,
            }),
            self.success && self.result is None ==> (r matches Err(WasmError::PluginExecution(m))
                && m@ == "No result value"@),
            self.success && self.result is Some ==> (r matches Ok(v) && Some(*v) == self.result),
    {
        if !self.success {
            let message = match &self.error {
                Some(e) => e.clone(),
                None => String::from_str("Unknown error"),
            };
            return Err(WasmError::PluginExecution(message));
        }
        match &self.result {
            Some(v) => Ok(v),
            None => Err(WasmError::PluginExecution(String::from_str("No result value"))),
        }
    }
}

/// A parameter a plugin function takes.
#[derive(Debug, Clone)]
pub struct WasmParameterDefinition {
    pub name: String,
    pub parameter_type: String,
    pub required: bool,
    pub default_value: Option<serde_json::Value>,
    pub description: String,
}

/// A function a plugin offers.
#[derive(Debug, Clone)]
pub struct WasmFunctionCapability {
    pub name: String,
    pub description: String,
    pub input_parameters: Vec<WasmParameterDefinition>,
    pub output_type: String,
    pub is_async: bool,
    pub is_streaming: bool,
}

/// What a plugin declares it can do.
#[derive(Debug, Clone)]
pub struct WasmPluginCapabilities {
    pub supported_component_types: Vec<String>,
    pub supported_functions: Vec<WasmFunctionCapability>,
    pub supports_async: bool,
    pub supports_streaming: bool,
    pub supports_batch: bool,
    pub max_memory_usage: Option<usize>,
    pub max_execution_time: Option<u64>,
    pub required_permissions: Vec<String>,
}

impl Default for WasmPluginCapabilities {
    /// A synchronous processor with no declared function or permission.
    fn default() -> (c: Self)
        ensures
            string_views(c.supported_component_types@) == seq!["processor"@],
            c.supported_functions@.len() == 0,
            !c.supports_async,
            !c.supports_streaming,
            !c.supports_batch,
            c.max_memory_usage is None,
            c.max_execution_time is None,
            c.required_permissions@.len() == 0,
    {
        let types = vec![String::from_str("processor")];
        assert(string_views(types@) =~= seq!["processor"@]);
        WasmPluginCapabilities {
            supported_component_types: types,
            supported_functions: Vec::new(),
            supports_async: false,
            supports_streaming: false,
            supports_batch: false,
            max_memory_usage: None,
            max_execution_time: None,
            required_permissions: Vec::new(),
        }
    }
}

/// The names of a list of function descriptions, in order.
pub open spec fn function_names(fs: Seq<WasmFunctionCapability>) -> Seq<Seq<char>> {
    fs.map_values(|f: WasmFunctionCapability| f.name@)
}

impl WasmPluginCapabilities {
    /// Whether a function named `function_name` is declared.
    pub fn has_function(&self, function_name: &str) -> (b: bool)
        ensures
            b == function_names(self.supported_functions@).contains(function_name@),
    {
        let mut i: usize = 0;
        while i < self.supported_functions.len()
            invariant
                i <= self.supported_functions@.len(),
                forall|k: int| 0 <= k < i ==> self.supported_functions@[k].name@ != function_name@,
            decreases self.supported_functions.len() - i,
        {
            if str_eq(self.supported_functions[i].name.as_str(), function_name) {
                assert(function_names(self.supported_functions@)[i as int] == function_name@);
                return true;
            }
            i = i + 1;
        }
        proof {
            if function_names(self.supported_functions@).contains(function_name@) {
                let k = choose|k: int| 0 <= k < function_names(self.supported_functions@).len()
                    && function_names(self.supported_functions@)[k] == function_name@;
                assert(self.supported_functions@[k].name@ == function_name@);
            }
        }
        false
    }

    /// The names of the declared functions, in order.
    pub fn get_supported_functions(&self) -> (names: Vec<String>)
        ensures
            string_views(names@) == function_names(self.supported_functions@),
    {
        let mut names: Vec<String> = Vec::new();
        let mut i: usize = 0;
        while i < self.supported_functions.len()
            invariant
                i <= self.supported_functions@.len(),
                string_views(names@) == function_names(self.supported_functions@).subrange(0, i as int),
            decreases self.supported_functions.len() - i,
        {
            let ghost before = names@;
            names.push(self.supported_functions[i].name.clone());
            assert(string_views(names@) =~= string_views(before).push(self.supported_functions@[i as int].name@));
            i = i + 1;
            assert(string_views(names@) =~= function_names(self.supported_functions@).subrange(0, i as int));
        }
        assert(function_names(self.supported_functions@).subrange(0, i as int) =~= function_names(
            self.supported_functions@,
        ));
        names
    }
}

/// The standard functions of a source.
pub open spec fn source_function_names() -> Seq<Seq<char>> {
    seq!["discover_schema"@, "read_batch"@, "read_stream"@, "get_state"@, "commit"@, "seek"@, "estimate_count"@]
}

/// The standard functions of a destination.
pub open spec fn destination_function_names() -> Seq<Seq<char>> {
    seq![
        "prepare_schema"@,
        "write_batch"@,
        "write_record"@,
        "flush"@,
        "commit"@,
        "rollback"@,
        "get_write_state"@,
    ]
}

/// The standard functions of a processor.
pub open spec fn processor_function_names() -> Seq<Seq<char>> {
    seq!["process_record"@, "process_batch"@, "get_input_schema"@, "get_output_schema"@, "get_state"@]
}

/// The standard functions of a transformer.
pub open spec fn transformer_function_names() -> Seq<Seq<char>> {
    seq!["transform"@, "transform_batch"@, "validate_input"@, "get_transformation_rules"@]
}

/// The standard functions of a filter.
pub open spec fn filter_function_names() -> Seq<Seq<char>> {
    seq!["filter"@, "filter_batch"@, "validate_filter_expression"@, "get_filter_stats"@]
}

/// The standard functions of an aggregator.
pub open spec fn aggregator_function_names() -> Seq<Seq<char>> {
    seq!["aggregate"@, "aggregate_batch"@, "reset_aggregation"@, "get_aggregation_result"@, "get_aggregation_stats"@]
}

/// The standard functions of the component kind named `kind` (lowercase):
/// those of a built-in kind, or `transform` alone for any other name.
pub open spec fn functions_for_kind(kind: Seq<char>) -> Seq<Seq<char>> {
    if kind == "source"@ {
        source_function_names()
    } else if kind == "destination"@ {
        destination_function_names()
    } else if kind == "processor"@ {
        processor_function_names()
    } else if kind == "transformer"@ {
        transformer_function_names()
    } else if kind == "filter"@ {
        filter_function_names()
    } else if kind == "aggregator"@ {
        aggregator_function_names()
    } else {
        seq!["transform"@]
    }
}

/// The standard function names of each DSL component kind.
#[derive(Debug, Clone, Copy)]
pub struct DslFunctionMapper;

impl DslFunctionMapper {
    /// The standard functions of a source.
    pub fn source_functions() -> (r: Vec<String>)
        ensures
            string_views(r@) == source_function_names(),
    {
        let r = vec![
            String::from_str("discover_schema"),
            String::from_str("read_batch"),
            String::from_str("read_stream"),
            String::from_str("get_state"),
            String::from_str("commit"),
            String::from_str("seek"),
            String::from_str("estimate_count"),
        ];
        assert(string_views(r@) =~= source_function_names());
        r
    }

    /// The standard functions of a destination.
    pub fn destination_functions() -> (r: Vec<String>)
        ensures
            string_views(r@) == destination_function_names(),
    {
        let r = vec![
            String::from_str("prepare_schema"),
            String::from_str("write_batch"),
            String::from_str("write_record"),
            String::from_str("flush"),
            String::from_str("commit"),
            String::from_str("rollback"),
            String::from_str("get_write_state"),
        ];
        assert(string_views(r@) =~= destination_function_names());
        r
    }

    /// The standard functions of a processor.
    pub fn processor_functions() -> (r: Vec<String>)
        ensures
            string_views(r@) == processor_function_names(),
    {
        let r = vec![
            String::from_str("process_record"),
            String::from_str("process_batch"),
            String::from_str("get_input_schema"),
            String::from_str("get_output_schema"),
            String::from_str("get_state"),
        ];
        assert(string_views(r@) =~= processor_function_names());
        r
    }

    /// The standard functions of a transformer.
    pub fn transformer_functions() -> (r: Vec<String>)
        ensures
            string_views(r@) == transformer_function_names(),
    {
        let r = vec![
            String::from_str("transform"),
            String::from_str("transform_batch"),
            String::from_str("validate_input"),
            String::from_str("get_transformation_rules"),
        ];
        assert(string_views(r@) =~= transformer_function_names());
        r
    }

    /// The standard functions of a filter.
    pub fn filter_functions() -> (r: Vec<String>)
        ensures
            string_views(r@) == filter_function_names(),
    {
        let r = vec![
            String::from_str("filter"),
            String::from_str("filter_batch"),
            String::from_str("validate_filter_expression"),
            String::from_str("get_filter_stats"),
        ];
        assert(string_views(r@) =~= filter_function_names());
        r
    }

    /// The standard functions of an aggregator.
    pub fn aggregator_functions() -> (r: Vec<String>)
        ensures
            string_views(r@) == aggregator_function_names(),
    {
        let r = vec![
            String::from_str("aggregate"),
            String::from_str("aggregate_batch"),
            String::from_str("reset_aggregation"),
            String::from_str("get_aggregation_result"),
            String::from_str("get_aggregation_stats"),
        ];
        assert(string_views(r@) =~= aggregator_function_names());
        r
    }

    /// The standard functions of the kind named `component_type`, compared
    /// without regard to case.
    pub fn get_functions_for_component(component_type: &str) -> (r: Vec<String>)
        ensures
            string_views(r@) == functions_for_kind(lowercase(component_type@)),
    {
        let lower = to_lowercase(component_type);
        let l = lower.as_str();
        if str_eq(l, "source") {
            Self::source_functions()
        } else if str_eq(l, "destination") {
            Self::destination_functions()
        } else if str_eq(l, "processor") {
            Self::processor_functions()
        } else if str_eq(l, "transformer") {
            Self::transformer_functions()
        } else if str_eq(l, "filter") {
            Self::filter_functions()
        } else if str_eq(l, "aggregator") {
            Self::aggregator_functions()
        } else {
            let r = vec![String::from_str("transform")];
            assert(string_views(r@) =~= seq!["transform"@]);
            r
        }
    }
}

} // verus!
