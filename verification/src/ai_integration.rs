//! AI functions served by WASM plugins: which plugin function each built-in
//! AI function is bound to, how a call is routed, and the result cache and
//! counters of the integrator. The plugin calls themselves are awaited by
//! the caller, which hands the outcome back.

use vstd::prelude::*;
use serde_json::Value;
use crate::json::json_text_of;
use crate::keyed::KeyedList;
use crate::text::{concat, str_eq, string_views};

verus! {

/// The configuration of the AI integration.
#[derive(Debug, Clone)]
pub struct AIWasmConfig {
    /// The AI functions to register at start-up.
    pub enabled_ai_functions: Vec<String>,
    /// AI function name to the id of the plugin that implements it.
    pub wasm_plugin_mappings: KeyedList<String>,
    /// Settings of each AI model.
    pub ai_model_config: KeyedList<Value>,
    pub vector_store_config: Option<Value>,
    pub cache_config: Option<Value>,
}

/// The names of the built-in AI functions, in registration order.
pub open spec fn builtin_ai_functions() -> Seq<Seq<char>> {
    seq!["embed"@, "sentiment_analysis"@, "vector_search"@, "llm_summarize"@, "text_classification"@]
}

impl Default for AIWasmConfig {
    /// Every built-in AI function enabled, no plugin mapping, no model,
    /// vector store or cache settings.
    fn default() -> (c: Self)
        ensures
            string_views(c.enabled_ai_functions@) == builtin_ai_functions(),
            c.wasm_plugin_mappings.wf(),
            c.wasm_plugin_mappings.map() == Map::<Seq<char>, String>::empty(),
            c.ai_model_config.wf(),
            c.ai_model_config.map() == Map::<Seq<char>, Value>::empty(),
            c.vector_store_config is None,
            c.cache_config is None,
    {
        let enabled = vec![
            String::from_str("embed"),
            String::from_str("sentiment_analysis"),
            String::from_str("vector_search"),
            String::from_str("llm_summarize"),
            String::from_str("text_classification"),
        ];
        assert(string_views(enabled@) =~= builtin_ai_functions());
        AIWasmConfig {
            enabled_ai_functions: enabled,
            wasm_plugin_mappings: KeyedList::new(),
            ai_model_config: KeyedList::new(),
            vector_store_config: None,
            cache_config: None,
        }
    }
}

/// Counters of the integration.
#[derive(Debug, Clone, Copy, PartialEq, Eq, Structural)]
pub struct AIWasmStats {
    pub ai_function_calls: u64,
    pub wasm_function_calls: u64,
    pub cache_hits: u64,
    pub cache_misses: u64,
    pub total_execution_time_ms: u64,
    pub error_count: u64,
}

/// Counters all at zero.
pub open spec fn zero_stats() -> AIWasmStats {
    AIWasmStats {
        ai_function_calls: 0,
        wasm_function_calls: 0,
        cache_hits: 0,
        cache_misses: 0,
        total_execution_time_ms: 0,
        error_count: 0,
    }
}

impl Default for AIWasmStats {
    /// All counters at zero.
    fn default() -> (s: Self)
        ensures
            s == zero_stats(),
    {
        AIWasmStats {
            ai_function_calls: 0,
            wasm_function_calls: 0,
            cache_hits: 0,
            cache_misses: 0,
            total_execution_time_ms: 0,
            error_count: 0,
        }
    }
}

/// A registration of an AI function with the plugin bridge: the plugin and
/// the plugin function that serve it, and a description.
#[derive(Debug, Clone)]
pub struct AiFunctionBinding {
    pub function_name: String,
    pub plugin_id: String,
    pub wasm_function: String,
    pub description: String,
}

/// The plugin, plugin function and description that serve a built-in AI
/// function; `None` for a name that is not built in.
pub open spec fn spec_builtin_binding(name: Seq<char>) -> Option<(Seq<char>, Seq<char>, Seq<char>)> {
    if name == "embed"@ {
        Some(("ai_embedding_plugin"@, "generate_embedding"@, "生成文本嵌入向量"@))
    } else if name == "sentiment_analysis"@ {
        Some(("ai_sentiment_plugin"@, "analyze_sentiment"@, "分析文本情感"@))
    } else if name == "vector_search"@ {
        Some(("ai_vector_plugin"@, "search_vectors"@, "向量相似性搜索"@))
    } else if name == "llm_summarize"@ {
        Some(("ai_llm_plugin"@, "summarize_text"@, "LLM文本摘要"@))
    } else if name == "text_classification"@ {
        Some(("ai_classification_plugin"@, "classify_text"@, "文本分类"@))
    } else {
        None
    }
}

/// Whether a binding registers `name` as the given triple.
pub open spec fn binding_is(b: AiFunctionBinding, name: Seq<char>, t: (Seq<char>, Seq<char>, Seq<char>)) -> bool {
    &&& b.function_name@ == name
    &&& b.plugin_id@ == t.0
    &&& b.wasm_function@ == t.1
    &&& b.description@ == t.2
}

/// A binding read as its function name, plugin, plugin function and
/// description.
pub open spec fn binding_view(b: AiFunctionBinding) -> (Seq<char>, Seq<char>, Seq<char>, Seq<char>) {
    (b.function_name@, b.plugin_id@, b.wasm_function@, b.description@)
}

/// The registrations of the built-in functions among `names`, in order;
/// other names are skipped.
pub open spec fn builtin_bindings(names: Seq<Seq<char>>) -> Seq<(Seq<char>, Seq<char>, Seq<char>, Seq<char>)>
    decreases names.len(),
{
    if names.len() == 0 {
        Seq::empty()
    } else {
        let rest = builtin_bindings(names.drop_last());
        match spec_builtin_binding(names.last()) {
            Some(t) => rest.push((names.last(), t.0, t.1, t.2)),
            None => rest,
        }
    }
}

/// The registration of the mapping of `ai_function` to `plugin_id`.
pub open spec fn mapping_binding(ai_function: Seq<char>, plugin_id: Seq<char>) -> (Seq<char>, Seq<char>, Seq<char>, Seq<char>) {
    (ai_function, plugin_id, "process"@, "AI函数 "@ + ai_function + " 的WASM实现"@)
}

/// The registrations of the configured mappings, in the order they were
/// configured.
pub open spec fn mapping_bindings(m: KeyedList<String>) -> Seq<(Seq<char>, Seq<char>, Seq<char>, Seq<char>)> {
    m.key_order().map_values(|k: Seq<char>| mapping_binding(k, m.map()[k]@))
}

fn make_binding(name: &str, plugin: &str, function: &str, description: &str) -> (b: AiFunctionBinding)
    ensures
        binding_is(b, name@, (plugin@, function@, description@)),
{
    AiFunctionBinding {
        function_name: String::from_str(name),
        plugin_id: String::from_str(plugin),
        wasm_function: String::from_str(function),
        description: String::from_str(description),
    }
}

/// The registration of a built-in AI function; `None` for an unknown name,
/// which is skipped.
pub fn register_ai_function(function_name: &str) -> (r: Option<AiFunctionBinding>)
    ensures
        match spec_builtin_binding(function_name@) {
            Some(t) => r matches Some(b) && binding_is(b, function_name@, t),
            None => r is None,
        },
{
    if str_eq(function_name, "embed") {
        Some(make_binding("embed", "ai_embedding_plugin", "generate_embedding", "生成文本嵌入向量"))
    } else if str_eq(function_name, "sentiment_analysis") {
        Some(make_binding("sentiment_analysis", "ai_sentiment_plugin", "analyze_sentiment", "分析文本情感"))
    } else if str_eq(function_name, "vector_search") {
        Some(make_binding("vector_search", "ai_vector_plugin", "search_vectors", "向量相似性搜索"))
    } else if str_eq(function_name, "llm_summarize") {
        Some(make_binding("llm_summarize", "ai_llm_plugin", "summarize_text", "LLM文本摘要"))
    } else if str_eq(function_name, "text_classification") {
        Some(make_binding("text_classification", "ai_classification_plugin", "classify_text", "文本分类"))
    } else {
        None
    }
}

/// The registration of a configured mapping: the plugin's `process`
/// function serves the AI function.
pub fn register_wasm_mapping(ai_function: &str, plugin_id: &str) -> (b: AiFunctionBinding)
    ensures
        binding_is(b, ai_function@, (plugin_id@, "process"@, "AI函数 "@ + ai_function@ + " 的WASM实现"@)),
{
    let head = concat("AI函数 ", ai_function);
    let description = concat(head.as_str(), " 的WASM实现");
    AiFunctionBinding {
        function_name: String::from_str(ai_function),
        plugin_id: String::from_str(plugin_id),
        wasm_function: String::from_str("process"),
        description,
    }
}

/// The results of these functions are cached.
pub open spec fn spec_should_cache(name: Seq<char>) -> bool {
    name == "embed"@ || name == "sentiment_analysis"@ || name == "text_classification"@
}

/// Whether the result of `function_name` is kept in the cache.
pub fn should_cache_result(function_name: &str) -> (b: bool)
    ensures
        b == spec_should_cache(function_name@),
{
    str_eq(function_name, "embed") || str_eq(function_name, "sentiment_analysis") || str_eq(
        function_name,
        "text_classification",
    )
}

/// Where an AI call goes.
#[derive(Debug, Clone, Copy, PartialEq, Eq, Structural)]
pub enum AiRoute {
    /// To the plugin mapped to the built-in function.
    MappedPlugin,
    /// To the built-in default answer.
    BuiltinDefault,
    /// To a plugin function of the same name (not a built-in function).
    CustomPlugin,
}

/// The argument error of a built-in function, if its arguments are refused:
/// each needs at least one argument, `vector_search` two, and `embed` a text
/// first.
pub open spec fn spec_argument_error(name: Seq<char>, arg_count: nat, first_is_text: bool) -> Option<Seq<char>> {
    if name == "embed"@ {
        if arg_count == 0 {
            Some("embed函数需要文本参数"@)
        } else if !first_is_text {
            Some("embed函数的第一个参数必须是字符串"@)
        } else {
            None
        }
    } else if name == "sentiment_analysis"@ {
        if arg_count == 0 { Some("sentiment_analysis函数需要文本参数"@) } else { None }
    } else if name == "vector_search"@ {
        if arg_count < 2 { Some("vector_search函数需要查询向量和搜索参数"@) } else { None }
    } else if name == "llm_summarize"@ {
        if arg_count == 0 { Some("llm_summarize函数需要文本参数"@) } else { None }
    } else if name == "text_classification"@ {
        if arg_count == 0 { Some("text_classification函数需要文本参数"@) } else { None }
    } else {
        None
    }
}

/// The route of a call: an unknown name goes to a plugin function of that
/// name; a built-in one is refused on bad arguments, and otherwise goes to
/// its mapped plugin when there is one, else to the default answer.
pub open spec fn spec_route(name: Seq<char>, mapped: bool, arg_count: nat, first_is_text: bool) -> Result<AiRoute, Seq<char>> {
    if spec_builtin_binding(name) is None {
        Ok(AiRoute::CustomPlugin)
    } else {
        match spec_argument_error(name, arg_count, first_is_text) {
            Some(m) => Err(m),
            None => if mapped { Ok(AiRoute::MappedPlugin) } else { Ok(AiRoute::BuiltinDefault) },
        }
    }
}

/// Whether `serde_json::Value::is_string` holds of `v`. Nothing is stated
/// of the result: the JSON value is opaque here.
#[verifier::external_body]
fn json_is_string(v: &Value) -> bool {
    v.is_string()
}

/// The cache key of a call: the function name, a colon, the arguments'
/// JSON text.
pub open spec fn spec_cache_key(name: Seq<char>, args_json: Seq<char>) -> Seq<char> {
    name + ":"@ + args_json
}

/// The AI integration's state: its configuration, its result cache keyed by
/// call, and its counters.
pub struct AIWasmIntegrator {
    config: AIWasmConfig,
    ai_function_cache: KeyedList<Value>,
    stats: AIWasmStats,
}

impl AIWasmIntegrator {
    pub closed spec fn wf(self) -> bool {
        self.config.wasm_plugin_mappings.wf() && self.ai_function_cache.wf()
    }

    /// The cached results by cache key.
    pub closed spec fn cache(self) -> Map<Seq<char>, Value> {
        self.ai_function_cache.map()
    }

    /// The counters.
    pub closed spec fn spec_stats(self) -> AIWasmStats {
        self.stats
    }

    /// The configuration.
    pub closed spec fn spec_config(self) -> AIWasmConfig {
        self.config
    }

    /// The AI function names that have a mapped plugin.
    pub closed spec fn mapped(self) -> Set<Seq<char>> {
        self.config.wasm_plugin_mappings.map().dom()
    }

    /// An integrator with an empty cache and zeroed counters.
    pub fn new(config: AIWasmConfig) -> (s: Self)
        requires
            config.wasm_plugin_mappings.wf(),
        ensures
            s.wf(),
            s.cache() == Map::<Seq<char>, Value>::empty(),
            s.spec_stats() == zero_stats(),
            s.mapped() == config.wasm_plugin_mappings.map().dom(),
    {
        AIWasmIntegrator { config, ai_function_cache: KeyedList::new(), stats: AIWasmStats::default() }
    }

    /// The registrations to make at start-up: each enabled built-in
    /// function, in order (unknown names skipped), then each configured
    /// mapping, in the order configured.
    pub fn initialize(&self) -> (r: Vec<AiFunctionBinding>)
        requires
            self.wf(),
        ensures
            r@.map_values(|b: AiFunctionBinding| binding_view(b)) == builtin_bindings(
                string_views(self.spec_config().enabled_ai_functions@),
            ) + mapping_bindings(self.spec_config().wasm_plugin_mappings),
    {
        let ghost names = string_views(self.config.enabled_ai_functions@);
        let mut out: Vec<AiFunctionBinding> = Vec::new();
        let mut i: usize = 0;
        while i < self.config.enabled_ai_functions.len()
            invariant
                names == string_views(self.config.enabled_ai_functions@),
                i <= self.config.enabled_ai_functions@.len(),
                out@.map_values(|b: AiFunctionBinding| binding_view(b)) == builtin_bindings(names.subrange(0, i as int)),
            decreases self.config.enabled_ai_functions@.len() - i,
        {
            let ghost before = out@;
            assert(names.subrange(0, i + 1).drop_last() =~= names.subrange(0, i as int));
            assert(names.subrange(0, i + 1).last() == self.config.enabled_ai_functions@[i as int]@);
            match register_ai_function(self.config.enabled_ai_functions[i].as_str()) {
                Some(b) => {
                    out.push(b);
                    assert(out@.map_values(|b: AiFunctionBinding| binding_view(b)) =~= before.map_values(
                        |b: AiFunctionBinding| binding_view(b),
                    ).push(binding_view(b)));
                },
                None => {},
            }
            i = i + 1;
        }
        assert(names.subrange(0, i as int) =~= names);
        let ghost built = builtin_bindings(names);
        let ghost m = self.config.wasm_plugin_mappings;
        let ghost f = |k: Seq<char>| mapping_binding(k, m.map()[k]@);
        let n = self.config.wasm_plugin_mappings.entry_count();
        let mut j: usize = 0;
        proof {
            m.lemma_model();
        }
        while j < n
            invariant
                m == self.config.wasm_plugin_mappings,
                m.wf(),
                n == m.entries().len(),
                n == m.key_order().len(),
                m.key_order() == crate::keyed::entry_keys(m.entries()),
                forall|q: int| 0 <= q < n ==> #[trigger] m.map()[m.entries()[q].0@] == m.entries()[q].1,
                f == (|k: Seq<char>| mapping_binding(k, m.map()[k]@)),
                j <= n,
                out@.map_values(|b: AiFunctionBinding| binding_view(b)) == built + m.key_order().subrange(0, j as int).map_values(f),
            decreases n - j,
        {
            let (name, plugin) = self.config.wasm_plugin_mappings.entry_at(j);
            let ghost before = out@;
            let b = register_wasm_mapping(name.as_str(), plugin.as_str());
            assert(m.key_order()[j as int] == name@);
            assert(m.map()[name@] == *plugin);
            out.push(b);
            assert(out@.map_values(|b: AiFunctionBinding| binding_view(b)) =~= before.map_values(
                |b: AiFunctionBinding| binding_view(b),
            ).push(binding_view(b)));
            assert(m.key_order().subrange(0, j + 1).map_values(f) =~= m.key_order().subrange(0, j as int).map_values(f).push(
                f(name@),
            ));
            j = j + 1;
        }
        assert(m.key_order().subrange(0, n as int) =~= m.key_order());
        out
    }

    /// The route of a call of `function_name` with `args`.
    pub fn route_call(&self, function_name: &str, args: &Vec<Value>) -> (r: Result<AiRoute, String>)
        requires
            self.wf(),
        ensures
            exists|first_is_text: bool|
                match #[trigger] spec_route(function_name@, self.mapped().contains(function_name@), args@.len(), first_is_text) {
                    Ok(route) => r == Ok::<AiRoute, String>(route),
                    Err(m) => r matches Err(e) && e@ == m,
                },
    {
        let first_is_text = if args.len() > 0 { json_is_string(&args[0]) } else { false };
        let mapped = self.config.wasm_plugin_mappings.contains_key(function_name);
        let r = Self::route_for(function_name, mapped, args.len(), first_is_text);
        assert(match spec_route(function_name@, self.mapped().contains(function_name@), args@.len(), first_is_text) {
            Ok(route) => r == Ok::<AiRoute, String>(route),
            Err(m) => r matches Err(e) && e@ == m,
        });
        r
    }

    /// The route of a call, given whether the function has a mapped plugin,
    /// how many arguments it has and whether the first is a JSON string.
    pub fn route_for(function_name: &str, mapped: bool, arg_count: usize, first_is_text: bool) -> (r: Result<AiRoute, String>)
        ensures
            match spec_route(function_name@, mapped, arg_count as nat, first_is_text) {
                Ok(route) => r == Ok::<AiRoute, String>(route),
                Err(m) => r matches Err(e) && e@ == m,
            },
    {
        let builtin = register_ai_function(function_name);
        if builtin.is_none() {
            return Ok(AiRoute::CustomPlugin);
        }
        let error: Option<&str> = if str_eq(function_name, "embed") {
            if arg_count == 0 {
                Some("embed函数需要文本参数")
            } else if !first_is_text {
                Some("embed函数的第一个参数必须是字符串")
            } else {
                None
            }
        } else if str_eq(function_name, "sentiment_analysis") {
            if arg_count == 0 { Some("sentiment_analysis函数需要文本参数") } else { None }
        } else if str_eq(function_name, "vector_search") {
            if arg_count < 2 { Some("vector_search函数需要查询向量和搜索参数") } else { None }
        } else if str_eq(function_name, "llm_summarize") {
            if arg_count == 0 { Some("llm_summarize函数需要文本参数") } else { None }
        } else {
            if arg_count == 0 { Some("text_classification函数需要文本参数") } else { None }
        };
        match error {
            Some(m) => Err(String::from_str(m)),
            None => if mapped { Ok(AiRoute::MappedPlugin) } else { Ok(AiRoute::BuiltinDefault) },
        }
    }

    /// The cache key of a call of `function_name` with `args`.
    pub fn cache_key(function_name: &str, args: &Vec<Value>) -> (k: String)
        ensures
            exists|text: Seq<char>| k@ == #[trigger] spec_cache_key(function_name@, text),
    {
        let text = json_text_of(args);
        Self::cache_key_for(function_name, text.as_str())
    }

    /// The cache key of a call whose arguments have the JSON text `args_json`.
    pub fn cache_key_for(function_name: &str, args_json: &str) -> (k: String)
        ensures
            k@ == spec_cache_key(function_name@, args_json@),
    {
        let head = concat(function_name, ":");
        concat(head.as_str(), args_json)
    }

    /// Starts a call: counts it, and answers it from the cache when the key
    /// is there (a hit), else counts a miss.
    pub fn begin_call(&mut self, cache_key: &str) -> (r: Option<Value>)
        requires
            old(self).wf(),
            old(self).spec_stats().ai_function_calls < u64::MAX,
            old(self).spec_stats().cache_hits < u64::MAX,
            old(self).spec_stats().cache_misses < u64::MAX,
        ensures
            final(self).wf(),
            final(self).cache() == old(self).cache(),
            final(self).mapped() == old(self).mapped(),
            old(self).cache().contains_key(cache_key@) ==> r == Some(old(self).cache()[cache_key@])
                && final(self).spec_stats() == (AIWasmStats {
                ai_function_calls: (old(self).spec_stats().ai_function_calls + 1) as u64,
                cache_hits: (old(self).spec_stats().cache_hits + 1) as u64,
                ..old(self).spec_stats()
            }),
            !old(self).cache().contains_key(cache_key@) ==> r is None && final(self).spec_stats() == (AIWasmStats {
                ai_function_calls: (old(self).spec_stats().ai_function_calls + 1) as u64,
                cache_misses: (old(self).spec_stats().cache_misses + 1) as u64,
                ..old(self).spec_stats()
            }),
    {
        self.stats.ai_function_calls = self.stats.ai_function_calls + 1;
        match self.ai_function_cache.get(cache_key) {
            Some(v) => {
                let value = v.clone();
                self.stats.cache_hits = self.stats.cache_hits + 1;
                Some(value)
            },
            None => {
                self.stats.cache_misses = self.stats.cache_misses + 1;
                None
            },
        }
    }

    /// Counts a call that went to a plugin.
    pub fn record_wasm_call(&mut self)
        requires
            old(self).spec_stats().wasm_function_calls < u64::MAX,
        ensures
            final(self).wf() == old(self).wf(),
            final(self).cache() == old(self).cache(),
            final(self).mapped() == old(self).mapped(),
            final(self).spec_stats() == (AIWasmStats {
                wasm_function_calls: (old(self).spec_stats().wasm_function_calls + 1) as u64,
                ..old(self).spec_stats()
            }),
    {
        self.stats.wasm_function_calls = self.stats.wasm_function_calls + 1;
    }

    /// Ends a call that took `elapsed_ms`: a result of a cached function is
    /// kept under the key; an error is counted.
    pub fn finish_call(&mut self, function_name: &str, cache_key: String, elapsed_ms: u64, result: &Result<Value, String>)
        requires
            old(self).wf(),
            old(self).spec_stats().total_execution_time_ms + elapsed_ms <= u64::MAX,
            old(self).spec_stats().error_count < u64::MAX,
        ensures
            final(self).wf(),
            final(self).mapped() == old(self).mapped(),
            final(self).spec_stats().total_execution_time_ms == old(self).spec_stats().total_execution_time_ms + elapsed_ms,
            final(self).spec_stats().error_count == old(self).spec_stats().error_count + (if result is Err { 1int } else { 0 }),
            final(self).spec_stats().ai_function_calls == old(self).spec_stats().ai_function_calls,
            final(self).spec_stats().wasm_function_calls == old(self).spec_stats().wasm_function_calls,
            final(self).spec_stats().cache_hits == old(self).spec_stats().cache_hits,
            final(self).spec_stats().cache_misses == old(self).spec_stats().cache_misses,
            final(self).cache() == (match result {
                Ok(v) => if spec_should_cache(function_name@) {
                    old(self).cache().insert(cache_key@, *v)
                } else {
                    old(self).cache()
                },
                Err(_) => old(self).cache(),
            }),
    {
        self.stats.total_execution_time_ms = self.stats.total_execution_time_ms + elapsed_ms;
        match result {
            Ok(v) => {
                if should_cache_result(function_name) {
                    let value = v.clone();
                    self.ai_function_cache.insert(cache_key, value);
                }
            },
            Err(_) => {
                self.stats.error_count = self.stats.error_count + 1;
            },
        }
    }

    /// The counters.
    pub fn get_stats(&self) -> (s: &AIWasmStats)
        ensures
            *s == self.spec_stats(),
    {
        &self.stats
    }

    /// Empties the cache.
    pub fn clear_cache(&mut self)
        requires
            old(self).wf(),
        ensures
            final(self).wf(),
            final(self).cache() == Map::<Seq<char>, Value>::empty(),
            final(self).spec_stats() == old(self).spec_stats(),
            final(self).mapped() == old(self).mapped(),
    {
        self.ai_function_cache.clear();
    }

    /// How many results are cached.
    pub fn get_cache_size(&self) -> (n: usize)
        requires
            self.wf(),
        ensures
            n == self.cache().dom().len(),
    {
        proof { self.ai_function_cache.lemma_model(); }
        self.ai_function_cache.len()
    }
}

/// A result kept in the cache under a key is the one a later call with that
/// key is answered with, and the other keys keep their results.
pub proof fn lemma_cache_returns_kept(cache: Map<Seq<char>, Value>, key: Seq<char>, value: Value, other: Seq<char>)
    requires
        other != key,
    ensures
        cache.insert(key, value).contains_key(key),
        cache.insert(key, value)[key] == value,
        cache.insert(key, value).contains_key(other) == cache.contains_key(other),
        cache.contains_key(other) ==> cache.insert(key, value)[other] == cache[other],
{
}

/// Unknown names always go to a plugin function of that name, whatever
/// their arguments.
pub proof fn lemma_unknown_names_go_to_plugins(name: Seq<char>, mapped: bool, arg_count: nat, first_is_text: bool)
    requires
        spec_builtin_binding(name) is None,
    ensures
        spec_route(name, mapped, arg_count, first_is_text) == Ok::<AiRoute, Seq<char>>(AiRoute::CustomPlugin),
{
}

} // verus!
