//! Component kinds of the DSL (sources, destinations, processors,
//! transformers, filters, aggregators and custom ones), the registry of kind
//! names and the checks on a component's configuration.

use std::collections::HashMap;
use vstd::prelude::*;
use crate::keyed::KeyedList;
use crate::text::{concat, lowercase, str_eq, string_views, to_lowercase};
use crate::wasm_error::{WasmError, WasmResult};

verus! {

/// The kind of a plugin component.
#[derive(Debug, Clone, PartialEq)]
pub enum WasmComponentType {
    Source,
    Destination,
    Processor,
    Transformer,
    Filter,
    Aggregator,
    /// A kind known only by its name.
    Custom(String),
}

/// The built-in kind a lowercase name denotes, if any.
pub open spec fn builtin_kind(name: Seq<char>) -> Option<WasmComponentType> {
    if name == "source"@ {
        Some(WasmComponentType::Source)
    } else if name == "destination"@ {
        Some(WasmComponentType::Destination)
    } else if name == "processor"@ {
        Some(WasmComponentType::Processor)
    } else if name == "transformer"@ {
        Some(WasmComponentType::Transformer)
    } else if name == "filter"@ {
        Some(WasmComponentType::Filter)
    } else if name == "aggregator"@ {
        Some(WasmComponentType::Aggregator)
    } else {
        None
    }
}

/// Whether `t` is the kind that the lowercase name `name` denotes: a
/// built-in kind, or else a custom kind of that name.
pub open spec fn denotes(name: Seq<char>, t: WasmComponentType) -> bool {
    match builtin_kind(name) {
        Some(k) => t == k,
        None => t matches WasmComponentType::Custom(n) && n@ == name,
    }
}

/// The name of a kind.
pub open spec fn kind_name(t: WasmComponentType) -> Seq<char> {
    match t {
        WasmComponentType::Source => "source"@,
        WasmComponentType::Destination => "destination"@,
        WasmComponentType::Processor => "processor"@,
        WasmComponentType::Transformer => "transformer"@,
        WasmComponentType::Filter => "filter"@,
        WasmComponentType::Aggregator => "aggregator"@,
        WasmComponentType::Custom(name) => name@,
    }
}

impl WasmComponentType {
    /// The kind named by `s`, compared without regard to case; a name that is
    /// not built in gives a custom kind of the lowercased name.
    pub fn from_str(s: &str) -> (r: WasmResult<Self>)
        ensures
            r matches Ok(t) && denotes(lowercase(s@), t),
    {
        let lower = to_lowercase(s);
        let l = lower.as_str();
        if str_eq(l, "source") {
            Ok(WasmComponentType::Source)
        } else if str_eq(l, "destination") {
            Ok(WasmComponentType::Destination)
        } else if str_eq(l, "processor") {
            Ok(WasmComponentType::Processor)
        } else if str_eq(l, "transformer") {
            Ok(WasmComponentType::Transformer)
        } else if str_eq(l, "filter") {
            Ok(WasmComponentType::Filter)
        } else if str_eq(l, "aggregator") {
            Ok(WasmComponentType::Aggregator)
        } else {
            Ok(WasmComponentType::Custom(lower))
        }
    }

    /// The name of this kind.
    pub fn to_string(&self) -> (s: String)
        ensures
            s@ == kind_name(*self),
    {
        match self {
            WasmComponentType::Source => String::from_str("source"),
            WasmComponentType::Destination => String::from_str("destination"),
            WasmComponentType::Processor => String::from_str("processor"),
            WasmComponentType::Transformer => String::from_str("transformer"),
            WasmComponentType::Filter => String::from_str("filter"),
            WasmComponentType::Aggregator => String::from_str("aggregator"),
            WasmComponentType::Custom(name) => name.clone(),
        }
    }
}

/// The six built-in names are distinct.
proof fn lemma_builtin_names_distinct()
    ensures
        default_kind_names().no_duplicates(),
        forall|i: int| 0 <= i < 6 ==> (#[trigger] default_kind_names()[i]).len() > 0,
{
    reveal_strlit("source");
    reveal_strlit("destination");
    reveal_strlit("processor");
    reveal_strlit("transformer");
    reveal_strlit("filter");
    reveal_strlit("aggregator");
    let n = default_kind_names();
    assert(n[0].len() == 6 && n[1].len() == 11 && n[2].len() == 9 && n[3].len() == 11 && n[4].len() == 6
        && n[5].len() == 10);
    assert(n[0][0] == 's' && n[4][0] == 'f');
    assert(n[1][0] == 'd' && n[3][0] == 't');
}

/// Reading back the name of a built-in kind gives the same kind.
pub proof fn lemma_builtin_kind_round_trip(t: WasmComponentType)
    requires
        !(t is Custom),
    ensures
        ascii_without_uppercase_name(t),
        denotes(kind_name(t), t),
{
    lemma_builtin_names_distinct();
    let n = default_kind_names();
    assert(n[0] != n[1] && n[0] != n[2] && n[0] != n[3] && n[0] != n[4] && n[0] != n[5]);
    assert(n[1] != n[2] && n[1] != n[3] && n[1] != n[4] && n[1] != n[5]);
    assert(n[2] != n[3] && n[2] != n[4] && n[2] != n[5]);
    assert(n[3] != n[4] && n[3] != n[5]);
    assert(n[4] != n[5]);
    reveal_strlit("source");
    reveal_strlit("destination");
    reveal_strlit("processor");
    reveal_strlit("transformer");
    reveal_strlit("filter");
    reveal_strlit("aggregator");
}

/// The name of a built-in kind is plain lowercase ASCII.
pub open spec fn ascii_without_uppercase_name(t: WasmComponentType) -> bool {
    crate::text::ascii_without_uppercase(kind_name(t))
}

/// The configuration of a component.
#[derive(Debug, Clone)]
pub struct WasmComponentConfig {
    pub component_type: WasmComponentType,
    pub name: String,
    pub wasm_module_path: String,
    pub config: Option<HashMap<String, serde_json::Value>>,
    pub runtime_config: Option<HashMap<String, serde_json::Value>>,
    pub metadata: Option<HashMap<String, String>>,
}

/// The kind of component built for a configuration of kind `t`: a custom
/// kind is built as a processor, every other kind as itself.
pub open spec fn built_kind(t: WasmComponentType) -> WasmComponentType {
    match t {
        WasmComponentType::Custom(_) => WasmComponentType::Processor,
        _ => t,
    }
}

/// The names under which the factory knows component kinds.
#[derive(Debug)]
pub struct WasmComponentFactory {
    registered_types: KeyedList<WasmComponentType>,
}

/// The six built-in kinds under their names, in the order they are
/// registered.
pub open spec fn default_kind_names() -> Seq<Seq<char>> {
    seq!["source"@, "destination"@, "processor"@, "transformer"@, "filter"@, "aggregator"@]
}

impl WasmComponentFactory {
    /// The registered names are distinct.
    pub closed spec fn wf(self) -> bool {
        self.registered_types.wf()
    }

    /// The registered kinds by name.
    pub closed spec fn types(self) -> Map<Seq<char>, WasmComponentType> {
        self.registered_types.map()
    }

    /// The registered names in the order they were first registered.
    pub closed spec fn names(self) -> Seq<Seq<char>> {
        self.registered_types.key_order()
    }

    /// A well-formed factory lists each registered name once, and nothing
    /// else.
    pub proof fn lemma_names_listed_once(self)
        requires
            self.wf(),
        ensures
            self.names().no_duplicates(),
            self.names().to_set() == self.types().dom(),
            self.names().len() == self.types().dom().len(),
    {
        self.registered_types.lemma_model();
    }

    /// A factory that knows the six built-in kinds under their names.
    pub fn new() -> (f: Self)
        ensures
            f.wf(),
            f.names() == default_kind_names(),
            forall|i: int| 0 <= i < 6 ==> #[trigger] f.types().contains_key(default_kind_names()[i])
                && builtin_kind(default_kind_names()[i]) == Some(f.types()[default_kind_names()[i]]),
    {
        let mut f = WasmComponentFactory { registered_types: KeyedList::new() };
        f.register_default_types();
        f
    }

    /// Registers the six built-in kinds under their names.
    fn register_default_types(&mut self)
        requires
            old(self).wf(),
            old(self).names().len() == 0,
        ensures
            final(self).wf(),
            final(self).names() == default_kind_names(),
            forall|i: int| 0 <= i < 6 ==> #[trigger] final(self).types().contains_key(default_kind_names()[i])
                && builtin_kind(default_kind_names()[i]) == Some(final(self).types()[default_kind_names()[i]]),
    {
        let ghost n = default_kind_names();
        proof {
            lemma_builtin_names_distinct();
            self.registered_types.lemma_model();
        }
        self.registered_types.insert(String::from_str("source"), WasmComponentType::Source);
        proof { self.registered_types.lemma_model(); }
        assert(self.names() =~= n.subrange(0, 1));
        self.registered_types.insert(String::from_str("destination"), WasmComponentType::Destination);
        proof { self.registered_types.lemma_model(); }
        assert(self.names() =~= n.subrange(0, 2));
        self.registered_types.insert(String::from_str("processor"), WasmComponentType::Processor);
        proof { self.registered_types.lemma_model(); }
        assert(self.names() =~= n.subrange(0, 3));
        self.registered_types.insert(String::from_str("transformer"), WasmComponentType::Transformer);
        proof { self.registered_types.lemma_model(); }
        assert(self.names() =~= n.subrange(0, 4));
        self.registered_types.insert(String::from_str("filter"), WasmComponentType::Filter);
        proof { self.registered_types.lemma_model(); }
        assert(self.names() =~= n.subrange(0, 5));
        self.registered_types.insert(String::from_str("aggregator"), WasmComponentType::Aggregator);
        proof { self.registered_types.lemma_model(); }
        assert(self.names() =~= n);
        proof {
            reveal_strlit("source");
            reveal_strlit("destination");
            reveal_strlit("processor");
            reveal_strlit("transformer");
            reveal_strlit("filter");
            reveal_strlit("aggregator");
        }
    }

    /// Registers `component_type` under `name`, replacing what was there.
    pub fn register_component_type(&mut self, name: String, component_type: WasmComponentType)
        requires
            old(self).wf(),
        ensures
            final(self).wf(),
            final(self).types() == old(self).types().insert(name@, component_type),
            old(self).types().contains_key(name@) ==> final(self).names() == old(self).names(),
            !old(self).types().contains_key(name@) ==> final(self).names() == old(self).names().push(name@),
    {
        self.registered_types.insert(name, component_type);
    }

    /// The registered names.
    pub fn list_component_types(&self) -> (names: Vec<String>)
        requires
            self.wf(),
        ensures
            string_views(names@) == self.names(),
    {
        self.registered_types.keys()
    }

    /// The configuration the component for `config` is built from: the
    /// same configuration, except that a custom kind is built as a
    /// processor. The connector itself is instantiated by the WASM runtime
    /// that loads the module.
    pub fn create_component(&self, config: WasmComponentConfig) -> (c: WasmComponentConfig)
        ensures
            c.component_type == built_kind(config.component_type),
            c.name == config.name,
            c.wasm_module_path == config.wasm_module_path,
            c.config == config.config,
            c.runtime_config == config.runtime_config,
            c.metadata == config.metadata,
    {
        let mut c = config;
        match c.component_type {
            WasmComponentType::Custom(_) => {
                c.component_type = WasmComponentType::Processor;
            },
            _ => {},
        }
        c
    }

    /// Checks a configuration: the module path must not be empty, the module
    /// must exist (`module_exists`, which the caller finds out from the file
    /// system), and the name must not be empty, in that order.
    pub fn validate_config(&self, config: &WasmComponentConfig, module_exists: bool) -> (r: WasmResult<()>)
        ensures
            config.wasm_module_path@.len() == 0 ==> r matches Err(WasmError::Configuration(_)),
            config.wasm_module_path@.len() > 0 && !module_exists ==> (r matches Err(WasmError::Configuration(m))
                && m@ == "WASM模块文件不存在: "@ + config.wasm_module_path@),
            config.wasm_module_path@.len() > 0 && module_exists && config.name@.len() == 0 ==> r matches Err(
                WasmError::Configuration(_),
            ),
            r is Ok <==> (config.wasm_module_path@.len() > 0 && module_exists && config.name@.len() > 0),
    {
        if config.wasm_module_path.as_str().unicode_len() == 0 {
            return Err(WasmError::Configuration(String::from_str("WASM模块路径不能为空")));
        }
        if !module_exists {
            return Err(WasmError::Configuration(concat("WASM模块文件不存在: ", config.wasm_module_path.as_str())));
        }
        if config.name.as_str().unicode_len() == 0 {
            return Err(WasmError::Configuration(String::from_str("组件名称不能为空")));
        }
        Ok(())
    }
}

impl Default for WasmComponentFactory {
    fn default() -> (f: Self)
        ensures
            f.wf(),
            f.names() == default_kind_names(),
    {
        WasmComponentFactory::new()
    }
}

/// How many loaded components there are of each kind.
#[derive(Debug, Clone)]
pub struct WasmComponentStats {
    pub total_components: usize,
    pub source_components: usize,
    pub destination_components: usize,
    pub processor_components: usize,
    pub transformer_components: usize,
    pub filter_components: usize,
    pub aggregator_components: usize,
    pub custom_components: usize,
}

/// How many kinds in `types` satisfy `p`.
pub open spec fn count_kinds(types: Seq<WasmComponentType>, p: spec_fn(WasmComponentType) -> bool) -> nat
    decreases types.len(),
{
    if types.len() == 0 {
        0
    } else {
        count_kinds(types.drop_last(), p) + if p(types.last()) { 1nat } else { 0nat }
    }
}

/// The test "is a source", and so on for each kind.
pub open spec fn is_source() -> spec_fn(WasmComponentType) -> bool { |t: WasmComponentType| t is Source }
pub open spec fn is_destination() -> spec_fn(WasmComponentType) -> bool { |t: WasmComponentType| t is Destination }
pub open spec fn is_processor() -> spec_fn(WasmComponentType) -> bool { |t: WasmComponentType| t is Processor }
pub open spec fn is_transformer() -> spec_fn(WasmComponentType) -> bool { |t: WasmComponentType| t is Transformer }
pub open spec fn is_filter() -> spec_fn(WasmComponentType) -> bool { |t: WasmComponentType| t is Filter }
pub open spec fn is_aggregator() -> spec_fn(WasmComponentType) -> bool { |t: WasmComponentType| t is Aggregator }
pub open spec fn is_custom() -> spec_fn(WasmComponentType) -> bool { |t: WasmComponentType| t is Custom }

/// The statistics of components of the kinds `types`, one entry per
/// component.
pub open spec fn stats_of(types: Seq<WasmComponentType>) -> WasmComponentStats {
    WasmComponentStats {
        total_components: types.len() as usize,
        source_components: count_kinds(types, is_source()) as usize,
        destination_components: count_kinds(types, is_destination()) as usize,
        processor_components: count_kinds(types, is_processor()) as usize,
        transformer_components: count_kinds(types, is_transformer()) as usize,
        filter_components: count_kinds(types, is_filter()) as usize,
        aggregator_components: count_kinds(types, is_aggregator()) as usize,
        custom_components: count_kinds(types, is_custom()) as usize,
    }
}

/// A kind is counted at most once per component.
pub proof fn lemma_count_kinds_bounded(types: Seq<WasmComponentType>, p: spec_fn(WasmComponentType) -> bool)
    ensures
        count_kinds(types, p) <= types.len(),
    decreases types.len(),
{
    if types.len() > 0 {
        lemma_count_kinds_bounded(types.drop_last(), p);
    }
}

/// Every component is counted under exactly one kind.
pub proof fn lemma_kind_counts_sum(types: Seq<WasmComponentType>)
    ensures
        count_kinds(types, is_source()) + count_kinds(types, is_destination())
            + count_kinds(types, is_processor()) + count_kinds(types, is_transformer())
            + count_kinds(types, is_filter()) + count_kinds(types, is_aggregator())
            + count_kinds(types, is_custom()) == types.len(),
    decreases types.len(),
{
    if types.len() > 0 {
        lemma_kind_counts_sum(types.drop_last());
    }
}

/// The statistics of the loaded components whose kinds are `types`.
pub fn component_stats(types: &Vec<WasmComponentType>) -> (s: WasmComponentStats)
    ensures
        s == stats_of(types@),
{
    let mut s = WasmComponentStats {
        total_components: types.len(),
        source_components: 0,
        destination_components: 0,
        processor_components: 0,
        transformer_components: 0,
        filter_components: 0,
        aggregator_components: 0,
        custom_components: 0,
    };
    let mut i: usize = 0;
    while i < types.len()
        invariant
            i <= types@.len(),
            s.total_components == types@.len(),
            s.source_components == count_kinds(types@.subrange(0, i as int), is_source()),
            s.destination_components == count_kinds(types@.subrange(0, i as int), is_destination()),
            s.processor_components == count_kinds(types@.subrange(0, i as int), is_processor()),
            s.transformer_components == count_kinds(types@.subrange(0, i as int), is_transformer()),
            s.filter_components == count_kinds(types@.subrange(0, i as int), is_filter()),
            s.aggregator_components == count_kinds(types@.subrange(0, i as int), is_aggregator()),
            s.custom_components == count_kinds(types@.subrange(0, i as int), is_custom()),
        decreases types.len() - i,
    {
        let ghost prefix = types@.subrange(0, i as int + 1);
        assert(prefix.drop_last() =~= types@.subrange(0, i as int));
        proof {
            lemma_kind_counts_sum(types@.subrange(0, i as int));
        }
        match &types[i] {
            WasmComponentType::Source => s.source_components = s.source_components + 1,
            WasmComponentType::Destination => s.destination_components = s.destination_components + 1,
            WasmComponentType::Processor => s.processor_components = s.processor_components + 1,
            WasmComponentType::Transformer => s.transformer_components = s.transformer_components + 1,
            WasmComponentType::Filter => s.filter_components = s.filter_components + 1,
            WasmComponentType::Aggregator => s.aggregator_components = s.aggregator_components + 1,
            WasmComponentType::Custom(_) => s.custom_components = s.custom_components + 1,
        }
        i = i + 1;
    }
    assert(types@.subrange(0, i as int) =~= types@);
    s
}

} // verus!
