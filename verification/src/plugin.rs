//! What describes a loaded WASM plugin: its metadata, its status and its
//! counters.

use vstd::prelude::*;
use crate::clock::utc_now_millis;
use crate::interface::WasmPluginCapabilities;
use crate::wasm_error::WasmResult;
use crate::text::{contains_str, str_eq, string_views};

verus! {

/// What a plugin says of itself. Instants are milliseconds since the Unix
/// epoch (UTC).
#[derive(Debug, Clone)]
pub struct WasmPluginMetadata {
    pub name: String,
    pub version: String,
    pub author: String,
    pub description: String,
    pub dataflare_version: String,
    pub capabilities: WasmPluginCapabilities,
    pub supported_functions: Vec<String>,
    pub component_types: Vec<String>,
    pub created_at: i64,
    pub updated_at: i64,
}

impl WasmPluginMetadata {
    /// The metadata of an unknown plugin, created and updated at `now`.
    pub fn unknown_at(now: i64) -> (m: Self)
        ensures
            m.name@ == "unknown"@,
            m.version@ == "0.1.0"@,
            m.author@ == "unknown"@,
            m.description@ == "WASM plugin"@,
            m.dataflare_version@ == "0.1.0"@,
            m.supported_functions@.len() == 0,
            m.component_types@.len() == 0,
            m.created_at == now,
            m.updated_at == now,
    {
        WasmPluginMetadata {
            name: String::from_str("unknown"),
            version: String::from_str("0.1.0"),
            author: String::from_str("unknown"),
            description: String::from_str("WASM plugin"),
            dataflare_version: String::from_str("0.1.0"),
            capabilities: WasmPluginCapabilities::default(),
            supported_functions: Vec::new(),
            component_types: Vec::new(),
            created_at: now,
            updated_at: now,
        }
    }
}

impl Default for WasmPluginMetadata {
    /// The metadata of an unknown plugin, created and updated now.
    fn default() -> (m: Self)
        ensures
            m.name@ == "unknown"@,
            m.version@ == "0.1.0"@,
            m.author@ == "unknown"@,
            m.description@ == "WASM plugin"@,
            m.dataflare_version@ == "0.1.0"@,
            m.created_at == m.updated_at,
    {
        Self::unknown_at(utc_now_millis())
    }
}

/// The component kind an exported function's name suggests: reading
/// functions a source, writing ones a destination, and so on.
pub open spec fn kind_of_export(name: Seq<char>) -> Option<Seq<char>> {
    if name == "read_data"@ || name == "fetch_data"@ || name == "get_data"@ {
        Some("source"@)
    } else if name == "write_data"@ || name == "send_data"@ || name == "output_data"@ {
        Some("destination"@)
    } else if name == "process_record"@ || name == "process_batch"@ {
        Some("processor"@)
    } else if name == "transform"@ || name == "transform_batch"@ {
        Some("transformer"@)
    } else if name == "filter"@ || name == "filter_batch"@ {
        Some("filter"@)
    } else if name == "aggregate"@ || name == "aggregate_batch"@ {
        Some("aggregator"@)
    } else {
        None
    }
}

/// The kinds suggested by `names`, each once, in the order first suggested.
pub open spec fn suggested_kinds(names: Seq<Seq<char>>) -> Seq<Seq<char>>
    decreases names.len(),
{
    if names.len() == 0 {
        Seq::empty()
    } else {
        let before = suggested_kinds(names.drop_last());
        match kind_of_export(names.last()) {
            Some(k) => if before.contains(k) { before } else { before.push(k) },
            None => before,
        }
    }
}

/// The kinds a plugin exporting the functions `names` is taken to
/// provide: those their names suggest, or a processor when none does.
pub open spec fn kinds_for_exports(names: Seq<Seq<char>>) -> Seq<Seq<char>> {
    if suggested_kinds(names).len() == 0 {
        seq!["processor"@]
    } else {
        suggested_kinds(names)
    }
}

/// The kind the exported function `name` suggests.
fn export_kind(name: &str) -> (k: Option<&'static str>)
    ensures
        (match k {
            Some(s) => Some(s@),
            None => None,
        }) == kind_of_export(name@),
{
    if str_eq(name, "read_data") || str_eq(name, "fetch_data") || str_eq(name, "get_data") {
        Some("source")
    } else if str_eq(name, "write_data") || str_eq(name, "send_data") || str_eq(name, "output_data") {
        Some("destination")
    } else if str_eq(name, "process_record") || str_eq(name, "process_batch") {
        Some("processor")
    } else if str_eq(name, "transform") || str_eq(name, "transform_batch") {
        Some("transformer")
    } else if str_eq(name, "filter") || str_eq(name, "filter_batch") {
        Some("filter")
    } else if str_eq(name, "aggregate") || str_eq(name, "aggregate_batch") {
        Some("aggregator")
    } else {
        None
    }
}

/// Fills in what `metadata` leaves empty from the names of the functions
/// the module exports: the supported functions are those names, and the
/// component kinds those the names suggest (a processor when none does).
pub fn infer_capabilities_from_exports(function_exports: &Vec<String>, metadata: &mut WasmPluginMetadata) -> (r: WasmResult<()>)
    ensures
        r is Ok,
        string_views(final(metadata).supported_functions@) == if old(metadata).supported_functions@.len() == 0 {
            string_views(function_exports@)
        } else {
            string_views(old(metadata).supported_functions@)
        },
        string_views(final(metadata).component_types@) == if old(metadata).component_types@.len() == 0 {
            kinds_for_exports(string_views(function_exports@))
        } else {
            string_views(old(metadata).component_types@)
        },
        final(metadata).name == old(metadata).name,
        final(metadata).version == old(metadata).version,
        final(metadata).author == old(metadata).author,
        final(metadata).description == old(metadata).description,
        final(metadata).dataflare_version == old(metadata).dataflare_version,
        final(metadata).capabilities == old(metadata).capabilities,
        final(metadata).created_at == old(metadata).created_at,
        final(metadata).updated_at == old(metadata).updated_at,
{
    let ghost names = string_views(function_exports@);
    let mut functions: Vec<String> = Vec::new();
    let mut kinds: Vec<String> = Vec::new();
    let mut i: usize = 0;
    while i < function_exports.len()
        invariant
            i <= function_exports@.len(),
            names == string_views(function_exports@),
            string_views(functions@) == names.subrange(0, i as int),
            string_views(kinds@) == suggested_kinds(names.subrange(0, i as int)),
        decreases function_exports.len() - i,
    {
        let name = function_exports[i].as_str();
        let ghost before_f = functions@;
        let ghost before_k = kinds@;
        functions.push(function_exports[i].clone());
        assert(string_views(functions@) =~= string_views(before_f).push(name@));
        assert(names.subrange(0, i + 1) =~= names.subrange(0, i as int).push(name@));
        assert(names.subrange(0, i + 1).drop_last() =~= names.subrange(0, i as int));
        match export_kind(name) {
            Some(k) => {
                if !contains_str(&kinds, k) {
                    kinds.push(String::from_str(k));
                    assert(string_views(kinds@) =~= string_views(before_k).push(k@));
                }
            },
            None => {},
        }
        i = i + 1;
    }
    assert(names.subrange(0, function_exports@.len() as int) =~= names);
    if kinds.len() == 0 {
        kinds.push(String::from_str("processor"));
        assert(string_views(kinds@) =~= seq!["processor"@]);
    }
    if metadata.supported_functions.len() == 0 {
        metadata.supported_functions = functions;
    }
    if metadata.component_types.len() == 0 {
        metadata.component_types = kinds;
    }
    Ok(())
}

/// Where a plugin is in its life cycle.
#[derive(Debug, Clone, PartialEq, Eq)]
pub enum WasmPluginStatus {
    Uninitialized,
    Initialized,
    Running,
    Stopped,
    Error(String),
}

/// Counters of a plugin.
#[derive(Debug, Clone, Copy, PartialEq, Eq, Structural)]
pub struct WasmPluginStats {
    pub initialization_count: u64,
    pub cleanup_count: u64,
    pub reload_count: u64,
    pub function_call_count: u64,
    pub total_execution_time_ms: u64,
    pub error_count: u64,
    /// Milliseconds since the Unix epoch (UTC) of the last call.
    pub last_call_time: Option<i64>,
}

impl Default for WasmPluginStats {
    /// All counters at zero, no call yet.
    fn default() -> (s: Self)
        ensures
            s == (WasmPluginStats {
                initialization_count: 0,
                cleanup_count: 0,
                reload_count: 0,
                function_call_count: 0,
                total_execution_time_ms: 0,
                error_count: 0,
                last_call_time: None,
            }),
    {
        WasmPluginStats {
            initialization_count: 0,
            cleanup_count: 0,
            reload_count: 0,
            function_call_count: 0,
            total_execution_time_ms: 0,
            error_count: 0,
            last_call_time: None,
        }
    }
}

} // verus!
