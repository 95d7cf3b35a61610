//! The bridge through which DTL transformations call functions of WASM
//! plugins: which alias names which plugin function, and what the calls made
//! through each alias counted. The call itself runs in the WASM runtime.

use vstd::prelude::*;
use crate::keyed::KeyedList;
use crate::runtime::WasmRuntime;
use crate::text::{clone_strings, concat, copy_option_string, owned, string_views};
use crate::wasm_error::{WasmError, WasmResult};

verus! {

/// A plugin function registered under an alias.
#[derive(Debug, Clone)]
pub struct WasmFunctionInfo {
    pub plugin_id: String,
    pub function_name: String,
    pub description: Option<String>,
    pub parameter_types: Vec<String>,
    pub return_type: String,
    pub is_async: bool,
}

/// The calls made through an alias; times in milliseconds.
#[derive(Debug, Clone, Copy, PartialEq, Eq, Structural)]
pub struct DTLWasmCallStats {
    pub call_count: u64,
    pub total_execution_time_ms: u64,
    pub success_count: u64,
    pub error_count: u64,
}

impl DTLWasmCallStats {
    /// No more calls have finished than have started.
    pub open spec fn balanced(self) -> bool {
        self.success_count + self.error_count <= self.call_count
    }

    /// No call counted.
    pub open spec fn zero() -> Self {
        DTLWasmCallStats { call_count: 0, total_execution_time_ms: 0, success_count: 0, error_count: 0 }
    }
}

impl Default for DTLWasmCallStats {
    fn default() -> (s: Self)
        ensures
            s == DTLWasmCallStats::zero(),
    {
        DTLWasmCallStats { call_count: 0, total_execution_time_ms: 0, success_count: 0, error_count: 0 }
    }
}

/// Whether `info` is what registering `function_name` of `plugin_id` with
/// `description` records: any parameters, any result, called asynchronously.
pub open spec fn registered_info(
    info: WasmFunctionInfo,
    plugin_id: Seq<char>,
    function_name: Seq<char>,
    description: Option<String>,
) -> bool {
    &&& info.plugin_id@ == plugin_id
    &&& info.function_name@ == function_name
    &&& info.description == description
    &&& string_views(info.parameter_types@) == seq!["any"@]
    &&& info.return_type@ == "any"@
    &&& info.is_async
}

/// Whether `a` and `b` describe the same function.
pub open spec fn same_info(a: WasmFunctionInfo, b: WasmFunctionInfo) -> bool {
    &&& a.plugin_id == b.plugin_id
    &&& a.function_name == b.function_name
    &&& a.description == b.description
    &&& a.parameter_types@ == b.parameter_types@
    &&& a.return_type == b.return_type
    &&& a.is_async == b.is_async
}

/// A copy of `i`.
fn copy_info(i: &WasmFunctionInfo) -> (c: WasmFunctionInfo)
    ensures
        same_info(c, *i),
{
    let c = WasmFunctionInfo {
        plugin_id: i.plugin_id.clone(),
        function_name: i.function_name.clone(),
        description: copy_option_string(&i.description),
        parameter_types: clone_strings(&i.parameter_types),
        return_type: i.return_type.clone(),
        is_async: i.is_async,
    };
    assert(c.parameter_types@ == i.parameter_types@);
    c
}

/// The registered aliases and the calls counted under each.
pub struct DTLWasmBridge {
    registered_functions: KeyedList<WasmFunctionInfo>,
    call_stats: KeyedList<DTLWasmCallStats>,
}

impl DTLWasmBridge {
    /// Every registered alias has its counts, and no more calls have
    /// finished than started.
    pub closed spec fn wf(self) -> bool {
        &&& self.registered_functions.wf()
        &&& self.call_stats.wf()
        &&& self.registered_functions.map().dom() == self.call_stats.map().dom()
        &&& forall|a: Seq<char>| #[trigger] self.call_stats.map().contains_key(a) ==> self.call_stats.map()[a].balanced()
    }

    /// The registered functions by alias.
    pub closed spec fn functions(self) -> Map<Seq<char>, WasmFunctionInfo> {
        self.registered_functions.map()
    }

    /// The aliases in the order they were first registered.
    pub closed spec fn aliases(self) -> Seq<Seq<char>> {
        self.registered_functions.key_order()
    }

    /// The counts by alias.
    pub closed spec fn stats(self) -> Map<Seq<char>, DTLWasmCallStats> {
        self.call_stats.map()
    }

    /// A bridge with nothing registered.
    pub fn new() -> (b: Self)
        ensures
            b.wf(),
            b.functions() == Map::<Seq<char>, WasmFunctionInfo>::empty(),
            b.stats() == Map::<Seq<char>, DTLWasmCallStats>::empty(),
            b.aliases().len() == 0,
    {
        let b = DTLWasmBridge { registered_functions: KeyedList::new(), call_stats: KeyedList::new() };
        assert(b.registered_functions.map().dom() =~= b.call_stats.map().dom());
        b
    }

    /// Registers `function_name` of the plugin `plugin_id` under
    /// `function_alias`, with no call counted: refused when `runtime` has no
    /// such plugin loaded.
    pub fn register_wasm_function(
        &mut self,
        runtime: &WasmRuntime,
        function_alias: String,
        plugin_id: String,
        function_name: String,
        description: Option<String>,
    ) -> (r: WasmResult<()>)
        requires
            old(self).wf(),
            runtime.wf(),
        ensures
            final(self).wf(),
            !runtime.modules().contains_key(plugin_id@) ==> (r matches Err(WasmError::PluginLoad(m)) && m@
                == "插件不存在: "@ + plugin_id@ && final(self).functions() == old(self).functions() && final(self).stats() == old(self).stats()),
            runtime.modules().contains_key(plugin_id@) ==> {
                &&& r is Ok
                &&& final(self).functions().dom() == old(self).functions().dom().insert(function_alias@)
                &&& registered_info(final(self).functions()[function_alias@], plugin_id@, function_name@, description)
                &&& forall|a: Seq<char>| a != function_alias@ && #[trigger] old(self).functions().contains_key(a)
                    ==> final(self).functions()[a] == old(self).functions()[a]
                &&& final(self).stats() == old(self).stats().insert(function_alias@, DTLWasmCallStats::zero())
            },
    {
        if !runtime.has_plugin(plugin_id.as_str()) {
            return Err(WasmError::PluginLoad(concat("插件不存在: ", plugin_id.as_str())));
        }
        let mut parameter_types: Vec<String> = Vec::new();
        parameter_types.push(String::from_str("any"));
        let info = WasmFunctionInfo {
            plugin_id,
            function_name,
            description,
            parameter_types,
            return_type: String::from_str("any"),
            is_async: true,
        };
        proof {
            reveal_strlit("any");
            assert(string_views(info.parameter_types@) =~= seq!["any"@]);
        }
        let alias = owned(function_alias.as_str());
        self.registered_functions.insert(function_alias, info);
        self.call_stats.insert(alias, DTLWasmCallStats::default());
        assert(self.registered_functions.map().dom() =~= self.call_stats.map().dom());
        Ok(())
    }

    /// Starts a call through `function_alias`: counts it and hands back the
    /// function to call; refused when the alias is not registered.
    pub fn begin_call(&mut self, function_alias: &str) -> (r: WasmResult<WasmFunctionInfo>)
        requires
            old(self).wf(),
            old(self).stats().contains_key(function_alias@) ==> old(self).stats()[function_alias@].call_count
                < u64::MAX,
        ensures
            final(self).wf(),
            final(self).functions() == old(self).functions(),
            final(self).aliases() == old(self).aliases(),
            !old(self).functions().contains_key(function_alias@) ==> (r matches Err(WasmError::PluginExecution(m))
                && m@ == "WASM函数未注册: "@ + function_alias@ && final(self).stats() == old(self).stats()),
            old(self).functions().contains_key(function_alias@) ==> (r matches Ok(info) && same_info(info, old(self).functions()[function_alias@]) && final(self).stats() == old(self).stats().insert(
                function_alias@,
                DTLWasmCallStats {
                    call_count: (old(self).stats()[function_alias@].call_count + 1) as u64,
                    ..old(self).stats()[function_alias@]
                },
            )),
    {
        let info = match self.registered_functions.get(function_alias) {
            Some(i) => copy_info(i),
            None => {
                return Err(WasmError::PluginExecution(concat("WASM函数未注册: ", function_alias)));
            },
        };
        assert(self.call_stats.map().contains_key(function_alias@));
        let current = match self.call_stats.get(function_alias) {
            Some(s) => *s,
            None => DTLWasmCallStats::default(),
        };
        let updated = DTLWasmCallStats { call_count: current.call_count + 1, ..current };
        self.call_stats.insert(owned(function_alias), updated);
        assert(self.registered_functions.map().dom() =~= self.call_stats.map().dom());
        Ok(info)
    }

    /// Finishes a call through `function_alias` that took `elapsed_ms` and
    /// `succeeded` or not.
    pub fn finish_call(&mut self, function_alias: &str, elapsed_ms: u64, succeeded: bool)
        requires
            old(self).wf(),
            old(self).stats().contains_key(function_alias@) ==> {
                let s = old(self).stats()[function_alias@];
                &&& s.success_count + s.error_count < s.call_count
                &&& s.total_execution_time_ms + elapsed_ms <= u64::MAX
            },
        ensures
            final(self).wf(),
            final(self).functions() == old(self).functions(),
            final(self).aliases() == old(self).aliases(),
            !old(self).stats().contains_key(function_alias@) ==> final(self).stats() == old(self).stats(),
            old(self).stats().contains_key(function_alias@) ==> {
                let s = old(self).stats()[function_alias@];
                final(self).stats() == old(self).stats().insert(
                    function_alias@,
                    DTLWasmCallStats {
                        call_count: s.call_count,
                        total_execution_time_ms: (s.total_execution_time_ms + elapsed_ms) as u64,
                        success_count: if succeeded { (s.success_count + 1) as u64 } else { s.success_count },
                        error_count: if succeeded { s.error_count } else { (s.error_count + 1) as u64 },
                    },
                )
            },
    {
        let current = match self.call_stats.get(function_alias) {
            Some(s) => *s,
            None => return,
        };
        let updated = DTLWasmCallStats {
            call_count: current.call_count,
            total_execution_time_ms: current.total_execution_time_ms + elapsed_ms,
            success_count: if succeeded { current.success_count + 1 } else { current.success_count },
            error_count: if succeeded { current.error_count } else { current.error_count + 1 },
        };
        self.call_stats.insert(owned(function_alias), updated);
        assert(self.registered_functions.map().dom() =~= self.call_stats.map().dom());
    }

    /// The registered aliases, in the order they were first registered.
    pub fn get_registered_functions(&self) -> (r: Vec<String>)
        requires
            self.wf(),
        ensures
            string_views(r@) == self.aliases(),
    {
        self.registered_functions.keys()
    }

    /// The function registered under `function_alias`, if any.
    pub fn get_function_info(&self, function_alias: &str) -> (r: Option<&WasmFunctionInfo>)
        requires
            self.wf(),
        ensures
            match r {
                Some(i) => self.functions().contains_key(function_alias@) && *i == self.functions()[function_alias@],
                None => !self.functions().contains_key(function_alias@),
            },
    {
        self.registered_functions.get(function_alias)
    }

    /// The counts of `function_alias`, if it is registered.
    pub fn get_call_stats(&self, function_alias: &str) -> (r: Option<&DTLWasmCallStats>)
        requires
            self.wf(),
        ensures
            match r {
                Some(s) => self.stats().contains_key(function_alias@) && *s == self.stats()[function_alias@],
                None => !self.stats().contains_key(function_alias@),
            },
    {
        self.call_stats.get(function_alias)
    }

    /// The counts of every alias.
    pub fn get_all_call_stats(&self) -> (r: &KeyedList<DTLWasmCallStats>)
        requires
            self.wf(),
        ensures
            r.wf(),
            r.map() == self.stats(),
    {
        &self.call_stats
    }

    /// Removes `function_alias` and its counts; whether it was registered.
    pub fn unregister_function(&mut self, function_alias: &str) -> (removed: bool)
        requires
            old(self).wf(),
        ensures
            final(self).wf(),
            removed == old(self).functions().contains_key(function_alias@),
            final(self).functions() == old(self).functions().remove(function_alias@),
            final(self).stats() == old(self).stats().remove(function_alias@),
    {
        let removed = self.registered_functions.remove(function_alias).is_some();
        self.call_stats.remove(function_alias);
        assert(self.registered_functions.map().dom() =~= self.call_stats.map().dom());
        removed
    }

    /// Removes every alias and its counts.
    pub fn clear_all_functions(&mut self)
        ensures
            final(self).wf(),
            final(self).functions() == Map::<Seq<char>, WasmFunctionInfo>::empty(),
            final(self).stats() == Map::<Seq<char>, DTLWasmCallStats>::empty(),
    {
        self.registered_functions.clear();
        self.call_stats.clear();
        assert(self.registered_functions.map().dom() =~= self.call_stats.map().dom());
    }
}

/// Every registered alias has its counts and no other alias has any, and no
/// alias has more calls finished than started, whatever the bridge went
/// through.
pub proof fn lemma_stats_follow_registrations(b: DTLWasmBridge)
    requires
        b.wf(),
    ensures
        b.functions().dom() == b.stats().dom(),
        forall|a: Seq<char>| #[trigger] b.stats().contains_key(a) ==> b.stats()[a].success_count + b.stats()[a].error_count
            <= b.stats()[a].call_count,
{
}

} // verus!
