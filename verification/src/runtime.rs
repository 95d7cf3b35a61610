//! The WASM runtime's configuration, its builder, the checks made before a
//! runtime is created and before a module is loaded, and the bookkeeping of
//! loaded plugins. Compiling and running modules is the engine's work, done
//! by the caller.

use vstd::prelude::*;
use crate::keyed::KeyedList;
use crate::sandbox::SecurityPolicy;
use crate::text::{owned, string_views};
use crate::wasm_error::{WasmError, WasmResult};

verus! {

/// How a runtime is set up.
#[derive(Debug, Clone)]
pub struct WasmRuntimeConfig {
    /// In bytes.
    pub memory_limit: usize,
    pub timeout_ms: u64,
    pub debug: bool,
    pub security_policy: SecurityPolicy,
    pub max_concurrent_plugins: usize,
    pub enable_jit: bool,
    pub enable_wasi: bool,
}

impl Default for WasmRuntimeConfig {
    /// 64 MiB, 5 s, no debugging, the default policy, 10 plugins, JIT on,
    /// WASI off.
    fn default() -> (c: Self)
        ensures
            c.memory_limit == 64 * 1024 * 1024,
            c.timeout_ms == 5000,
            !c.debug,
            !c.security_policy.allow_network,
            !c.security_policy.allow_filesystem,
            c.max_concurrent_plugins == 10,
            c.enable_jit,
            !c.enable_wasi,
    {
        WasmRuntimeConfig {
            memory_limit: 64 * 1024 * 1024,
            timeout_ms: 5000,
            debug: false,
            security_policy: SecurityPolicy::default(),
            max_concurrent_plugins: 10,
            enable_jit: true,
            enable_wasi: false,
        }
    }
}

/// Builds a runtime configuration step by step.
pub struct WasmRuntimeBuilder {
    pub config: WasmRuntimeConfig,
}

impl WasmRuntimeBuilder {
    /// A builder from the default configuration.
    pub fn new() -> (b: Self)
        ensures
            b.config.memory_limit == 64 * 1024 * 1024,
            b.config.timeout_ms == 5000,
            !b.config.debug,
            b.config.max_concurrent_plugins == 10,
            b.config.enable_jit,
            !b.config.enable_wasi,
    {
        WasmRuntimeBuilder { config: WasmRuntimeConfig::default() }
    }

    /// Sets the memory limit.
    pub fn memory_limit(self, limit: usize) -> (b: Self)
        ensures
            b.config == (WasmRuntimeConfig { memory_limit: limit, ..self.config }),
    {
        let mut b = self;
        b.config.memory_limit = limit;
        b
    }

    /// Sets the time limit.
    pub fn timeout(self, timeout_ms: u64) -> (b: Self)
        ensures
            b.config == (WasmRuntimeConfig { timeout_ms, ..self.config }),
    {
        let mut b = self;
        b.config.timeout_ms = timeout_ms;
        b
    }

    /// Turns debugging on or off.
    pub fn debug(self, enable: bool) -> (b: Self)
        ensures
            b.config == (WasmRuntimeConfig { debug: enable, ..self.config }),
    {
        let mut b = self;
        b.config.debug = enable;
        b
    }

    /// Sets the security policy.
    pub fn security_policy(self, policy: SecurityPolicy) -> (b: Self)
        ensures
            b.config == (WasmRuntimeConfig { security_policy: policy, ..self.config }),
    {
        let mut b = self;
        b.config.security_policy = policy;
        b
    }

    /// Sets how many plugins may be loaded at once.
    pub fn max_concurrent_plugins(self, max: usize) -> (b: Self)
        ensures
            b.config == (WasmRuntimeConfig { max_concurrent_plugins: max, ..self.config }),
    {
        let mut b = self;
        b.config.max_concurrent_plugins = max;
        b
    }

    /// Turns JIT compilation on or off.
    pub fn enable_jit(self, enable: bool) -> (b: Self)
        ensures
            b.config == (WasmRuntimeConfig { enable_jit: enable, ..self.config }),
    {
        let mut b = self;
        b.config.enable_jit = enable;
        b
    }

    /// Turns WASI on or off.
    pub fn enable_wasi(self, enable: bool) -> (b: Self)
        ensures
            b.config == (WasmRuntimeConfig { enable_wasi: enable, ..self.config }),
    {
        let mut b = self;
        b.config.enable_wasi = enable;
        b
    }

    /// The runtime of the configuration built: refused as `WasmRuntime::new`
    /// refuses it.
    pub fn build(self) -> (r: WasmResult<WasmRuntime>)
        ensures
            self.config.memory_limit == 0 ==> (r matches Err(WasmError::Configuration(m)) && m@ == "内存限制不能为0"@),
            self.config.memory_limit != 0 && self.config.timeout_ms == 0 ==> (r matches Err(
                WasmError::Configuration(m),
            ) && m@ == "超时时间不能为0"@),
            self.config.memory_limit != 0 && self.config.timeout_ms != 0 ==> (r matches Ok(rt) && rt.spec_config()
                == self.config && rt.wf() && !rt.is_initialized() && rt.loaded() == Seq::<Seq<char>>::empty()),
    {
        WasmRuntime::new(self.config)
    }
}

impl Default for WasmRuntimeBuilder {
    /// The same as `new`.
    fn default() -> (b: Self)
        ensures
            b.config.memory_limit == 64 * 1024 * 1024,
            b.config.timeout_ms == 5000,
    {
        Self::new()
    }
}

/// The WASM file header: the magic `\0asm`, then version 1.
pub open spec fn has_wasm_header(bytes: Seq<u8>) -> bool {
    &&& bytes.len() >= 8
    &&& bytes[0] == 0x00 && bytes[1] == 0x61 && bytes[2] == 0x73 && bytes[3] == 0x6D
    &&& bytes[4] == 0x01 && bytes[5] == 0x00 && bytes[6] == 0x00 && bytes[7] == 0x00
}

/// Counters of a runtime.
#[derive(Debug, Clone, Copy, PartialEq, Eq, Structural)]
pub struct WasmRuntimeStats {
    pub loaded_plugins: u64,
    /// Milliseconds since the Unix epoch (UTC) when the engine was set up.
    pub initialization_time: Option<i64>,
}

/// A runtime: its configuration, whether its engine is set up, and the
/// plugins loaded in it, by id.
pub struct WasmRuntime {
    pub config: WasmRuntimeConfig,
    initialized: bool,
    plugins: KeyedList<String>,
    stats: WasmRuntimeStats,
}

impl WasmRuntime {
    pub closed spec fn wf(self) -> bool {
        self.plugins.wf()
    }

    /// The configuration.
    pub closed spec fn spec_config(self) -> WasmRuntimeConfig {
        self.config
    }

    /// Whether the engine is set up.
    pub closed spec fn is_initialized(self) -> bool {
        self.initialized
    }

    /// The ids of the loaded plugins, in the order they were loaded.
    pub closed spec fn loaded(self) -> Seq<Seq<char>> {
        self.plugins.key_order()
    }

    /// The module path of each loaded plugin.
    pub closed spec fn modules(self) -> Map<Seq<char>, String> {
        self.plugins.map()
    }

    /// The counters.
    pub closed spec fn spec_stats(self) -> WasmRuntimeStats {
        self.stats
    }

    /// A runtime with `config`: refused when the memory limit or the time
    /// limit is zero.
    pub fn new(config: WasmRuntimeConfig) -> (r: WasmResult<Self>)
        ensures
            config.memory_limit == 0 ==> (r matches Err(WasmError::Configuration(m)) && m@ == "内存限制不能为0"@),
            config.memory_limit != 0 && config.timeout_ms == 0 ==> (r matches Err(WasmError::Configuration(m)) && m@
                == "超时时间不能为0"@),
            config.memory_limit != 0 && config.timeout_ms != 0 ==> (r matches Ok(rt) && rt.spec_config() == config && rt.wf()
                && !rt.is_initialized() && rt.loaded() == Seq::<Seq<char>>::empty()
                && rt.spec_stats() == WasmRuntimeStats { loaded_plugins: 0, initialization_time: None }),
    {
        if config.memory_limit == 0 {
            return Err(WasmError::Configuration(String::from_str("内存限制不能为0")));
        }
        if config.timeout_ms == 0 {
            return Err(WasmError::Configuration(String::from_str("超时时间不能为0")));
        }
        Ok(WasmRuntime {
            config,
            initialized: false,
            plugins: KeyedList::new(),
            stats: WasmRuntimeStats { loaded_plugins: 0, initialization_time: None },
        })
    }

    /// Records that the engine was set up at `now`; a runtime already set up
    /// is left as it is.
    pub fn mark_initialized(&mut self, now: i64)
        ensures
            final(self).is_initialized(),
            old(self).is_initialized() ==> final(self).spec_stats() == old(self).spec_stats(),
            !old(self).is_initialized() ==> final(self).spec_stats() == (WasmRuntimeStats {
                initialization_time: Some(now),
                ..old(self).spec_stats()
            }),
            final(self).loaded() == old(self).loaded(),
            final(self).modules() == old(self).modules(),
            final(self).spec_config() == old(self).spec_config(),
            final(self).wf() == old(self).wf(),
    {
        if self.initialized {
            return;
        }
        self.initialized = true;
        self.stats.initialization_time = Some(now);
    }

    /// Whether `bytes` start with the WASM header.
    pub fn validate_wasm_format(&self, bytes: &[u8]) -> (b: bool)
        ensures
            b == has_wasm_header(bytes@),
    {
        if bytes.len() < 8 {
            return false;
        }
        if !(bytes[0] == 0x00 && bytes[1] == 0x61 && bytes[2] == 0x73 && bytes[3] == 0x6D) {
            return false;
        }
        bytes[4] == 0x01 && bytes[5] == 0x00 && bytes[6] == 0x00 && bytes[7] == 0x00
    }

    /// Whether another plugin may be loaded: an error when as many as the
    /// configuration allows are loaded.
    pub fn check_capacity(&self) -> (r: WasmResult<()>)
        requires
            self.wf(),
        ensures
            self.loaded().len() >= self.spec_config().max_concurrent_plugins ==> (r matches Err(WasmError::Runtime(m)) && m@
                == "已达到最大并发插件数限制"@),
            self.loaded().len() < self.spec_config().max_concurrent_plugins ==> r is Ok,
    {
        if self.plugins.len() >= self.config.max_concurrent_plugins {
            return Err(WasmError::Runtime(String::from_str("已达到最大并发插件数限制")));
        }
        Ok(())
    }

    /// Records `plugin_id`, loaded from `wasm_module_path`, and counts it.
    pub fn record_loaded(&mut self, plugin_id: String, wasm_module_path: String)
        requires
            old(self).wf(),
            old(self).spec_stats().loaded_plugins < u64::MAX,
        ensures
            final(self).wf(),
            final(self).modules() == old(self).modules().insert(plugin_id@, wasm_module_path),
            final(self).spec_stats().loaded_plugins == old(self).spec_stats().loaded_plugins + 1,
            final(self).spec_config() == old(self).spec_config(),
            final(self).is_initialized() == old(self).is_initialized(),
    {
        self.plugins.insert(plugin_id, wasm_module_path);
        self.stats.loaded_plugins = self.stats.loaded_plugins + 1;
    }

    /// Forgets `plugin_id`; the count drops by one, not below zero, when it
    /// was loaded. Whether it was is returned.
    pub fn record_unloaded(&mut self, plugin_id: &str) -> (was_loaded: bool)
        requires
            old(self).wf(),
        ensures
            final(self).wf(),
            was_loaded == old(self).modules().contains_key(plugin_id@),
            final(self).modules() == old(self).modules().remove(plugin_id@),
            was_loaded ==> final(self).spec_stats().loaded_plugins == (if old(self).spec_stats().loaded_plugins > 0 {
                old(self).spec_stats().loaded_plugins - 1
            } else {
                0
            }),
            !was_loaded ==> final(self).spec_stats() == old(self).spec_stats(),
            final(self).spec_config() == old(self).spec_config(),
    {
        match self.plugins.remove(plugin_id) {
            Some(_) => {
                self.stats.loaded_plugins = if self.stats.loaded_plugins > 0 { self.stats.loaded_plugins - 1 } else { 0 };
                true
            },
            None => false,
        }
    }

    /// The ids of the loaded plugins, in the order they were loaded.
    pub fn list_plugins(&self) -> (r: Vec<String>)
        ensures
            string_views(r@) == self.loaded(),
    {
        self.plugins.keys()
    }

    /// Whether `plugin_id` is loaded.
    pub fn has_plugin(&self, plugin_id: &str) -> (b: bool)
        requires
            self.wf(),
        ensures
            b == self.modules().contains_key(plugin_id@),
    {
        self.plugins.contains_key(plugin_id)
    }

    /// The counters.
    pub fn get_stats(&self) -> (s: WasmRuntimeStats)
        ensures
            s == self.spec_stats(),
    {
        self.stats
    }
}

} // verus!
