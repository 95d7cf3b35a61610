//! The registry of WASM processor types that data flows name, and the
//! processors made for them, kept by type and configuration so that the
//! same type and configuration give the same processor.

use vstd::prelude::*;
use serde_json::Value;
use crate::json::json_text_of;
use crate::keyed::KeyedList;
use crate::text::{concat, seq_starts_with, str_starts_with, string_views};
use crate::wasm_error::{WasmError, WasmResult};

verus! {

/// What the registry knows of a processor type.
#[derive(Debug, Clone)]
pub struct WasmProcessorTypeInfo {
    pub processor_type: String,
    pub plugin_id: String,
    pub description: String,
    pub capabilities: Vec<String>,
    pub config_schema: Option<Value>,
    pub supports_batch: bool,
    pub supports_streaming: bool,
}

/// The key a processor is kept under: its type, a colon, and the JSON text
/// of its configuration.
pub open spec fn spec_processor_key(processor_type: Seq<char>, config_json: Seq<char>) -> Seq<char> {
    processor_type + ":"@ + config_json
}

/// The prefix of the keys of a type's processors.
pub open spec fn type_prefix(processor_type: Seq<char>) -> Seq<char> {
    processor_type + ":"@
}

/// The processor types, and the processors (of type `P`) made for them.
pub struct WasmProcessorRegistry<P> {
    registered_types: KeyedList<WasmProcessorTypeInfo>,
    processor_cache: KeyedList<P>,
}

impl<P> WasmProcessorRegistry<P> {
    pub closed spec fn wf(self) -> bool {
        self.registered_types.wf() && self.processor_cache.wf()
    }

    /// The registered types by name.
    pub closed spec fn types(self) -> Map<Seq<char>, WasmProcessorTypeInfo> {
        self.registered_types.map()
    }

    /// The type names in the order they were first registered.
    pub closed spec fn processor_types(self) -> Seq<Seq<char>> {
        self.registered_types.key_order()
    }

    /// The processors made, by key.
    pub closed spec fn cache(self) -> Map<Seq<char>, P> {
        self.processor_cache.map()
    }

    /// A registry with no type and no processor.
    pub fn new() -> (r: Self)
        ensures
            r.wf(),
            r.types() == Map::<Seq<char>, WasmProcessorTypeInfo>::empty(),
            r.processor_types().len() == 0,
            r.cache() == Map::<Seq<char>, P>::empty(),
    {
        WasmProcessorRegistry { registered_types: KeyedList::new(), processor_cache: KeyedList::new() }
    }

    /// Registers `type_info` under its type name, replacing what was there.
    pub fn register_processor_type(&mut self, type_info: WasmProcessorTypeInfo) -> (r: WasmResult<()>)
        requires
            old(self).wf(),
        ensures
            final(self).wf(),
            r is Ok,
            final(self).types() == old(self).types().insert(type_info.processor_type@, type_info),
            final(self).cache() == old(self).cache(),
    {
        let name = type_info.processor_type.clone();
        self.registered_types.insert(name, type_info);
        Ok(())
    }

    /// The key the processor for `processor_type` with the configuration
    /// whose JSON text is `config_json` is kept under.
    pub fn processor_key_for(processor_type: &str, config_json: &str) -> (k: String)
        ensures
            k@ == spec_processor_key(processor_type@, config_json@),
    {
        let head = concat(processor_type, ":");
        concat(head.as_str(), config_json)
    }

    /// The key the processor for `processor_type` with `config` is kept
    /// under: the type, a colon, the configuration's JSON text.
    pub fn processor_key(processor_type: &str, config: &Value) -> (k: String)
        ensures
            exists|text: Seq<char>| k@ == #[trigger] spec_processor_key(processor_type@, text),
    {
        let text = json_text_of(config);
        Self::processor_key_for(processor_type, text.as_str())
    }

    /// The processor kept under `key` for `processor_type`, if one was made:
    /// refused when the type is not registered.
    pub fn cached_processor(&self, processor_type: &str, key: &str) -> (r: WasmResult<Option<&P>>)
        requires
            self.wf(),
        ensures
            !self.types().contains_key(processor_type@) ==> (r matches Err(WasmError::Configuration(m)) && m@
                == "未知的WASM处理器类型: "@ + processor_type@),
            self.types().contains_key(processor_type@) ==> (r matches Ok(found) && match found {
                Some(p) => self.cache().contains_key(key@) && *p == self.cache()[key@],
                None => !self.cache().contains_key(key@),
            }),
    {
        if !self.registered_types.contains_key(processor_type) {
            return Err(WasmError::Configuration(concat("未知的WASM处理器类型: ", processor_type)));
        }
        Ok(self.processor_cache.get(key))
    }

    /// Keeps `processor` under `key`.
    pub fn cache_processor(&mut self, key: String, processor: P)
        requires
            old(self).wf(),
        ensures
            final(self).wf(),
            final(self).cache() == old(self).cache().insert(key@, processor),
            final(self).types() == old(self).types(),
            final(self).processor_types() == old(self).processor_types(),
    {
        self.processor_cache.insert(key, processor);
    }

    /// The registered type names, in the order they were first registered.
    pub fn get_registered_types(&self) -> (r: Vec<String>)
        requires
            self.wf(),
        ensures
            string_views(r@) == self.processor_types(),
    {
        self.registered_types.keys()
    }

    /// What is known of `processor_type`, if it is registered.
    pub fn get_type_info(&self, processor_type: &str) -> (r: Option<&WasmProcessorTypeInfo>)
        requires
            self.wf(),
        ensures
            match r {
                Some(i) => self.types().contains_key(processor_type@) && *i == self.types()[processor_type@],
                None => !self.types().contains_key(processor_type@),
            },
    {
        self.registered_types.get(processor_type)
    }

    /// Whether `processor_type` is registered and processes batches.
    pub fn supports_batch(&self, processor_type: &str) -> (b: bool)
        requires
            self.wf(),
        ensures
            b == (self.types().contains_key(processor_type@) && self.types()[processor_type@].supports_batch),
    {
        match self.registered_types.get(processor_type) {
            Some(info) => info.supports_batch,
            None => false,
        }
    }

    /// Whether `processor_type` is registered and processes streams.
    pub fn supports_streaming(&self, processor_type: &str) -> (b: bool)
        requires
            self.wf(),
        ensures
            b == (self.types().contains_key(processor_type@) && self.types()[processor_type@].supports_streaming),
    {
        match self.registered_types.get(processor_type) {
            Some(info) => info.supports_streaming,
            None => false,
        }
    }

    /// The configuration schema of `processor_type`, if it is registered
    /// with one.
    pub fn get_config_schema(&self, processor_type: &str) -> (r: Option<&Value>)
        requires
            self.wf(),
        ensures
            match r {
                Some(v) => self.types().contains_key(processor_type@) && self.types()[processor_type@].config_schema
                    == Some(*v),
                None => !self.types().contains_key(processor_type@) || self.types()[processor_type@].config_schema
                    is None,
            },
    {
        match self.registered_types.get(processor_type) {
            Some(info) => match &info.config_schema {
                Some(v) => Some(v),
                None => None,
            },
            None => None,
        }
    }

    /// Drops every processor made.
    pub fn clear_cache(&mut self)
        requires
            old(self).wf(),
        ensures
            final(self).wf(),
            final(self).cache() == Map::<Seq<char>, P>::empty(),
            final(self).types() == old(self).types(),
            final(self).processor_types() == old(self).processor_types(),
    {
        self.processor_cache.clear();
    }

    /// How many processors are kept.
    pub fn get_cache_size(&self) -> (n: usize)
        requires
            self.wf(),
        ensures
            n == self.cache().dom().len(),
    {
        self.processor_cache.len()
    }

    /// Removes `processor_type` and, when it was registered, the processors
    /// made for it; whether it was registered.
    pub fn unregister_processor_type(&mut self, processor_type: &str) -> (removed: bool)
        requires
            old(self).wf(),
        ensures
            final(self).wf(),
            removed == old(self).types().contains_key(processor_type@),
            final(self).types() == old(self).types().remove(processor_type@),
            !removed ==> final(self).cache() == old(self).cache(),
            removed ==> forall|k: Seq<char>| #[trigger] final(self).cache().contains_key(k) <==> (old(self).cache().contains_key(k) && !seq_starts_with(k, type_prefix(processor_type@))),
            forall|k: Seq<char>| #[trigger] final(self).cache().contains_key(k) ==> final(self).cache()[k] == old(self).cache()[k],
    {
        let removed = self.registered_types.remove(processor_type).is_some();
        if removed {
            let prefix = concat(processor_type, ":");
            let keys = self.processor_cache.keys();
            let ghost start = self.processor_cache.map();
            let ghost types_now = self.registered_types.map();
            proof {
                self.processor_cache.lemma_model();
            }
            let mut i: usize = 0;
            while i < keys.len()
                invariant
                    self.processor_cache.wf(),
                    self.registered_types.wf(),
                    self.registered_types.map() == types_now,
                    i <= keys@.len(),
                    prefix@ == type_prefix(processor_type@),
                    string_views(keys@).to_set() == start.dom(),
                    string_views(keys@).no_duplicates(),
                    forall|k: Seq<char>| #[trigger] self.processor_cache.map().contains_key(k) <==> (start.contains_key(k)
                        && !(string_views(keys@).subrange(0, i as int).contains(k) && seq_starts_with(k, prefix@))),
                    forall|k: Seq<char>| #[trigger] self.processor_cache.map().contains_key(k) ==> self.processor_cache.map()[k]
                        == start[k],
                decreases keys.len() - i,
            {
                let ghost k = keys@[i as int]@;
                let ghost seen = string_views(keys@).subrange(0, i as int);
                let ghost before = self.processor_cache.map();
                assert(string_views(keys@)[i as int] == k);
                assert(string_views(keys@).subrange(0, i + 1) =~= seen.push(k));
                assert(!seen.contains(k)) by {
                    if seen.contains(k) {
                        let j = choose|j: int| 0 <= j < seen.len() && seen[j] == k;
                        assert(string_views(keys@)[j] == string_views(keys@)[i as int]);
                    }
                }
                let starts = str_starts_with(keys[i].as_str(), prefix.as_str());
                if starts {
                    self.processor_cache.remove(keys[i].as_str());
                }
                assert forall|c: Seq<char>| #[trigger] self.processor_cache.map().contains_key(c) <==> (start.contains_key(c)
                    && !(seen.push(k).contains(c) && seq_starts_with(c, prefix@))) by {
                    if c != k {
                        assert(seen.push(k).contains(c) <==> seen.contains(c)) by {
                            if seen.push(k).contains(c) {
                                let j = choose|j: int| 0 <= j < seen.push(k).len() && seen.push(k)[j] == c;
                                assert(seen[j] == c);
                            }
                            if seen.contains(c) {
                                let j = choose|j: int| 0 <= j < seen.len() && seen[j] == c;
                                assert(seen.push(k)[j] == c);
                            }
                        }
                        assert(before.contains_key(c) == self.processor_cache.map().contains_key(c));
                    } else {
                        assert(seen.push(k)[seen.len() as int] == k);
                    }
                }
                i = i + 1;
            }
            proof {
                assert(string_views(keys@).subrange(0, keys@.len() as int) =~= string_views(keys@));
                assert forall|k: Seq<char>| #[trigger] self.processor_cache.map().contains_key(k) <==> (start.contains_key(k)
                    && !seq_starts_with(k, prefix@)) by {
                    if start.contains_key(k) {
                        assert(string_views(keys@).to_set().contains(k));
                    }
                }
            }
        }
        removed
    }
}

} // verus!
