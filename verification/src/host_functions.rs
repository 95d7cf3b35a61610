//! The functions the host offers to WASM plugins (`log`, `get_time`,
//! `random`), their registry, and how a call of one is answered. Arguments
//! and answers are held as the plain values the functions read and give.

use std::collections::hash_map::DefaultHasher;
use std::hash::Hasher;
use vstd::prelude::*;
use crate::clock::{utc_now_millis, utc_now_nanos};
use crate::keyed::KeyedList;
use crate::text::{owned, string_views};
use crate::wasm_error::{WasmError, WasmResult};

verus! {

/// An argument of a host function call, as far as the functions read it.
#[derive(Debug, Clone, PartialEq, Eq)]
pub enum HostArg {
    /// A JSON string.
    Text(String),
    /// A JSON number that is a non-negative integer.
    Unsigned(u64),
    /// Any other JSON value.
    Other,
}

/// The answer of a host function.
#[derive(Debug, Clone, Copy, PartialEq, Eq, Structural)]
pub enum HostValue {
    Null,
    Integer(i64),
    Unsigned(u64),
}

/// A call of a host function by a plugin.
#[derive(Debug, Clone)]
pub struct HostFunctionCall {
    pub function_name: String,
    pub parameters: Vec<HostArg>,
    pub context: Option<KeyedList<String>>,
}

/// The host functions.
#[derive(Debug, Clone, Copy, PartialEq, Eq, Structural)]
pub enum HostFunctionKind {
    /// Logs a message.
    Log,
    /// Gives the time.
    GetTime,
    /// Gives a pseudo-random number.
    Random,
}

impl HostFunctionKind {
    /// The name plugins call the function by.
    pub open spec fn spec_name(self) -> Seq<char> {
        match self {
            HostFunctionKind::Log => "log"@,
            HostFunctionKind::GetTime => "get_time"@,
            HostFunctionKind::Random => "random"@,
        }
    }

    /// The name plugins call the function by.
    pub fn name(&self) -> (n: &'static str)
        ensures
            n@ == self.spec_name(),
    {
        match self {
            HostFunctionKind::Log => "log",
            HostFunctionKind::GetTime => "get_time",
            HostFunctionKind::Random => "random",
        }
    }

    /// What the function does.
    pub fn description(&self) -> (d: &'static str)
        ensures
            self == HostFunctionKind::Log ==> d@ == "记录日志消息"@,
            self == HostFunctionKind::GetTime ==> d@ == "获取当前时间戳"@,
            self == HostFunctionKind::Random ==> d@ == "生成随机数"@,
    {
        match self {
            HostFunctionKind::Log => "记录日志消息",
            HostFunctionKind::GetTime => "获取当前时间戳",
            HostFunctionKind::Random => "生成随机数",
        }
    }

    /// Whether calling the function needs a permission: none does.
    pub fn requires_permission(&self) -> (b: bool)
        ensures
            !b,
    {
        false
    }
}

/// The bound of `random`: its first argument when that is an unsigned
/// integer, else 100.
pub open spec fn random_bound(params: Seq<HostArg>) -> u64 {
    if params.len() > 0 && params[0] is Unsigned {
        params[0]->Unsigned_0
    } else {
        100
    }
}

/// Feeds `nanos` to `hasher`, through `Hash::hash` for `i64`. Nothing is
/// stated of the hasher's state afterwards.
#[verifier::external_body]
fn feed_i64(nanos: i64, hasher: &mut DefaultHasher) {
    std::hash::Hash::hash(&nanos, hasher)
}

/// A hash of an instant: `nanos` fed to a fresh `DefaultHasher`.
fn hash_instant(nanos: i64) -> u64 {
    let mut hasher = DefaultHasher::new();
    feed_i64(nanos, &mut hasher);
    hasher.finish()
}

/// Runs the host function `kind` on `params`.
pub fn execute(kind: HostFunctionKind, params: &Vec<HostArg>) -> (r: WasmResult<HostValue>)
    requires
        kind == HostFunctionKind::Random ==> random_bound(params@) > 0,
    ensures
        kind == HostFunctionKind::Log ==> (if params@.len() == 0 {
            r matches Err(WasmError::FunctionNotFound(m)) && m@ == "log函数需要至少一个参数"@
        } else if !(params@[0] is Text) {
            r matches Err(WasmError::TypeConversion(m)) && m@ == "log参数必须是字符串"@
        } else {
            r == Ok::<HostValue, WasmError>(HostValue::Null)
        }),
        kind == HostFunctionKind::GetTime ==> (r matches Ok(HostValue::Integer(_))),
        kind == HostFunctionKind::Random ==> (r matches Ok(HostValue::Unsigned(v)) && v < random_bound(params@)),
{
    match kind {
        HostFunctionKind::Log => {
            if params.len() == 0 {
                return Err(WasmError::FunctionNotFound(String::from_str("log函数需要至少一个参数")));
            }
            match &params[0] {
                HostArg::Text(_) => Ok(HostValue::Null),
                _ => Err(WasmError::TypeConversion(String::from_str("log参数必须是字符串"))),
            }
        },
        HostFunctionKind::GetTime => Ok(HostValue::Integer(utc_now_millis())),
        HostFunctionKind::Random => {
            let max: u64 = if params.len() > 0 {
                match &params[0] {
                    HostArg::Unsigned(n) => *n,
                    _ => 100,
                }
            } else {
                100
            };
            let nanos = match utc_now_nanos() {
                Some(n) => n,
                None => 0,
            };
            Ok(HostValue::Unsigned(hash_instant(nanos) % max))
        },
    }
}

/// The host functions plugins can call, by name.
pub struct HostFunctionRegistry {
    functions: KeyedList<HostFunctionKind>,
}

impl HostFunctionRegistry {
    pub closed spec fn wf(self) -> bool {
        self.functions.wf()
    }

    /// The registered functions by name.
    pub closed spec fn functions(self) -> Map<Seq<char>, HostFunctionKind> {
        self.functions.map()
    }

    /// The names in the order they were registered.
    pub closed spec fn names(self) -> Seq<Seq<char>> {
        self.functions.key_order()
    }

    /// A registry with `log`, `get_time` and `random`.
    pub fn new() -> (r: Self)
        ensures
            r.wf(),
            r.functions() == Map::<Seq<char>, HostFunctionKind>::empty().insert("log"@, HostFunctionKind::Log).insert(
                "get_time"@,
                HostFunctionKind::GetTime,
            ).insert("random"@, HostFunctionKind::Random),
            r.names() == seq!["log"@, "get_time"@, "random"@],
    {
        let mut r = HostFunctionRegistry { functions: KeyedList::new() };
        r.register_default_functions();
        r
    }

    fn register_default_functions(&mut self)
        requires
            old(self).wf(),
            old(self).functions() == Map::<Seq<char>, HostFunctionKind>::empty(),
            old(self).names() == Seq::<Seq<char>>::empty(),
        ensures
            final(self).wf(),
            final(self).functions() == Map::<Seq<char>, HostFunctionKind>::empty().insert("log"@, HostFunctionKind::Log).insert(
                "get_time"@,
                HostFunctionKind::GetTime,
            ).insert("random"@, HostFunctionKind::Random),
            final(self).names() == seq!["log"@, "get_time"@, "random"@],
    {
        proof {
            reveal_strlit("log");
            reveal_strlit("get_time");
            reveal_strlit("random");
        }
        assert("log"@.len() == 3 && "get_time"@.len() == 8 && "random"@.len() == 6);
        self.register_function(HostFunctionKind::Log);
        assert(!self.functions().contains_key("get_time"@));
        self.register_function(HostFunctionKind::GetTime);
        assert(!self.functions().contains_key("random"@));
        self.register_function(HostFunctionKind::Random);
        assert(seq![].push("log"@).push("get_time"@).push("random"@) =~= seq!["log"@, "get_time"@, "random"@]);
    }

    /// Registers `kind` under its name, replacing what was there.
    pub fn register_function(&mut self, kind: HostFunctionKind)
        requires
            old(self).wf(),
        ensures
            final(self).wf(),
            final(self).functions() == old(self).functions().insert(kind.spec_name(), kind),
            old(self).functions().contains_key(kind.spec_name()) ==> final(self).names() == old(self).names(),
            !old(self).functions().contains_key(kind.spec_name()) ==> final(self).names() == old(self).names().push(
                kind.spec_name(),
            ),
    {
        let name = owned(kind.name());
        self.functions.insert(name, kind);
    }

    /// Answers a call: an error when no function has its name.
    pub fn call_function(&self, call: HostFunctionCall) -> (r: WasmResult<HostValue>)
        requires
            self.wf(),
            self.functions().contains_key(call.function_name@) && self.functions()[call.function_name@]
                == HostFunctionKind::Random ==> random_bound(call.parameters@) > 0,
        ensures
            !self.functions().contains_key(call.function_name@) ==> (r matches Err(WasmError::FunctionNotFound(m))
                && m@ == call.function_name@),
            self.functions().contains_key(call.function_name@) ==> {
                let kind = self.functions()[call.function_name@];
                &&& kind == HostFunctionKind::Log ==> (if call.parameters@.len() == 0 {
                    r matches Err(WasmError::FunctionNotFound(m)) && m@ == "log函数需要至少一个参数"@
                } else if !(call.parameters@[0] is Text) {
                    r matches Err(WasmError::TypeConversion(m)) && m@ == "log参数必须是字符串"@
                } else {
                    r == Ok::<HostValue, WasmError>(HostValue::Null)
                })
                &&& kind == HostFunctionKind::GetTime ==> (r matches Ok(HostValue::Integer(_)))
                &&& kind == HostFunctionKind::Random ==> (r matches Ok(HostValue::Unsigned(v)) && v < random_bound(
                    call.parameters@,
                ))
            },
    {
        match self.functions.get(call.function_name.as_str()) {
            Some(kind) => execute(*kind, &call.parameters),
            None => Err(WasmError::FunctionNotFound(call.function_name)),
        }
    }

    /// Whether a function is registered under `name`.
    pub fn has_function(&self, name: &str) -> (b: bool)
        requires
            self.wf(),
        ensures
            b == self.functions().contains_key(name@),
    {
        self.functions.contains_key(name)
    }

    /// The registered names, in the order they were registered.
    pub fn list_functions(&self) -> (r: Vec<String>)
        ensures
            string_views(r@) == self.names(),
    {
        self.functions.keys()
    }
}

impl Default for HostFunctionRegistry {
    /// The registry with the three host functions.
    fn default() -> (r: Self)
        ensures
            r.wf(),
            r.names() == seq!["log"@, "get_time"@, "random"@],
    {
        Self::new()
    }
}

} // verus!
