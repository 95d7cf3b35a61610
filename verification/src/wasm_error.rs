//! Errors of the plugin runtime and its distributed executor.

use vstd::prelude::*;

verus! {

/// An error raised by the WASM plugin runtime.
#[derive(Debug, Clone, PartialEq, Eq)]
pub enum WasmError {
    /// Failure while running or scheduling.
    Runtime(String),
    /// Invalid configuration.
    Configuration(String),
    /// Failure to encode or decode a value.
    Serialization(String),
    /// Failure inside a plugin call.
    PluginExecution(String),
    /// A value of the wrong shape.
    TypeConversion(String),
    /// No such function, or a call it cannot take.
    FunctionNotFound(String),
    /// A plugin that cannot be found or loaded.
    PluginLoad(String),
    /// Failure of a plugin registry.
    Registry(String),
    /// Failure of a data flow component.
    Component(String),
}

/// The result of a runtime operation.
pub type WasmResult<T> = Result<T, WasmError>;

impl WasmError {
    /// The message the error carries.
    pub open spec fn spec_message(self) -> Seq<char> {
        match self {
            WasmError::Runtime(m) => m@,
            WasmError::Configuration(m) => m@,
            WasmError::Serialization(m) => m@,
            WasmError::PluginExecution(m) => m@,
            WasmError::TypeConversion(m) => m@,
            WasmError::FunctionNotFound(m) => m@,
            WasmError::PluginLoad(m) => m@,
            WasmError::Registry(m) => m@,
            WasmError::Component(m) => m@,
        }
    }

    /// The message the error carries, as reported to API clients.
    pub fn message(&self) -> (m: String)
        ensures
            m@ == self.spec_message(),
    {
        match self {
            WasmError::Runtime(m) => crate::text::owned(m.as_str()),
            WasmError::Configuration(m) => crate::text::owned(m.as_str()),
            WasmError::Serialization(m) => crate::text::owned(m.as_str()),
            WasmError::PluginExecution(m) => crate::text::owned(m.as_str()),
            WasmError::TypeConversion(m) => crate::text::owned(m.as_str()),
            WasmError::FunctionNotFound(m) => crate::text::owned(m.as_str()),
            WasmError::PluginLoad(m) => crate::text::owned(m.as_str()),
            WasmError::Registry(m) => crate::text::owned(m.as_str()),
            WasmError::Component(m) => crate::text::owned(m.as_str()),
        }
    }

    /// A runtime error with the given message.
    pub fn runtime(message: String) -> (e: Self)
        ensures
            e == WasmError::Runtime(message),
    {
        WasmError::Runtime(message)
    }

    /// A plugin execution error with the given message.
    pub fn plugin_execution(message: String) -> (e: Self)
        ensures
            e == WasmError::PluginExecution(message),
    {
        WasmError::PluginExecution(message)
    }
}

} // verus!
