//! DataFlare WASM plugin platform: the decision logic of its plugin runtime,
//! distributed executor and plugin marketplace, with contracts proved by Verus.

pub mod ai_integration;
pub mod alerting;
pub mod batch;
pub mod clock;
pub mod cloud_integration;
pub mod cluster;
pub mod compliance;
pub mod components;
pub mod dev_tools;
pub mod distributed;
pub mod dtl_bridge;
pub mod error;
pub mod enterprise_executor;
pub mod events;
pub mod executor;
pub mod host_functions;
pub mod interface;
pub mod json;
pub mod keyed;
pub mod marketplace;
pub mod monitoring;
pub mod networking;
pub mod observability;
pub mod plugin;
pub mod profiler;
pub mod registry_integration;
pub mod result;
pub mod runtime;
pub mod sandbox;
pub mod security;
pub mod seqs;
pub mod storage;
pub mod system;
pub mod text;
pub mod wasm_error;
