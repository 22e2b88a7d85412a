//! Verified core of the MoonProto client library.

pub mod base16384;
pub mod radix;
pub mod shared_config;
pub mod le;
pub mod telegram;
pub mod chunked;
pub mod state;
pub mod settings;
pub mod strats;
pub mod runtime;
pub mod engine_api;
pub mod report_traces;
