//! Verified core of the cycle orchestrator: the plugin endpoint protocol,
//! the shared memory stream router, timeframe resampling, timestamp
//! formatting, shell command decoding, request signing, and the JSON
//! documents of start payloads, the market gateway's snapshot, the paper
//! exchange's inbox and exported plugin output.

pub mod endpoint;
pub mod text;
pub mod clock;
pub mod resample;
pub mod history;
pub mod memory;
pub mod queue;
pub mod signing;
pub mod words;
pub mod shell;
pub mod help;
pub mod hexdump;
pub mod plugin_abi;
pub mod console;
pub mod settings;
pub mod trades;
pub mod gateway;
pub mod json_value;
pub mod analyzer;
pub mod library;
pub mod paper;
pub mod calc;
pub mod impact;
pub mod json;
pub mod config;
pub mod gateway_feed;
pub mod export;
pub mod start_params;
