//! Gas benchmarking for smart contract functions: building the call data of each
//! function from sample parameters, aggregating the measured gas per function,
//! and deriving optimization suggestions from the aggregates.

pub mod abi;
pub mod bindings;
pub mod call;
pub mod config;
pub mod error;
pub mod json;
pub mod results;
pub mod stats;
pub mod suggest;
pub mod text;
pub mod token;

pub use abi::{parse_param_type, ParamType, Token, U256};
pub use call::{encode_call, within_encoder_limit};
pub use config::{BenchConfig, FunctionEntry, FunctionParam, RunSlot};
pub use error::GasBenchError;
pub use json::{JsonNumber, JsonValue};
pub use results::BenchmarkResult;
pub use stats::{compute_stats, FunctionStats};
pub use suggest::{generate_suggestions, GasLevel, GasProfile, OptimizationSuggestion};
pub use token::json_to_token;
