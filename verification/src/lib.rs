pub mod agent;
pub mod commands;
pub mod config;
pub mod error;
pub mod events;
pub mod exchange;
pub mod fsrules;
pub mod input;
pub mod json;
pub mod listing;
pub mod order;
pub mod paths;
pub mod probe;
pub mod prompt;
pub mod replies;
pub mod pattern;
pub mod pdf;
pub mod setup;
pub mod state;
pub mod storage;
pub mod stream;
pub mod text;
pub mod tools;
pub mod turns;
pub mod types;

use vstd::prelude::*;

verus! {

/// Number of tool-calling rounds allowed in one agentic exchange.
pub const MAX_TOOL_ROUNDS: usize = 10;

} // verus!
