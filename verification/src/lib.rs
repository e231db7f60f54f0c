//! Decision core of a market maker for binary contracts priced in cents.

pub mod bits;
pub mod config;
pub mod double;
pub mod engine_laws;
pub mod execution;
pub mod json;
pub mod market_data;
pub mod market_finder;
pub mod order_laws;
pub mod risk;
pub mod seqs;
pub mod session;
pub mod session_laws;
pub mod signal;
pub mod signal_laws;
pub mod stream_laws;
pub mod text;
pub mod time;
pub mod tracker;
pub mod trading_laws;
pub mod utc;
pub mod ws;
