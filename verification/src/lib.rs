//! Request signing, configuration parsing and text helpers for a trading bot
//! that talks to the Backpack exchange and reads market data from Binance.

pub mod text;
pub mod b64;
pub mod backpack;
pub mod config;
pub mod binance;
pub mod logger;
