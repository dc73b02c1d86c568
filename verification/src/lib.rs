//! Verified core of the Risk Guard trading agent: the five-guard risk engine,
//! execution bookkeeping, the Kraken CLI protocol and the reading of AI replies.
pub mod agent;
pub mod brain;
pub mod config;
pub mod executor;
pub mod indicators;
pub mod market;
pub mod risk;
pub mod social;
pub mod text;
