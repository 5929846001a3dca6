//! A backtest engine for trading strategies.
//!
//! A run replays a time-ordered sequence of price bars. It keeps the latest
//! bar of every symbol in a [`market::MarketInfo`], asks a
//! [`trader::Trader`] for signals once per change of timestamp, and fills
//! each signal on a [`ledger::Ledger`] at the closing price of the bar that
//! opened the new tick. Money is an integer number of scaled units, so that
//! every amount is exact.

pub mod error;
pub mod ledger;
pub mod market;
pub mod runner;
pub mod solvency;
pub mod trader;

pub use crate::runner::MONEY_SCALING_FACTOR;
