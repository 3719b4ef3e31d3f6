//! Momentum-trading controller core: signal discovery over candle windows, the
//! ratcheting stop-loss rule, and a replay of that rule over historical candles.
//!
//! Every price, quantity and percentage is a fixed-point number: an integer count
//! of units of 10^-8 (see [`decimal::SCALE`]). Nothing here touches the network,
//! the clock or the disk: callers hand in what they fetched and carry out what
//! comes back.
//!
//! - [`ratchet`] holds the one rule that the live controller ([`controller`],
//!   [`book`]) and the replay ([`backtest`]) share.
//! - [`discovery`] turns a market scan into entry signals; [`execution`] sizes
//!   the entry and picks its protective order.
//! - [`exchange`], [`orders`], [`requests`] and [`signing`] read the exchange's
//!   answers and write its queries.
//! - [`reporting`] and [`analytics`] summarize the trade ledger.

pub mod analytics;
pub mod backtest;
pub mod book;
pub mod calendar;
pub mod config;
pub mod controller;
pub mod decimal;
pub mod discovery;
pub mod exchange;
pub mod execution;
pub mod formatting;
pub mod growth_tracker;
pub mod indicators;
pub mod losses;
pub mod orders;
pub mod ratchet;
pub mod reporting;
pub mod requests;
pub mod signing;
pub mod text;
pub mod types;
