//! Plain data shared by discovery, the stop-loss controller and the replay.
//!
//! Prices, quantities and percentages are fixed-point amounts in units of 10^-8.

use vstd::prelude::*;

verus! {

/// Which way a position expects the market to move.
#[derive(Debug, Clone, Copy, PartialEq, Eq, Structural)]
pub enum TrendDirection {
    Positive,
    Negative,
}

/// How the protective order of a position is kept up to date.
#[derive(Debug, Clone, Copy, PartialEq, Eq, Structural)]
pub enum ProtectionMode {
    /// The exchange trails the stop itself; the order is placed once.
    Native,
    /// A stop-limit order is cancelled and placed again at each improvement.
    Synthetic,
}

/// One time bucket of one symbol. In a series, index 0 is the oldest.
#[derive(Debug, Clone, Copy, PartialEq, Eq, Structural)]
pub struct Candle {
    pub open: u64,
    pub high: u64,
    pub low: u64,
    pub close: u64,
}

impl Candle {
    /// All four prices are positive.
    pub open spec fn wf(&self) -> bool {
        self.open > 0 && self.high > 0 && self.low > 0 && self.close > 0
    }

    /// Tells whether all four prices are positive.
    pub fn is_valid(&self) -> (valid: bool)
        ensures
            valid == self.wf(),
    {
        self.open > 0 && self.high > 0 && self.low > 0 && self.close > 0
    }
}

/// An entry recommendation produced by one scan.
#[derive(Debug, Clone)]
pub struct Signal {
    pub symbol: String,
    /// Growth over the whole window, in percent.
    pub overall_growth: i128,
    /// Growth over the trailing recent window, in percent.
    pub recent_growth: i128,
    /// Mean of `high - low` over the window.
    pub avg_fluct_raw: i128,
    /// Mean of `(high - low) / low`, in percent.
    pub avg_fluct_pct: i128,
}

/// Quantization and minimum-order constraints of one symbol.
#[derive(Debug, Clone, Copy, PartialEq, Eq, Structural)]
pub struct SymbolFilters {
    pub tick_size: u64,
    pub step_size: u64,
    pub min_qty: u64,
    pub min_price: u64,
    pub min_notional: u64,
}

impl Default for SymbolFilters {
    fn default() -> (filters: Self)
        ensures
            filters == (SymbolFilters {
                tick_size: 0,
                step_size: 0,
                min_qty: 0,
                min_price: 0,
                min_notional: 0,
            }),
    {
        SymbolFilters { tick_size: 0, step_size: 0, min_qty: 0, min_price: 0, min_notional: 0 }
    }
}

/// An open position under the protection of a stop order.
#[derive(Debug, Clone)]
pub struct TrackedPosition {
    pub symbol: String,
    pub entry_price: u64,
    pub current_stop_price: u64,
    pub quantity: u64,
    pub protection_mode: ProtectionMode,
}

/// An order resting at the exchange, fields as the exchange sends them.
#[derive(Debug, Clone)]
pub struct OpenOrder {
    pub symbol: String,
    pub type_field: String,
    pub side: String,
    pub price: String,
    pub orig_qty: String,
    pub executed_qty: String,
    pub status: String,
    pub time_in_force: String,
    pub stop_price: String,
    pub iceberg_qty: String,
    pub time: u64,
    pub update_time: u64,
    pub is_working: bool,
    pub orig_quote_order_qty: String,
    pub order_id: u64,
}

/// An order of the account's history, fields as the exchange sends them.
#[derive(Debug, Clone)]
pub struct Order {
    pub symbol: String,
    pub side: String,
    pub status: String,
    pub type_field: String,
    pub executed_qty: String,
    pub cummulative_quote_qty: String,
    pub update_time: u64,
}

/// The exchange's list of symbols.
#[derive(Debug)]
pub struct ExchangeInfo {
    pub symbols: Vec<SymbolInfo>,
}

/// One symbol of the exchange and the order types it accepts.
#[derive(Debug)]
pub struct SymbolInfo {
    pub symbol: String,
    pub status: String,
    pub base_asset: String,
    pub quote_asset: String,
    pub order_types: Vec<String>,
}

/// The balance of one asset, amounts as the exchange sends them.
#[derive(Debug)]
pub struct Balance {
    pub asset: String,
    pub free: String,
    pub locked: String,
}

/// The account as the exchange reports it.
#[derive(Debug)]
pub struct AccountInfo {
    pub maker_commission: i64,
    pub taker_commission: i64,
    pub buyer_commission: i64,
    pub seller_commission: i64,
    pub can_trade: bool,
    pub can_withdraw: bool,
    pub can_deposit: bool,
    pub update_time: u64,
    pub account_type: String,
    pub balances: Vec<Balance>,
    pub permissions: Vec<String>,
}

/// The 24-hour summary of one symbol.
#[allow(non_snake_case)]
#[derive(Debug)]
pub struct Ticker24hr {
    pub symbol: String,
    pub priceChangePercent: String,
    pub quote_volume: String,
}

} // verus!
