//! The realized-profit report over the trade ledger.
//!
//! A position is realized when a SELL follows a BUY and a stop update of the
//! same symbol: it is taken to have left at the last stop that was set.

use vstd::prelude::*;
use crate::calendar::Moment;
use crate::decimal::{growth, growth_percent, scaled_product, scaled_product_spec};
use crate::text::str_eq;

verus! {

/// One row of the trade ledger.
#[derive(Debug, Clone)]
pub struct TradeLogEntry {
    pub timestamp: Moment,
    pub symbol: String,
    pub action: String,
    pub price: u64,
    pub qty: u64,
    pub quote: u64,
    pub stop_loss: u64,
}

/// One closed position.
#[derive(Debug, Clone)]
pub struct RealizedTrade {
    pub symbol: String,
    pub buy_price: u64,
    pub sell_price: u64,
    pub qty: u64,
    /// `(sell_price - buy_price) * qty`.
    pub profit: i128,
    /// Growth from buy price to sell price, in percent.
    pub profit_pct: i128,
    /// The moment of the SELL row.
    pub timestamp: Moment,
    pub trend: String,
}

/// What a row of the ledger records.
pub enum Action {
    Buy,
    /// A stop was set or moved.
    StopSet,
    Sell,
    Other,
}

/// The action that a row's word names: `BUY`; `STOP_SET`, `SET` or `SET_` for
/// a stop update; `SELL`. Any other word is no action of a position.
pub open spec fn action_of(word: Seq<char>) -> Action {
    if word == "BUY"@ {
        Action::Buy
    } else if word == "STOP_SET"@ || word == "SET_"@ || word == "SET"@ {
        Action::StopSet
    } else if word == "SELL"@ {
        Action::Sell
    } else {
        Action::Other
    }
}

/// Reads the action of a row.
pub fn read_action(word: &str) -> (action: Action)
    ensures
        action == action_of(word@),
{
    if str_eq(word, "BUY") {
        Action::Buy
    } else if str_eq(word, "STOP_SET") || str_eq(word, "SET_") || str_eq(word, "SET") {
        Action::StopSet
    } else if str_eq(word, "SELL") {
        Action::Sell
    } else {
        Action::Other
    }
}

/// The open position of a symbol: the rows of its BUY and of its last stop
/// update, by their places in the ledger.
pub struct Pending {
    pub buy: Option<int>,
    pub set: Option<int>,
}

/// The open position of `symbol` after the first `n` rows. A BUY opens a new
/// position and forgets any stop; a stop update later than the BUY becomes the
/// position's stop; a SELL closes the position.
pub open spec fn pending_after(trades: Seq<TradeLogEntry>, symbol: Seq<char>, n: int) -> Pending
    decreases n,
{
    if n <= 0 {
        Pending { buy: None, set: None }
    } else {
        let before = pending_after(trades, symbol, n - 1);
        let row = trades[n - 1];
        if row.symbol@ != symbol {
            before
        } else {
            match action_of(row.action@) {
                Action::Buy => Pending { buy: Some(n - 1), set: None },
                Action::StopSet => match before.buy {
                    Some(b) => if row.timestamp.after(trades[b].timestamp) {
                        Pending { buy: before.buy, set: Some(n - 1) }
                    } else {
                        before
                    },
                    None => before,
                },
                Action::Sell => Pending { buy: None, set: None },
                Action::Other => before,
            }
        }
    }
}

/// The contents of a realized trade.
pub struct RealizedView {
    pub symbol: Seq<char>,
    pub buy_price: u64,
    pub sell_price: u64,
    pub qty: u64,
    pub profit: int,
    pub profit_pct: int,
    pub timestamp: Moment,
    pub trend: Seq<char>,
}

impl RealizedTrade {
    /// The trade with its texts as character sequences.
    pub open spec fn contents(self) -> RealizedView {
        RealizedView {
            symbol: self.symbol@,
            buy_price: self.buy_price,
            sell_price: self.sell_price,
            qty: self.qty,
            profit: self.profit as int,
            profit_pct: self.profit_pct as int,
            timestamp: self.timestamp,
            trend: self.trend@,
        }
    }
}

/// Growth from buy to sell price in percent; zero for a zero buy price.
pub open spec fn profit_percent(buy_price: u64, sell_price: u64) -> int {
    if buy_price > 0 {
        growth_percent(buy_price, sell_price)
    } else {
        0
    }
}

/// The position that the row at place `at` realizes, if it is a SELL of a
/// symbol with a BUY and a stop update pending. It sells at the stop.
pub open spec fn realized_at(trades: Seq<TradeLogEntry>, at: int) -> Option<RealizedView> {
    let row = trades[at];
    let pending = pending_after(trades, row.symbol@, at);
    if action_of(row.action@) is Sell && pending.buy.is_some() && pending.set.is_some() {
        let buy = trades[pending.buy.unwrap()];
        let set = trades[pending.set.unwrap()];
        Some(
            RealizedView {
                symbol: row.symbol@,
                buy_price: buy.price,
                sell_price: set.stop_loss,
                qty: buy.qty,
                profit: scaled_product_spec(set.stop_loss as int - buy.price as int, buy.qty),
                profit_pct: profit_percent(buy.price, set.stop_loss),
                timestamp: row.timestamp,
                trend: row.action@,
            },
        )
    } else {
        None
    }
}

/// The positions realized by the first `n` rows, in order.
pub open spec fn report_of(trades: Seq<TradeLogEntry>, n: int) -> Seq<RealizedView>
    decreases n,
{
    if n <= 0 {
        Seq::empty()
    } else {
        let before = report_of(trades, n - 1);
        match realized_at(trades, n - 1) {
            Some(t) => before.push(t),
            None => before,
        }
    }
}

/// The contents of each trade of a list.
pub open spec fn report_views(report: Seq<RealizedTrade>) -> Seq<RealizedView> {
    Seq::new(report.len(), |i: int| report[i].contents())
}

/// Finds the open position of a symbol after the first `upto` rows.
pub fn pending_position(trades: &Vec<TradeLogEntry>, symbol: &str, upto: usize) -> (pending: (
    Option<usize>,
    Option<usize>,
))
    requires
        upto <= trades@.len(),
    ensures
        pending_after(trades@, symbol@, upto as int) == (Pending {
            buy: match pending.0 {
                Some(b) => Some(b as int),
                None => None,
            },
            set: match pending.1 {
                Some(s) => Some(s as int),
                None => None,
            },
        }),
        pending.0 matches Some(b) ==> b < upto,
        pending.1 matches Some(s) ==> s < upto,
{
    let mut buy: Option<usize> = None;
    let mut set: Option<usize> = None;
    let mut n: usize = 0;
    while n < upto
        invariant
            n <= upto <= trades@.len(),
            pending_after(trades@, symbol@, n as int) == (Pending {
                buy: match buy {
                    Some(b) => Some(b as int),
                    None => None,
                },
                set: match set {
                    Some(s) => Some(s as int),
                    None => None,
                },
            }),
            buy matches Some(b) ==> b < n,
            set matches Some(s) ==> s < n,
        decreases upto - n,
    {
        let row = &trades[n];
        if str_eq(row.symbol.as_str(), symbol) {
            match read_action(row.action.as_str()) {
                Action::Buy => {
                    buy = Some(n);
                    set = None;
                },
                Action::StopSet => {
                    match buy {
                        Some(b) => {
                            if row.timestamp.is_after(&trades[b].timestamp) {
                                set = Some(n);
                            }
                        },
                        None => {},
                    }
                },
                Action::Sell => {
                    buy = None;
                    set = None;
                },
                Action::Other => {},
            }
        }
        n += 1;
    }
    (buy, set)
}

/// The position that the row at place `at` realizes, if it realizes one.
pub fn realize(trades: &Vec<TradeLogEntry>, at: usize) -> (trade: Option<RealizedTrade>)
    requires
        at < trades@.len(),
    ensures
        match trade {
            Some(t) => realized_at(trades@, at as int) == Some(t.contents()),
            None => realized_at(trades@, at as int).is_none(),
        },
{
    let row = &trades[at];
    match read_action(row.action.as_str()) {
        Action::Sell => {},
        _ => {
            return None;
        },
    }
    match pending_position(trades, row.symbol.as_str(), at) {
        (Some(b), Some(s)) => {
            let buy = &trades[b];
            let sell_price = trades[s].stop_loss;
            let profit = scaled_product((sell_price as i128) - (buy.price as i128), buy.qty);
            let profit_pct: i128 = if buy.price > 0 {
                growth(buy.price, sell_price)
            } else {
                0
            };
            Some(
                RealizedTrade {
                    symbol: row.symbol.clone(),
                    buy_price: buy.price,
                    sell_price,
                    qty: buy.qty,
                    profit,
                    profit_pct,
                    timestamp: row.timestamp,
                    trend: row.action.clone(),
                },
            )
        },
        _ => None,
    }
}

/// Builds the realized-profit report of a ledger whose rows are in the order
/// of their moments.
pub fn generate_realized_report(trades: &Vec<TradeLogEntry>) -> (report: Vec<RealizedTrade>)
    ensures
        report_views(report@) == report_of(trades@, trades@.len() as int),
        report@.len() <= trades@.len(),
{
    let mut report: Vec<RealizedTrade> = Vec::new();
    let mut i: usize = 0;
    proof {
        assert(report_views(report@) =~= Seq::<RealizedView>::empty());
    }
    while i < trades.len()
        invariant
            i <= trades.len(),
            report_views(report@) == report_of(trades@, i as int),
            report@.len() <= i,
        decreases trades.len() - i,
    {
        match realize(trades, i) {
            Some(t) => {
                proof {
                    assert(report_views(report@.push(t)) =~= report_views(report@).push(t.contents()));
                }
                report.push(t);
            },
            None => {},
        }
        i += 1;
    }
    report
}

/// The realized trades of one symbol, in order.
pub open spec fn symbol_report_of(trades: Seq<TradeLogEntry>, symbol: Seq<char>, n: int) -> Seq<
    RealizedView,
>
    decreases n,
{
    if n <= 0 {
        Seq::empty()
    } else {
        let before = symbol_report_of(trades, symbol, n - 1);
        match realized_at(trades, n - 1) {
            Some(t) => if t.symbol == symbol {
                before.push(t)
            } else {
                before
            },
            None => before,
        }
    }
}

/// The realized trades of one symbol: those of the whole report that carry
/// the symbol.
pub fn realized_for_symbol(symbol: &str, trades: &Vec<TradeLogEntry>) -> (report: Vec<RealizedTrade>)
    ensures
        report_views(report@) == symbol_report_of(trades@, symbol@, trades@.len() as int),
{
    let mut report: Vec<RealizedTrade> = Vec::new();
    let mut i: usize = 0;
    proof {
        assert(report_views(report@) =~= Seq::<RealizedView>::empty());
    }
    while i < trades.len()
        invariant
            i <= trades.len(),
            report_views(report@) == symbol_report_of(trades@, symbol@, i as int),
        decreases trades.len() - i,
    {
        if str_eq(trades[i].symbol.as_str(), symbol) {
            match realize(trades, i) {
                Some(t) => {
                    proof {
                        assert(report_views(report@.push(t)) =~= report_views(report@).push(
                            t.contents(),
                        ));
                    }
                    report.push(t);
                },
                None => {},
            }
        }
        i += 1;
    }
    report
}

} // verus!
