//! The query strings of the exchange's endpoints and the rows of the trade
//! ledger, character for character.

use vstd::prelude::*;
use vstd::string::StringExecFns;
use crate::formatting::{amount_text, digits_of, format_amount, number_text};

verus! {

/// The query of a market buy: the quantity with five decimals.
pub fn market_buy_query(symbol: &str, quantity: u64, timestamp: u64) -> (query: String)
    ensures
        query@ == "symbol="@ + symbol@ + "&side=BUY&type=MARKET&quantity="@ + amount_text(quantity, 5)
            + "&recvWindow=5000&timestamp="@ + digits_of(timestamp as nat),
{
    let mut query = String::from_str("symbol=");
    query.append(symbol);
    query.append("&side=BUY&type=MARKET&quantity=");
    query.append(format_amount(quantity, 5).as_str());
    query.append("&recvWindow=5000&timestamp=");
    query.append(number_text(timestamp).as_str());
    query
}

/// The part of a trailing-stop query that names the activation price, with
/// eight decimals; empty where there is none.
pub open spec fn activation_part(activation_price: Option<u64>) -> Seq<char> {
    match activation_price {
        Some(price) => "&activationPrice="@ + amount_text(price, 8),
        None => Seq::empty(),
    }
}

/// The query of a trailing stop sell: the quantity with five decimals, the
/// callback rate with one.
pub fn trailing_stop_query(
    symbol: &str,
    quantity: u64,
    callback_rate: u64,
    activation_price: Option<u64>,
    timestamp: u64,
) -> (query: String)
    ensures
        query@ == "symbol="@ + symbol@ + "&side=SELL&type=TRAILING_STOP_MARKET&quantity="@
            + amount_text(quantity, 5) + "&callbackRate="@ + amount_text(callback_rate, 1)
            + "&recvWindow=5000&timestamp="@ + digits_of(timestamp as nat) + activation_part(
            activation_price,
        ),
{
    let mut query = String::from_str("symbol=");
    query.append(symbol);
    query.append("&side=SELL&type=TRAILING_STOP_MARKET&quantity=");
    query.append(format_amount(quantity, 5).as_str());
    query.append("&callbackRate=");
    query.append(format_amount(callback_rate, 1).as_str());
    query.append("&recvWindow=5000&timestamp=");
    query.append(number_text(timestamp).as_str());
    match activation_price {
        Some(price) => {
            let mut part = String::from_str("&activationPrice=");
            part.append(format_amount(price, 8).as_str());
            query.append(part.as_str());
        },
        None => {
            proof {
                assert(query@ + Seq::<char>::empty() =~= query@);
            }
        },
    }
    query
}

/// The query of a stop-limit sell: the quantity with five decimals, both
/// prices with four.
pub fn stop_loss_limit_query(
    symbol: &str,
    quantity: u64,
    stop_price: u64,
    limit_price: u64,
    timestamp: u64,
) -> (query: String)
    ensures
        query@ == "symbol="@ + symbol@ + "&side=SELL&type=STOP_LOSS_LIMIT&quantity="@ + amount_text(
            quantity,
            5,
        ) + "&stopPrice="@ + amount_text(stop_price, 4) + "&price="@ + amount_text(limit_price, 4)
            + "&timeInForce=GTC&recvWindow=5000&timestamp="@ + digits_of(timestamp as nat),
{
    let mut query = String::from_str("symbol=");
    query.append(symbol);
    query.append("&side=SELL&type=STOP_LOSS_LIMIT&quantity=");
    query.append(format_amount(quantity, 5).as_str());
    query.append("&stopPrice=");
    query.append(format_amount(stop_price, 4).as_str());
    query.append("&price=");
    query.append(format_amount(limit_price, 4).as_str());
    query.append("&timeInForce=GTC&recvWindow=5000&timestamp=");
    query.append(number_text(timestamp).as_str());
    query
}

/// The query that cancels an order.
pub fn cancel_query(symbol: &str, order_id: u64, timestamp: u64) -> (query: String)
    ensures
        query@ == "symbol="@ + symbol@ + "&orderId="@ + digits_of(order_id as nat)
            + "&recvWindow=5000&timestamp="@ + digits_of(timestamp as nat),
{
    let mut query = String::from_str("symbol=");
    query.append(symbol);
    query.append("&orderId=");
    query.append(number_text(order_id).as_str());
    query.append("&recvWindow=5000&timestamp=");
    query.append(number_text(timestamp).as_str());
    query
}

/// The query that asks for one order's state.
pub fn order_status_query(symbol: &str, order_id: u64, timestamp: u64) -> (query: String)
    ensures
        query@ == "symbol="@ + symbol@ + "&orderId="@ + digits_of(order_id as nat) + "&timestamp="@
            + digits_of(timestamp as nat) + "&recvWindow=5000"@,
{
    let mut query = String::from_str("symbol=");
    query.append(symbol);
    query.append("&orderId=");
    query.append(number_text(order_id).as_str());
    query.append("&timestamp=");
    query.append(number_text(timestamp).as_str());
    query.append("&recvWindow=5000");
    query
}

/// The query of the account and open-order requests.
pub fn account_query(timestamp: u64) -> (query: String)
    ensures
        query@ == "timestamp="@ + digits_of(timestamp as nat) + "&recvWindow=5000"@,
{
    let mut query = String::from_str("timestamp=");
    query.append(number_text(timestamp).as_str());
    query.append("&recvWindow=5000");
    query
}

/// The query that asks for the orders between two moments.
pub fn all_orders_query(start_time: u64, end_time: u64) -> (query: String)
    ensures
        query@ == "startTime="@ + digits_of(start_time as nat) + "&endTime="@ + digits_of(
            end_time as nat,
        ) + "&timestamp="@ + digits_of(end_time as nat) + "&recvWindow=5000"@,
{
    let mut query = String::from_str("startTime=");
    query.append(number_text(start_time).as_str());
    query.append("&endTime=");
    query.append(number_text(end_time).as_str());
    query.append("&timestamp=");
    query.append(number_text(end_time).as_str());
    query.append("&recvWindow=5000");
    query
}

/// A named moment of a query; empty where there is none.
pub open spec fn moment_part(name: Seq<char>, moment: Option<u64>) -> Seq<char> {
    match moment {
        Some(t) => name + digits_of(t as nat),
        None => Seq::empty(),
    }
}

/// The query that asks for a symbol's trades, optionally between two moments.
pub fn trade_history_query(
    symbol: &str,
    timestamp: u64,
    start_time: Option<u64>,
    end_time: Option<u64>,
) -> (query: String)
    ensures
        query@ == "symbol="@ + symbol@ + "&timestamp="@ + digits_of(timestamp as nat) + moment_part(
            "&startTime="@,
            start_time,
        ) + moment_part("&endTime="@, end_time),
{
    let mut query = String::from_str("symbol=");
    query.append(symbol);
    query.append("&timestamp=");
    query.append(number_text(timestamp).as_str());
    match start_time {
        Some(t) => {
            let mut part = String::from_str("&startTime=");
            part.append(number_text(t).as_str());
            query.append(part.as_str());
        },
        None => {
            proof {
                assert(query@ + Seq::<char>::empty() =~= query@);
            }
        },
    }
    match end_time {
        Some(t) => {
            let mut part = String::from_str("&endTime=");
            part.append(number_text(t).as_str());
            query.append(part.as_str());
        },
        None => {
            proof {
                assert(query@ + Seq::<char>::empty() =~= query@);
            }
        },
    }
    query
}

/// The path of a candle request.
pub fn klines_path(symbol: &str, interval: &str, limit: u16) -> (path: String)
    ensures
        path@ == "/klines?symbol="@ + symbol@ + "&interval="@ + interval@ + "&limit="@ + digits_of(
            limit as nat,
        ),
{
    let mut path = String::from_str("/klines?symbol=");
    path.append(symbol);
    path.append("&interval=");
    path.append(interval);
    path.append("&limit=");
    path.append(number_text(limit as u64).as_str());
    path
}

/// The path of a request that names one symbol.
pub fn symbol_path(endpoint: &str, symbol: &str) -> (path: String)
    ensures
        path@ == endpoint@ + "?symbol="@ + symbol@,
{
    let mut path = String::from_str(endpoint);
    path.append("?symbol=");
    path.append(symbol);
    path
}

/// The header line of a ledger file.
pub fn ledger_header() -> (line: &'static str)
    ensures
        line@ == "timestamp,symbol,action,price,qty,quote,stop_loss,reason,trend"@,
{
    "timestamp,symbol,action,price,qty,quote,stop_loss,reason,trend"
}

/// One row of the trade ledger: the moment, the symbol, the action, then
/// price, quantity, quote amount and stop price with four decimals each, the
/// reason and the trend, separated by commas and ended by a line feed.
pub fn ledger_row(
    timestamp: &str,
    symbol: &str,
    action: &str,
    price: u64,
    qty: u64,
    quote: u64,
    stop_loss: u64,
    reason: &str,
    trend: &str,
) -> (row: String)
    ensures
        row@ == timestamp@ + ","@ + symbol@ + ","@ + action@ + ","@ + amount_text(price, 4) + ","@
            + amount_text(qty, 4) + ","@ + amount_text(quote, 4) + ","@ + amount_text(stop_loss, 4)
            + ","@ + reason@ + ","@ + trend@ + "\n"@,
{
    let mut row = String::from_str(timestamp);
    row.append(",");
    row.append(symbol);
    row.append(",");
    row.append(action);
    row.append(",");
    row.append(format_amount(price, 4).as_str());
    row.append(",");
    row.append(format_amount(qty, 4).as_str());
    row.append(",");
    row.append(format_amount(quote, 4).as_str());
    row.append(",");
    row.append(format_amount(stop_loss, 4).as_str());
    row.append(",");
    row.append(reason);
    row.append(",");
    row.append(trend);
    row.append("\n");
    row
}

} // verus!
