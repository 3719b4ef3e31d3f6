//! Entering a position: how much to buy, which protective order follows the
//! buy, and the simple trailing update of a single order.

use vstd::prelude::*;
use crate::controller::StopOrder;
use crate::decimal::{round_to_step, round_to_step_spec, SCALE};
use crate::exchange::Binance;
use crate::ratchet::{
    candidate_stop, candidate_stop_spec, ratchet, ratchet_spec, stop_level, stop_level_spec,
};
use crate::types::{ProtectionMode, SymbolFilters, TrackedPosition, TrendDirection};

verus! {

/// A bought token with its trailing stop.
#[derive(Debug)]
pub struct Order {
    pub token: String,
    pub purchase_price: u64,
    pub stop_loss_price: u64,
}

/// The price at which the dry-run buy fills: one hundred.
pub const DRY_RUN_PRICE: u64 = 10_000_000_000;

/// Ten thousand units: prices of a plain trailing update carry four decimals.
pub const FOUR_DECIMALS: u64 = 10_000;

/// One thousand units: a computed buy quantity carries five decimals.
pub const FIVE_DECIMALS: u64 = 1_000;

/// A dry-run buy: fills at a price of one hundred and sets the first stop
/// `stop_loss_percent` percent below it. It never fails.
pub fn buy_token(token_symbol: &str, transaction_amount: u64, stop_loss_percent: u64) -> (result:
    Result<Order, &'static str>)
    ensures
        result is Ok,
        result.unwrap().token@ == token_symbol@,
        result.unwrap().purchase_price == DRY_RUN_PRICE,
        result.unwrap().stop_loss_price == stop_level_spec(
            DRY_RUN_PRICE,
            stop_loss_percent,
            TrendDirection::Positive,
        ),
{
    let stop_loss_price = stop_level(DRY_RUN_PRICE, stop_loss_percent, TrendDirection::Positive);
    Ok(
        Order {
            token: String::from_str(token_symbol),
            purchase_price: DRY_RUN_PRICE,
            stop_loss_price,
        },
    )
}

/// The stop of an order after a price: the price's stop level where that is
/// strictly above the stop, the stop as it was otherwise. Whether the price is
/// above or below the purchase price plays no part.
pub open spec fn updated_stop_spec(stop: u64, current_price: u64, pct: u64) -> u64 {
    let level = stop_level_spec(current_price, pct, TrendDirection::Positive);
    if level > stop {
        level
    } else {
        stop
    }
}

/// Trails the stop of an order behind a new price: one step of the ratchet,
/// without a tick. The stop never falls.
pub fn update_stop_loss(order: &mut Order, current_price: u64, stop_loss_percent: u64)
    ensures
        final(order).token == old(order).token,
        final(order).purchase_price == old(order).purchase_price,
        final(order).stop_loss_price == updated_stop_spec(
            old(order).stop_loss_price,
            current_price,
            stop_loss_percent,
        ),
        final(order).stop_loss_price == ratchet_spec(
            old(order).stop_loss_price,
            current_price,
            stop_loss_percent,
            1,
            TrendDirection::Positive,
        ),
        final(order).stop_loss_price >= old(order).stop_loss_price,
{
    proof {
        let level = stop_level_spec(current_price, stop_loss_percent, TrendDirection::Positive);
        assert(round_to_step_spec(level, 1) == level);
    }
    order.stop_loss_price = ratchet(
        order.stop_loss_price,
        current_price,
        stop_loss_percent,
        1,
        TrendDirection::Positive,
    );
}

/// The stop of a position after one pass of the plain trailing update: a
/// ratchet step with a four-decimal tick where a price is known.
pub open spec fn passed_stop(stop: u64, price: Option<u64>, pct: u64) -> u64 {
    match price {
        Some(p) => ratchet_spec(stop, p, pct, FOUR_DECIMALS, TrendDirection::Positive),
        None => stop,
    }
}

/// One pass of the plain trailing update over all positions positions.
/// `prices[i]` is the current price of position `i`, `None` where fetching it
/// failed; such a position is left alone. Returns the stops after the pass.
pub fn update_stop_loss_pass(
    positions: &Vec<TrackedPosition>,
    prices: &Vec<Option<u64>>,
    stop_loss_percent: u64,
) -> (stops: Vec<u64>)
    requires
        prices@.len() == positions@.len(),
    ensures
        stops@.len() == positions@.len(),
        forall|i: int|
            0 <= i < positions@.len() ==> #[trigger] stops@[i] == passed_stop(
                positions@[i].current_stop_price,
                prices@[i],
                stop_loss_percent,
            ) && stops@[i] >= positions@[i].current_stop_price,
{
    let mut stops: Vec<u64> = Vec::new();
    let mut i: usize = 0;
    while i < positions.len()
        invariant
            i <= positions.len(),
            prices@.len() == positions@.len(),
            stops@.len() == i,
            forall|k: int|
                0 <= k < i ==> #[trigger] stops@[k] == passed_stop(
                    positions@[k].current_stop_price,
                    prices@[k],
                    stop_loss_percent,
                ) && stops@[k] >= positions@[k].current_stop_price,
        decreases positions.len() - i,
    {
        let stop = match prices[i] {
            Some(p) => ratchet(
                positions[i].current_stop_price,
                p,
                stop_loss_percent,
                FOUR_DECIMALS,
                TrendDirection::Positive,
            ),
            None => positions[i].current_stop_price,
        };
        stops.push(stop);
        i += 1;
    }
    stops
}

/// Why a position is not entered.
#[derive(Debug, Clone, Copy, PartialEq, Eq, Structural)]
pub enum EntryError {
    /// The price is zero or could not be read.
    ZeroPrice,
    /// The quantity does not fit the amount type.
    QuantityTooLarge,
    /// The quantity, rounded to the step, is under the symbol's minimum.
    QuantityTooLow,
}

/// How many units a quote amount buys at a price, cut to five decimals.
pub open spec fn quantity_for_quote_spec(quote_amount: u64, price: u64) -> int {
    let exact = (quote_amount as int * SCALE as int) / (price as int);
    (exact / (FIVE_DECIMALS as int)) * (FIVE_DECIMALS as int)
}

/// The quantity of the market buy that enters a position: what the quote
/// amount buys, rounded down to the symbol's step. Rejected where that is under
/// the symbol's minimum quantity.
pub fn entry_quantity(quote_amount: u64, price: u64, filters: &SymbolFilters) -> (result: Result<
    u64,
    EntryError,
>)
    ensures
        price == 0 ==> result == Err::<u64, EntryError>(EntryError::ZeroPrice),
        price > 0 && quantity_for_quote_spec(quote_amount, price) > u64::MAX ==> result == Err::<
            u64,
            EntryError,
        >(EntryError::QuantityTooLarge),
        price > 0 && quantity_for_quote_spec(quote_amount, price) <= u64::MAX ==> {
            let rounded = round_to_step_spec(
                quantity_for_quote_spec(quote_amount, price) as u64,
                filters.step_size,
            );
            if rounded < filters.min_qty {
                result == Err::<u64, EntryError>(EntryError::QuantityTooLow)
            } else {
                result == Ok::<u64, EntryError>(rounded)
            }
        },
{
    let raw = match Binance::calculate_quantity_for_quote(quote_amount, price) {
        Ok(q) => q,
        Err(e) => {
            return Err(e);
        },
    };
    let quantity = round_to_step(raw, filters.step_size);
    if quantity < filters.min_qty {
        Err(EntryError::QuantityTooLow)
    } else {
        Ok(quantity)
    }
}

/// The order that protects a freshly bought position.
#[derive(Debug, Clone, Copy, PartialEq, Eq, Structural)]
pub enum ProtectiveOrder {
    /// A trailing stop kept by the exchange; the callback rate is the
    /// stop-loss percentage.
    Trailing { quantity: u64, callback_rate: u64, activation_price: Option<u64> },
    /// A stop-limit order that the controller will ratchet.
    StopLimit(StopOrder),
}

/// Chooses the protective order after a buy. The quantity is the confirmed
/// balance rounded down to the step. Where the exchange trails stops for the
/// symbol, a trailing order; otherwise a stop-limit order at the price's
/// candidate stop for the position's direction.
pub fn protective_order(
    confirmed_balance: u64,
    current_price: u64,
    filters: &SymbolFilters,
    stop_loss_percent: u64,
    supports_trailing: bool,
    activation_price: Option<u64>,
    dir: TrendDirection,
) -> (order: ProtectiveOrder)
    ensures
        order == if supports_trailing {
            ProtectiveOrder::Trailing {
                quantity: round_to_step_spec(confirmed_balance, filters.step_size),
                callback_rate: stop_loss_percent,
                activation_price,
            }
        } else {
            ProtectiveOrder::StopLimit(
                StopOrder {
                    quantity: round_to_step_spec(confirmed_balance, filters.step_size),
                    stop_price: candidate_stop_spec(
                        current_price,
                        stop_loss_percent,
                        filters.tick_size,
                        dir,
                    ),
                },
            )
        },
{
    let quantity = round_to_step(confirmed_balance, filters.step_size);
    if supports_trailing {
        ProtectiveOrder::Trailing { quantity, callback_rate: stop_loss_percent, activation_price }
    } else {
        ProtectiveOrder::StopLimit(
            StopOrder {
                quantity,
                stop_price: candidate_stop(current_price, stop_loss_percent, filters.tick_size, dir),
            },
        )
    }
}

/// The record of a position whose protective order was confirmed: its mode is
/// fixed here, by the kind of order, and its first stop is the order's stop
/// price, or for a trailing order the entry price's candidate stop.
pub fn track(
    symbol: String,
    entry_price: u64,
    order: &ProtectiveOrder,
    filters: &SymbolFilters,
    stop_loss_percent: u64,
    dir: TrendDirection,
) -> (position: TrackedPosition)
    ensures
        position.symbol == symbol,
        position.entry_price == entry_price,
        position.protection_mode == match *order {
            ProtectiveOrder::Trailing { .. } => ProtectionMode::Native,
            ProtectiveOrder::StopLimit(_) => ProtectionMode::Synthetic,
        },
        position.quantity == match *order {
            ProtectiveOrder::Trailing { quantity, .. } => quantity,
            ProtectiveOrder::StopLimit(o) => o.quantity,
        },
        position.current_stop_price == match *order {
            ProtectiveOrder::Trailing { .. } => candidate_stop_spec(
                entry_price,
                stop_loss_percent,
                filters.tick_size,
                dir,
            ),
            ProtectiveOrder::StopLimit(o) => o.stop_price,
        },
{
    match *order {
        ProtectiveOrder::Trailing { quantity, callback_rate, activation_price } => {
            let stop = candidate_stop(entry_price, stop_loss_percent, filters.tick_size, dir);
            TrackedPosition::open(symbol, entry_price, quantity, stop, ProtectionMode::Native)
        },
        ProtectiveOrder::StopLimit(o) => TrackedPosition::open(
            symbol,
            entry_price,
            o.quantity,
            o.stop_price,
            ProtectionMode::Synthetic,
        ),
    }
}

impl Binance {
    /// Computes the quantity that `quote_amount` buys at `price`. Fails for a zero
    /// price, and for a quantity beyond the largest amount.
    pub fn calculate_quantity_for_quote(quote_amount: u64, price: u64) -> (result: Result<
        u64,
        EntryError,
    >)
        ensures
            price == 0 ==> result == Err::<u64, EntryError>(EntryError::ZeroPrice),
            price > 0 && quantity_for_quote_spec(quote_amount, price) > u64::MAX ==> result == Err::<
                u64,
                EntryError,
            >(EntryError::QuantityTooLarge),
            price > 0 && quantity_for_quote_spec(quote_amount, price) <= u64::MAX ==> result is Ok
                && result.unwrap() == quantity_for_quote_spec(quote_amount, price),
    {
        if price == 0 {
            return Err(EntryError::ZeroPrice);
        }
        proof {
            assert(0 <= quote_amount as int * SCALE as int <= 0xffff_ffff_ffff_ffff * 100_000_000)
                by (nonlinear_arith)
                requires
                    0 <= quote_amount as int <= 0xffff_ffff_ffff_ffff,
                    SCALE as int == 100_000_000,
            ;
            let product = quote_amount as int * SCALE as int;
            vstd::arithmetic::div_mod::lemma_div_pos_is_pos(product, price as int);
            vstd::arithmetic::div_mod::lemma_div_is_ordered_by_denominator(product, 1, price as int);
            crate::decimal::lemma_floor_multiple(product / (price as int), FIVE_DECIMALS as int);
        }
        let exact: u128 = ((quote_amount as u128) * (SCALE as u128)) / (price as u128);
        let cut: u128 = (exact / (FIVE_DECIMALS as u128)) * (FIVE_DECIMALS as u128);
        if cut > u64::MAX as u128 {
            Err(EntryError::QuantityTooLarge)
        } else {
            Ok(cut as u64)
        }
    }
}

} // verus!
