//! The stop-loss controller's decisions: what to do for a position on a tick,
//! and how a confirmed replacement changes what is recorded.
//!
//! Talking to the exchange is the caller's part. It hands in what it fetched and
//! carries out the action that comes back; a stop is recorded only once its
//! order is confirmed.

use vstd::prelude::*;
use crate::decimal::{round_to_step, round_to_step_spec, SCALE};
use crate::ratchet::{
    at_least_as_protective, candidate_stop, candidate_stop_spec, is_more_protective,
    more_protective, ratchet_spec,
};
use crate::types::{ProtectionMode, SymbolFilters, TrackedPosition, TrendDirection};

verus! {

/// Why an intended order is abandoned for this cycle.
#[derive(Debug, Clone, Copy, PartialEq, Eq, Structural)]
pub enum SkipReason {
    /// The quantity rounds down to nothing.
    ZeroQuantity,
    BelowMinQty,
    /// The stop price is zero or under the symbol's minimum price.
    BelowMinPrice,
    BelowMinNotional,
}

/// A stop-limit order to place: limit and stop price are the same.
#[derive(Debug, Clone, Copy, PartialEq, Eq, Structural)]
pub struct StopOrder {
    pub quantity: u64,
    pub stop_price: u64,
}

/// What the controller does for one position on one tick.
#[derive(Debug, Clone, Copy, PartialEq, Eq, Structural)]
pub enum TickAction {
    /// Nothing: no price, a natively trailed position, or no improvement.
    Hold,
    /// The protective order is gone: the position is closed and retired.
    Retire,
    /// Cancel the live stop-limit order and place this one.
    Replace(StopOrder),
    /// The position is held without a live order: place this one at once.
    Restore(StopOrder),
    /// The improved order would break an exchange constraint.
    Skip(SkipReason),
}

/// Price times quantity, in units, rounded down.
pub open spec fn notional_spec(price: u64, quantity: u64) -> int {
    (price as int * quantity as int) / (SCALE as int)
}

/// Computes price times quantity.
pub fn notional(price: u64, quantity: u64) -> (value: u128)
    ensures
        value as int == notional_spec(price, quantity),
{
    proof {
        assert(0 <= price as int * quantity as int <= 0xffff_ffff_ffff_ffff * 0xffff_ffff_ffff_ffff)
            by (nonlinear_arith)
            requires
                0 <= price as int <= 0xffff_ffff_ffff_ffff,
                0 <= quantity as int <= 0xffff_ffff_ffff_ffff,
        ;
    }
    ((price as u128) * (quantity as u128)) / (SCALE as u128)
}

/// The first exchange constraint that an order breaks, if it breaks one:
/// minimum quantity, then minimum price (a zero stop price fails it too), then
/// minimum notional.
pub open spec fn constraint_broken(order: StopOrder, filters: SymbolFilters) -> Option<SkipReason> {
    if order.quantity < filters.min_qty {
        Some(SkipReason::BelowMinQty)
    } else if order.stop_price == 0 || order.stop_price < filters.min_price {
        Some(SkipReason::BelowMinPrice)
    } else if notional_spec(order.stop_price, order.quantity) < filters.min_notional {
        Some(SkipReason::BelowMinNotional)
    } else {
        None
    }
}

/// Tests an order against the symbol's constraints.
pub fn check_constraints(order: &StopOrder, filters: &SymbolFilters) -> (broken: Option<SkipReason>)
    ensures
        broken == constraint_broken(*order, *filters),
{
    if order.quantity < filters.min_qty {
        Some(SkipReason::BelowMinQty)
    } else if order.stop_price == 0 || order.stop_price < filters.min_price {
        Some(SkipReason::BelowMinPrice)
    } else if notional(order.stop_price, order.quantity) < filters.min_notional as u128 {
        Some(SkipReason::BelowMinNotional)
    } else {
        None
    }
}

/// The first stop for a holding found without protection: the holding rounded
/// down to the step, at the price's candidate stop. The order is placed exactly
/// when it meets the symbol's minimum quantity, minimum price and minimum
/// notional; otherwise the first minimum it breaks is the reason why not.
pub open spec fn initial_stop_spec(
    price: u64,
    balance: u64,
    filters: SymbolFilters,
    pct: u64,
) -> Result<StopOrder, SkipReason> {
    let order = StopOrder {
        quantity: round_to_step_spec(balance, filters.step_size),
        stop_price: candidate_stop_spec(price, pct, filters.tick_size, TrendDirection::Positive),
    };
    match constraint_broken(order, filters) {
        Some(reason) => Err(reason),
        None => Ok(order),
    }
}

/// Plans the first stop-limit order for an unprotected holding.
pub fn plan_initial_stop(price: u64, balance: u64, filters: &SymbolFilters, pct: u64) -> (plan:
    Result<StopOrder, SkipReason>)
    ensures
        plan == initial_stop_spec(price, balance, *filters, pct),
{
    let order = StopOrder {
        quantity: round_to_step(balance, filters.step_size),
        stop_price: candidate_stop(price, pct, filters.tick_size, TrendDirection::Positive),
    };
    match check_constraints(&order, filters) {
        Some(reason) => Err(reason),
        None => Ok(order),
    }
}

/// The decision for a synthetic position that has a price: nothing where the
/// quantity rounds to zero or the candidate does not protect strictly better
/// than the recorded stop; otherwise the replacement, unless it breaks a
/// constraint.
pub open spec fn ratchet_plan_spec(
    current_stop: u64,
    quantity: u64,
    price: u64,
    filters: SymbolFilters,
    pct: u64,
    dir: TrendDirection,
) -> TickAction {
    let order = StopOrder {
        quantity: round_to_step_spec(quantity, filters.step_size),
        stop_price: candidate_stop_spec(price, pct, filters.tick_size, dir),
    };
    if order.quantity == 0 {
        TickAction::Skip(SkipReason::ZeroQuantity)
    } else if !more_protective(
        order.stop_price,
        round_to_step_spec(current_stop, filters.tick_size),
        dir,
    ) {
        TickAction::Hold
    } else {
        match constraint_broken(order, filters) {
            Some(reason) => TickAction::Skip(reason),
            None => TickAction::Replace(order),
        }
    }
}

/// Plans the ratchet step of one synthetic position.
pub fn plan_ratchet(
    current_stop: u64,
    quantity: u64,
    price: u64,
    filters: &SymbolFilters,
    pct: u64,
    dir: TrendDirection,
) -> (action: TickAction)
    ensures
        action == ratchet_plan_spec(current_stop, quantity, price, *filters, pct, dir),
        action matches TickAction::Replace(order) ==> more_protective(
            order.stop_price,
            round_to_step_spec(current_stop, filters.tick_size),
            dir,
        ),
{
    let order = StopOrder {
        quantity: round_to_step(quantity, filters.step_size),
        stop_price: candidate_stop(price, pct, filters.tick_size, dir),
    };
    if order.quantity == 0 {
        return TickAction::Skip(SkipReason::ZeroQuantity);
    }
    let recorded = round_to_step(current_stop, filters.tick_size);
    if !is_more_protective(order.stop_price, recorded, dir) {
        return TickAction::Hold;
    }
    match check_constraints(&order, filters) {
        Some(reason) => TickAction::Skip(reason),
        None => TickAction::Replace(order),
    }
}

/// The order that protects a held position again after its stop order was
/// lost: at the recorded stop, or at the price's candidate where that protects
/// better; never at a less protective one.
pub open spec fn restore_plan_spec(
    current_stop: u64,
    quantity: u64,
    price: u64,
    filters: SymbolFilters,
    pct: u64,
    dir: TrendDirection,
) -> TickAction {
    let order = StopOrder {
        quantity: round_to_step_spec(quantity, filters.step_size),
        stop_price: ratchet_spec(
            round_to_step_spec(current_stop, filters.tick_size),
            price,
            pct,
            filters.tick_size,
            dir,
        ),
    };
    if order.quantity == 0 {
        TickAction::Skip(SkipReason::ZeroQuantity)
    } else {
        match constraint_broken(order, filters) {
            Some(reason) => TickAction::Skip(reason),
            None => TickAction::Restore(order),
        }
    }
}

/// Plans the order that protects a held position again.
pub fn plan_restore(
    current_stop: u64,
    quantity: u64,
    price: u64,
    filters: &SymbolFilters,
    pct: u64,
    dir: TrendDirection,
) -> (action: TickAction)
    ensures
        action == restore_plan_spec(current_stop, quantity, price, *filters, pct, dir),
{
    let recorded = round_to_step(current_stop, filters.tick_size);
    let order = StopOrder {
        quantity: round_to_step(quantity, filters.step_size),
        stop_price: crate::ratchet::ratchet(recorded, price, pct, filters.tick_size, dir),
    };
    if order.quantity == 0 {
        return TickAction::Skip(SkipReason::ZeroQuantity);
    }
    match check_constraints(&order, filters) {
        Some(reason) => TickAction::Skip(reason),
        None => TickAction::Restore(order),
    }
}

/// The decision for one position on one tick.
///
/// With the protective order gone: a native position, or one whose asset is no
/// longer held, is closed and retired; a synthetic position that is still held
/// lost its order between cancel and placement and is protected again as soon
/// as a price is known. With the order open: a native position is left to the
/// exchange; a synthetic one takes a ratchet step where a price is known.
/// Without a price nothing happens.
pub open spec fn tick_spec(
    position: TrackedPosition,
    order_open: bool,
    held: bool,
    price: Option<u64>,
    filters: SymbolFilters,
    pct: u64,
    dir: TrendDirection,
) -> TickAction {
    if !order_open {
        if position.protection_mode == ProtectionMode::Native || !held {
            TickAction::Retire
        } else {
            match price {
                None => TickAction::Hold,
                Some(p) => restore_plan_spec(
                    position.current_stop_price,
                    position.quantity,
                    p,
                    filters,
                    pct,
                    dir,
                ),
            }
        }
    } else if position.protection_mode == ProtectionMode::Native {
        TickAction::Hold
    } else {
        match price {
            None => TickAction::Hold,
            Some(p) => ratchet_plan_spec(
                position.current_stop_price,
                position.quantity,
                p,
                filters,
                pct,
                dir,
            ),
        }
    }
}

/// Decides what to do for one position on one tick. `order_open` tells whether
/// the position's protective order is still among the open orders, `held`
/// whether the wallet still holds the asset; `price` is the current market
/// price, `None` where fetching it failed.
pub fn plan_tick(
    position: &TrackedPosition,
    order_open: bool,
    held: bool,
    price: Option<u64>,
    filters: &SymbolFilters,
    pct: u64,
    dir: TrendDirection,
) -> (action: TickAction)
    ensures
        action == tick_spec(*position, order_open, held, price, *filters, pct, dir),
{
    if !order_open {
        return match position.protection_mode {
            ProtectionMode::Native => TickAction::Retire,
            ProtectionMode::Synthetic => if !held {
                TickAction::Retire
            } else {
                match price {
                    None => TickAction::Hold,
                    Some(p) => plan_restore(
                        position.current_stop_price,
                        position.quantity,
                        p,
                        filters,
                        pct,
                        dir,
                    ),
                }
            },
        };
    }
    match position.protection_mode {
        ProtectionMode::Native => TickAction::Hold,
        ProtectionMode::Synthetic => match price {
            None => TickAction::Hold,
            Some(p) => plan_ratchet(
                position.current_stop_price,
                position.quantity,
                p,
                filters,
                pct,
                dir,
            ),
        },
    }
}

/// How an attempted replacement ended at the exchange.
#[derive(Debug, Clone, Copy, PartialEq, Eq, Structural)]
pub enum ReplaceOutcome {
    /// The old order could not be cancelled: it still protects the position.
    CancelFailed,
    /// The old order was cancelled and the new one was refused: the caller
    /// must look at the open orders again, and the next tick tries once more.
    PlaceFailed,
    /// The new order is confirmed at this stop price.
    Placed(u64),
}

/// The stop recorded after an attempted replacement: the new stop where the
/// order is confirmed and protects strictly better, the old one otherwise.
pub open spec fn recorded_stop(stop: u64, outcome: ReplaceOutcome, dir: TrendDirection) -> u64 {
    match outcome {
        ReplaceOutcome::Placed(placed) => if more_protective(placed, stop, dir) {
            placed
        } else {
            stop
        },
        _ => stop,
    }
}

/// The stop recorded after a series of attempted replacements, oldest first.
pub open spec fn recorded_after(stop: u64, outcomes: Seq<ReplaceOutcome>, dir: TrendDirection) -> u64
    decreases outcomes.len(),
{
    if outcomes.len() == 0 {
        stop
    } else {
        recorded_stop(recorded_after(stop, outcomes.drop_last(), dir), outcomes.last(), dir)
    }
}

/// Monotonicity of the record: whatever replacements are attempted and however
/// they end, the recorded stop of a position never moves against its
/// protective direction.
pub proof fn lemma_record_never_regresses(
    stop: u64,
    outcomes: Seq<ReplaceOutcome>,
    earlier: int,
    later: int,
    dir: TrendDirection,
)
    requires
        0 <= earlier <= later <= outcomes.len(),
    ensures
        at_least_as_protective(
            recorded_after(stop, outcomes.take(later), dir),
            recorded_after(stop, outcomes.take(earlier), dir),
            dir,
        ),
    decreases later - earlier,
{
    if earlier < later {
        lemma_record_never_regresses(stop, outcomes, earlier, later - 1, dir);
        assert(outcomes.take(later).drop_last() =~= outcomes.take(later - 1));
    }
}

impl TrackedPosition {
    /// Creates the record of a position whose protective order is confirmed.
    pub fn open(
        symbol: String,
        entry_price: u64,
        quantity: u64,
        stop_price: u64,
        protection_mode: ProtectionMode,
    ) -> (position: TrackedPosition)
        ensures
            position.symbol == symbol,
            position.entry_price == entry_price,
            position.quantity == quantity,
            position.current_stop_price == stop_price,
            position.protection_mode == protection_mode,
    {
        TrackedPosition { symbol, entry_price, current_stop_price: stop_price, quantity, protection_mode }
    }

    /// Records how a replacement ended. Only a confirmed order changes the
    /// recorded stop, and only to a stop that protects strictly better; a failed
    /// cancel or a failed placement leaves the record as it was. Entry price,
    /// quantity, symbol and protection mode never change.
    pub fn record(&mut self, outcome: ReplaceOutcome, dir: TrendDirection) -> (changed: bool)
        ensures
            final(self).symbol == old(self).symbol,
            final(self).entry_price == old(self).entry_price,
            final(self).quantity == old(self).quantity,
            final(self).protection_mode == old(self).protection_mode,
            at_least_as_protective(final(self).current_stop_price, old(self).current_stop_price, dir),
            final(self).current_stop_price == recorded_stop(
                old(self).current_stop_price,
                outcome,
                dir,
            ),
            changed == (final(self).current_stop_price != old(self).current_stop_price),
    {
        match outcome {
            ReplaceOutcome::Placed(stop) => {
                if is_more_protective(stop, self.current_stop_price, dir) {
                    self.current_stop_price = stop;
                    true
                } else {
                    false
                }
            },
            _ => false,
        }
    }
}

/// A position on a tick whose candidate does not protect strictly better than
/// the recorded stop causes no cancel and no placement: the action replaces
/// nothing.
pub proof fn lemma_no_improvement_no_order(
    position: TrackedPosition,
    order_open: bool,
    held: bool,
    price: u64,
    filters: SymbolFilters,
    pct: u64,
    dir: TrendDirection,
)
    requires
        !more_protective(
            candidate_stop_spec(price, pct, filters.tick_size, dir),
            round_to_step_spec(position.current_stop_price, filters.tick_size),
            dir,
        ),
    ensures
        !(tick_spec(position, order_open, held, Some(price), filters, pct, dir) is Replace),
        order_open ==> tick_spec(position, order_open, held, Some(price), filters, pct, dir)
            is Hold || tick_spec(position, order_open, held, Some(price), filters, pct, dir)
            == TickAction::Skip(SkipReason::ZeroQuantity),
{
}

/// Once a replacement at a price's candidate is recorded, the same price on the
/// next tick replaces nothing.
pub proof fn lemma_same_price_no_second_order(
    position: TrackedPosition,
    price: u64,
    filters: SymbolFilters,
    pct: u64,
    dir: TrendDirection,
)
    requires
        position.current_stop_price == candidate_stop_spec(price, pct, filters.tick_size, dir),
    ensures
        !(tick_spec(position, true, true, Some(price), filters, pct, dir) is Replace),
{
    crate::decimal::lemma_round_to_step_idempotent(
        crate::ratchet::stop_level_spec(price, pct, dir),
        filters.tick_size,
    );
}

/// A candidate that is above a stop rounded down to the tick is above the
/// stop itself.
pub proof fn lemma_above_rounded_is_above(candidate: u64, stop: u64, tick: u64)
    requires
        tick > 0,
        candidate as int % tick as int == 0,
        candidate > round_to_step_spec(stop, tick),
    ensures
        candidate > stop,
{
    let t = tick as int;
    let q = stop as int / t;
    let c = candidate as int / t;
    crate::decimal::lemma_floor_multiple(stop as int, t);
    vstd::arithmetic::div_mod::lemma_fundamental_div_mod(candidate as int, t);
    assert(candidate as int == t * c);
    assert(t * c > q * t);
    assert(c > q) by (nonlinear_arith)
        requires
            t * c > q * t,
            t > 0,
    ;
    assert(t * c >= q * t + t) by (nonlinear_arith)
        requires
            c >= q + 1,
            t > 0,
    ;
}

/// Idempotence on the tick: where a price makes the controller replace a stop
/// and the replacement is confirmed and recorded, the same price on the next
/// tick replaces nothing.
pub proof fn lemma_second_feed_replaces_nothing(
    position: TrackedPosition,
    price: u64,
    filters: SymbolFilters,
    pct: u64,
    dir: TrendDirection,
)
    ensures
        match tick_spec(position, true, true, Some(price), filters, pct, dir) {
            TickAction::Replace(order) => {
                let after = TrackedPosition {
                    current_stop_price: recorded_stop(
                        position.current_stop_price,
                        ReplaceOutcome::Placed(order.stop_price),
                        dir,
                    ),
                    ..position
                };
                after.current_stop_price == order.stop_price && !(tick_spec(
                    after,
                    true,
                    true,
                    Some(price),
                    filters,
                    pct,
                    dir,
                ) is Replace)
            },
            _ => true,
        },
{
    let level = crate::ratchet::stop_level_spec(price, pct, dir);
    let candidate = candidate_stop_spec(price, pct, filters.tick_size, dir);
    crate::decimal::lemma_round_to_step_idempotent(level, filters.tick_size);
    if tick_spec(position, true, true, Some(price), filters, pct, dir) is Replace {
        let recorded = round_to_step_spec(position.current_stop_price, filters.tick_size);
        assert(more_protective(candidate, recorded, dir));
        match dir {
            TrendDirection::Positive => {
                if filters.tick_size > 0 {
                    crate::decimal::lemma_floor_multiple(level as int, filters.tick_size as int);
                    lemma_above_rounded_is_above(
                        candidate,
                        position.current_stop_price,
                        filters.tick_size,
                    );
                }
            },
            TrendDirection::Negative => {
                if filters.tick_size > 0 {
                    crate::decimal::lemma_floor_multiple(
                        position.current_stop_price as int,
                        filters.tick_size as int,
                    );
                }
            },
        }
    }
}

} // verus!
