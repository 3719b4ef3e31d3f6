//! The set of tracked positions: at most one per symbol.
//!
//! Only the stop-loss controller changes it. Whoever commits the result of
//! network work names the symbol again, so a position that was retired in the
//! meantime is simply not found.

use vstd::prelude::*;
use crate::controller::{plan_tick, recorded_stop, tick_spec, ReplaceOutcome, TickAction};
use crate::ratchet::at_least_as_protective;
use crate::text::str_eq;
use crate::types::{SymbolFilters, TrackedPosition, TrendDirection};

verus! {

/// The tracked positions of one controller, all protected in one direction.
pub struct PositionBook {
    pub direction: TrendDirection,
    pub positions: Vec<TrackedPosition>,
}

/// Some position of the list has this symbol.
pub open spec fn tracked_in(positions: Seq<TrackedPosition>, symbol: Seq<char>) -> bool {
    exists|i: int| 0 <= i < positions.len() && (#[trigger] positions[i]).symbol@ == symbol
}

/// No two positions of the list share a symbol.
pub open spec fn one_per_symbol(positions: Seq<TrackedPosition>) -> bool {
    forall|i: int, j: int|
        0 <= i < j < positions.len() ==> (#[trigger] positions[i]).symbol@ != (
        #[trigger] positions[j]).symbol@
}

impl PositionBook {
    /// The book holds at most one position per symbol.
    pub open spec fn wf(&self) -> bool {
        one_per_symbol(self.positions@)
    }

    /// The book tracks a position of this symbol.
    pub open spec fn tracks(&self, symbol: Seq<char>) -> bool {
        tracked_in(self.positions@, symbol)
    }

    /// An empty book.
    pub fn new(direction: TrendDirection) -> (book: PositionBook)
        ensures
            book.wf(),
            book.direction == direction,
            book.positions@.len() == 0,
    {
        PositionBook { direction, positions: Vec::new() }
    }

    /// The place of the position of a symbol.
    pub fn find(&self, symbol: &str) -> (place: Option<usize>)
        ensures
            match place {
                Some(i) => i < self.positions@.len() && self.positions@[i as int].symbol@ == symbol@,
                None => !self.tracks(symbol@),
            },
    {
        let mut i: usize = 0;
        while i < self.positions.len()
            invariant
                i <= self.positions.len(),
                forall|k: int| 0 <= k < i ==> (#[trigger] self.positions@[k]).symbol@ != symbol@,
            decreases self.positions.len() - i,
        {
            if str_eq(self.positions[i].symbol.as_str(), symbol) {
                return Some(i);
            }
            i += 1;
        }
        None
    }

    /// Starts tracking a position whose protective order is confirmed. A
    /// symbol that is tracked already is refused, and the book stays as it is.
    pub fn track(&mut self, position: TrackedPosition) -> (accepted: bool)
        requires
            old(self).wf(),
        ensures
            final(self).wf(),
            final(self).direction == old(self).direction,
            accepted == !old(self).tracks(position.symbol@),
            final(self).positions@ == if accepted {
                old(self).positions@.push(position)
            } else {
                old(self).positions@
            },
    {
        match self.find(position.symbol.as_str()) {
            Some(_) => false,
            None => {
                self.positions.push(position);
                true
            },
        }
    }

    /// Stops tracking the position of a symbol, once its protective order has
    /// filled or the position is seen closed.
    pub fn retire(&mut self, symbol: &str) -> (removed: bool)
        requires
            old(self).wf(),
        ensures
            final(self).wf(),
            final(self).direction == old(self).direction,
            removed == old(self).tracks(symbol@),
            !final(self).tracks(symbol@),
            !removed ==> final(self).positions@ == old(self).positions@,
            removed ==> exists|i: int|
                0 <= i < old(self).positions@.len() && (#[trigger] old(self).positions@[i]).symbol@
                    == symbol@ && final(self).positions@ == old(self).positions@.remove(i),
    {
        match self.find(symbol) {
            Some(i) => {
                let ghost before = self.positions@;
                self.positions.remove(i);
                proof {
                    let after = self.positions@;
                    assert(after == before.remove(i as int));
                    assert forall|a: int, b: int| 0 <= a < b < after.len() implies (
                    #[trigger] after[a]).symbol@ != (#[trigger] after[b]).symbol@ by {
                        let a0 = if a < i {
                            a
                        } else {
                            a + 1
                        };
                        let b0 = if b < i {
                            b
                        } else {
                            b + 1
                        };
                        assert(after[a] == before[a0]);
                        assert(after[b] == before[b0]);
                    }
                    assert forall|k: int| 0 <= k < after.len() implies (#[trigger] after[k]).symbol@
                        != symbol@ by {
                        let k0 = if k < i {
                            k
                        } else {
                            k + 1
                        };
                        assert(after[k] == before[k0]);
                        if k0 < i {
                            assert(before[k0].symbol@ != before[i as int].symbol@);
                        } else {
                            assert(before[i as int].symbol@ != before[k0].symbol@);
                        }
                    }
                    assert(before[i as int].symbol@ == symbol@);
                }
                true
            },
            None => false,
        }
    }

    /// Records how the replacement of a symbol's stop order ended. A symbol
    /// that is no longer tracked changes nothing. Whatever the outcome, no stop
    /// of the book moves against the protective direction, and nothing but the
    /// stop of this symbol changes.
    pub fn record(&mut self, symbol: &str, outcome: ReplaceOutcome) -> (changed: bool)
        requires
            old(self).wf(),
        ensures
            final(self).wf(),
            final(self).direction == old(self).direction,
            final(self).positions@.len() == old(self).positions@.len(),
            forall|i: int|
                0 <= i < old(self).positions@.len() ==> {
                    let before = #[trigger] old(self).positions@[i];
                    let after = final(self).positions@[i];
                    &&& after.symbol@ == before.symbol@
                    &&& after.entry_price == before.entry_price
                    &&& after.quantity == before.quantity
                    &&& after.protection_mode == before.protection_mode
                    &&& after.current_stop_price == if before.symbol@ == symbol@ {
                        recorded_stop(before.current_stop_price, outcome, old(self).direction)
                    } else {
                        before.current_stop_price
                    }
                    &&& at_least_as_protective(
                        after.current_stop_price,
                        before.current_stop_price,
                        old(self).direction,
                    )
                },
            changed == exists|i: int|
                0 <= i < old(self).positions@.len() && (#[trigger] old(self).positions@[i]).symbol@
                    == symbol@ && recorded_stop(
                    old(self).positions@[i].current_stop_price,
                    outcome,
                    old(self).direction,
                ) != old(self).positions@[i].current_stop_price,
    {
        match self.find(symbol) {
            Some(i) => {
                let ghost before = self.positions@;
                let mut position = TrackedPosition {
                    symbol: self.positions[i].symbol.clone(),
                    entry_price: self.positions[i].entry_price,
                    current_stop_price: self.positions[i].current_stop_price,
                    quantity: self.positions[i].quantity,
                    protection_mode: self.positions[i].protection_mode,
                };
                let changed = position.record(outcome, self.direction);
                self.positions.set(i, position);
                proof {
                    let after = self.positions@;
                    assert forall|a: int, b: int| 0 <= a < b < after.len() implies (
                    #[trigger] after[a]).symbol@ != (#[trigger] after[b]).symbol@ by {
                        assert(after[a].symbol@ == before[a].symbol@);
                        assert(after[b].symbol@ == before[b].symbol@);
                    }
                    assert forall|k: int| 0 <= k < before.len() && k != i implies (
                    #[trigger] before[k]).symbol@ != symbol@ by {
                        if k < i {
                            assert(before[k].symbol@ != before[i as int].symbol@);
                        } else {
                            assert(before[i as int].symbol@ != before[k].symbol@);
                        }
                    }
                    assert(before[i as int].symbol@ == symbol@);
                }
                changed
            },
            None => false,
        }
    }

    /// Decides what to do for the position of a symbol on this tick; nothing
    /// where the symbol is not tracked. See [`tick_spec`].
    pub fn plan(
        &self,
        symbol: &str,
        order_open: bool,
        held: bool,
        price: Option<u64>,
        filters: &SymbolFilters,
        pct: u64,
    ) -> (action: Option<TickAction>)
        ensures
            match action {
                Some(a) => exists|i: int|
                    0 <= i < self.positions@.len() && (#[trigger] self.positions@[i]).symbol@
                        == symbol@ && a == tick_spec(
                        self.positions@[i],
                        order_open,
                        held,
                        price,
                        *filters,
                        pct,
                        self.direction,
                    ),
                None => !self.tracks(symbol@),
            },
    {
        match self.find(symbol) {
            Some(i) => Some(
                plan_tick(&self.positions[i], order_open, held, price, filters, pct, self.direction),
            ),
            None => None,
        }
    }
}

/// What the controller saw of one position on a tick.
#[derive(Debug, Clone, Copy, PartialEq, Eq, Structural)]
pub struct Observation {
    /// The protective order is still among the open orders.
    pub order_open: bool,
    /// The wallet still holds the asset.
    pub held: bool,
    /// The current market price; `None` where fetching it failed.
    pub price: Option<u64>,
    pub filters: SymbolFilters,
}

/// How a tick ended for one position.
#[derive(Debug, Clone, Copy, PartialEq, Eq, Structural)]
pub enum TickResult {
    /// Nothing was done.
    Untouched,
    /// The position was found closed.
    Retired,
    /// A replacement was attempted and ended so.
    Attempted(ReplaceOutcome),
}

/// The position after a tick that did not retire it.
pub open spec fn position_after(
    position: TrackedPosition,
    result: TickResult,
    dir: TrendDirection,
) -> TrackedPosition {
    match result {
        TickResult::Attempted(outcome) => TrackedPosition {
            current_stop_price: recorded_stop(position.current_stop_price, outcome, dir),
            ..position
        },
        _ => position,
    }
}

/// The positions after a tick: the retired ones are gone, the others follow in
/// their order, each with the stop its result records.
pub open spec fn positions_after(
    positions: Seq<TrackedPosition>,
    results: Seq<TickResult>,
    dir: TrendDirection,
) -> Seq<TrackedPosition>
    decreases positions.len(),
{
    if positions.len() == 0 || results.len() != positions.len() {
        Seq::empty()
    } else {
        let before = positions_after(positions.drop_last(), results.drop_last(), dir);
        if results.last() is Retired {
            before
        } else {
            before.push(position_after(positions.last(), results.last(), dir))
        }
    }
}

/// After a tick every position that is still tracked was tracked before,
/// under the same symbol, with the same entry price, quantity and mode, and
/// with a stop that protects at least as well.
pub proof fn lemma_tick_keeps_positions(
    positions: Seq<TrackedPosition>,
    results: Seq<TickResult>,
    dir: TrendDirection,
)
    requires
        results.len() == positions.len(),
    ensures
        forall|k: int|
            0 <= k < positions_after(positions, results, dir).len() ==> exists|i: int|
                0 <= i < positions.len() && {
                    let after = #[trigger] positions_after(positions, results, dir)[k];
                    let before = #[trigger] positions[i];
                    &&& after.symbol == before.symbol
                    &&& after.entry_price == before.entry_price
                    &&& after.quantity == before.quantity
                    &&& after.protection_mode == before.protection_mode
                    &&& at_least_as_protective(
                        after.current_stop_price,
                        before.current_stop_price,
                        dir,
                    )
                },
    decreases positions.len(),
{
    if positions.len() > 0 {
        let shorter = positions.drop_last();
        lemma_tick_keeps_positions(shorter, results.drop_last(), dir);
        let earlier = positions_after(shorter, results.drop_last(), dir);
        let all = positions_after(positions, results, dir);
        assert forall|k: int| 0 <= k < all.len() implies exists|i: int|
            0 <= i < positions.len() && {
                let after = #[trigger] all[k];
                let before = #[trigger] positions[i];
                &&& after.symbol == before.symbol
                &&& after.entry_price == before.entry_price
                &&& after.quantity == before.quantity
                &&& after.protection_mode == before.protection_mode
                &&& at_least_as_protective(after.current_stop_price, before.current_stop_price, dir)
            } by {
            if k < earlier.len() {
                assert(all[k] == earlier[k]);
                let i = choose|i: int|
                    0 <= i < shorter.len() && {
                        let after = #[trigger] earlier[k];
                        let before = #[trigger] shorter[i];
                        &&& after.symbol == before.symbol
                        &&& after.entry_price == before.entry_price
                        &&& after.quantity == before.quantity
                        &&& after.protection_mode == before.protection_mode
                        &&& at_least_as_protective(
                            after.current_stop_price,
                            before.current_stop_price,
                            dir,
                        )
                    };
                assert(positions[i] == shorter[i]);
            } else {
                let last = positions.len() - 1;
                assert(all[k] == position_after(positions[last], results[last], dir));
            }
        }
    }
}

/// A tick keeps the book at one position per symbol.
pub proof fn lemma_tick_keeps_one_per_symbol(
    positions: Seq<TrackedPosition>,
    results: Seq<TickResult>,
    dir: TrendDirection,
)
    requires
        results.len() == positions.len(),
        one_per_symbol(positions),
    ensures
        one_per_symbol(positions_after(positions, results, dir)),
        forall|s: Seq<char>| #[trigger]
            tracked_in(positions_after(positions, results, dir), s) ==> tracked_in(positions, s),
    decreases positions.len(),
{
    if positions.len() > 0 {
        let shorter = positions.drop_last();
        let earlier = positions_after(shorter, results.drop_last(), dir);
        let all = positions_after(positions, results, dir);
        let last = positions.len() - 1;
        assert forall|i: int, j: int| 0 <= i < j < shorter.len() implies (#[trigger] shorter[i]).symbol@
            != (#[trigger] shorter[j]).symbol@ by {
            assert(shorter[i] == positions[i]);
            assert(shorter[j] == positions[j]);
        }
        lemma_tick_keeps_one_per_symbol(shorter, results.drop_last(), dir);
        assert forall|s: Seq<char>| tracked_in(all, s) implies tracked_in(positions, s) by {
            let k = choose|k: int| 0 <= k < all.len() && (#[trigger] all[k]).symbol@ == s;
            if k < earlier.len() {
                assert(all[k] == earlier[k]);
                assert(tracked_in(earlier, s));
                let i = choose|i: int| 0 <= i < shorter.len() && (#[trigger] shorter[i]).symbol@ == s;
                assert(positions[i] == shorter[i]);
            } else {
                assert(positions[last].symbol@ == s);
            }
        }
        assert forall|a: int, b: int| 0 <= a < b < all.len() implies (#[trigger] all[a]).symbol@ != (
        #[trigger] all[b]).symbol@ by {
            assert(all[a] == earlier[a]);
            if b < earlier.len() {
                assert(all[b] == earlier[b]);
            } else {
                assert(tracked_in(earlier, earlier[a].symbol@));
                let i = choose|i: int|
                    0 <= i < shorter.len() && (#[trigger] shorter[i]).symbol@ == earlier[a].symbol@;
                assert(positions[i] == shorter[i]);
                assert(positions[i].symbol@ != positions[last].symbol@);
            }
        }
    }
}

impl PositionBook {
    /// Decides, position by position, what this tick has to do.
    pub fn plan_all(&self, observations: &Vec<Observation>, pct: u64) -> (actions: Vec<TickAction>)
        requires
            observations@.len() == self.positions@.len(),
        ensures
            actions@.len() == self.positions@.len(),
            forall|i: int|
                0 <= i < self.positions@.len() ==> #[trigger] actions@[i] == tick_spec(
                    self.positions@[i],
                    observations@[i].order_open,
                    observations@[i].held,
                    observations@[i].price,
                    observations@[i].filters,
                    pct,
                    self.direction,
                ),
    {
        let mut actions: Vec<TickAction> = Vec::new();
        let mut i: usize = 0;
        while i < self.positions.len()
            invariant
                i <= self.positions.len(),
                observations@.len() == self.positions@.len(),
                actions@.len() == i,
                forall|k: int|
                    0 <= k < i ==> #[trigger] actions@[k] == tick_spec(
                        self.positions@[k],
                        observations@[k].order_open,
                        observations@[k].held,
                        observations@[k].price,
                        observations@[k].filters,
                        pct,
                        self.direction,
                    ),
            decreases self.positions.len() - i,
        {
            let seen = &observations[i];
            let action = plan_tick(
                &self.positions[i],
                seen.order_open,
                seen.held,
                seen.price,
                &seen.filters,
                pct,
                self.direction,
            );
            actions.push(action);
            i += 1;
        }
        actions
    }

    /// Ends a tick: drops the positions that were found closed and records,
    /// for each of the others, how its replacement ended. No stop moves against
    /// the protective direction, and the book keeps one position per symbol.
    pub fn commit(&mut self, results: &Vec<TickResult>)
        requires
            old(self).wf(),
            results@.len() == old(self).positions@.len(),
        ensures
            final(self).wf(),
            final(self).direction == old(self).direction,
            final(self).positions@ == positions_after(
                old(self).positions@,
                results@,
                old(self).direction,
            ),
    {
        let ghost before = self.positions@;
        let dir = self.direction;
        let mut kept: Vec<TrackedPosition> = Vec::new();
        let mut i: usize = 0;
        while i < self.positions.len()
            invariant
                i <= self.positions.len(),
                self.positions@ == before,
                self.direction == dir,
                results@.len() == before.len(),
                kept@ == positions_after(before.take(i as int), results@.take(i as int), dir),
            decreases self.positions.len() - i,
        {
            proof {
                assert(before.take(i + 1).drop_last() =~= before.take(i as int));
                assert(results@.take(i + 1).drop_last() =~= results@.take(i as int));
            }
            match results[i] {
                TickResult::Retired => {},
                TickResult::Untouched => {
                    let position = TrackedPosition {
                        symbol: self.positions[i].symbol.clone(),
                        entry_price: self.positions[i].entry_price,
                        current_stop_price: self.positions[i].current_stop_price,
                        quantity: self.positions[i].quantity,
                        protection_mode: self.positions[i].protection_mode,
                    };
                    kept.push(position);
                },
                TickResult::Attempted(outcome) => {
                    let mut position = TrackedPosition {
                        symbol: self.positions[i].symbol.clone(),
                        entry_price: self.positions[i].entry_price,
                        current_stop_price: self.positions[i].current_stop_price,
                        quantity: self.positions[i].quantity,
                        protection_mode: self.positions[i].protection_mode,
                    };
                    position.record(outcome, dir);
                    kept.push(position);
                },
            }
            i += 1;
        }
        proof {
            assert(before.take(i as int) =~= before);
            assert(results@.take(i as int) =~= results@);
            lemma_tick_keeps_one_per_symbol(before, results@, dir);
        }
        self.positions = kept;
    }
}

} // verus!
