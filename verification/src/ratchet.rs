//! The ratchet rule: a protective stop follows the best price seen so far and
//! never moves back. The live controller and the historical replay both take
//! their stop levels from here.

use vstd::prelude::*;
use crate::decimal::{round_to_step, round_to_step_spec, HUNDRED_PERCENT};
use crate::types::TrendDirection;

verus! {

/// The stop that belongs to an extreme price: `pct` percent below it for a
/// rising position (zero once `pct` reaches one hundred), `pct` percent above
/// it for a falling one (the largest amount where that leaves the range).
pub open spec fn stop_level_spec(extreme: u64, pct: u64, dir: TrendDirection) -> u64 {
    match dir {
        TrendDirection::Positive => if pct >= HUNDRED_PERCENT {
            0
        } else {
            ((extreme as int * (HUNDRED_PERCENT - pct)) / (HUNDRED_PERCENT as int)) as u64
        },
        TrendDirection::Negative => {
            let raised = extreme as int + (extreme as int * pct as int) / (HUNDRED_PERCENT as int);
            if raised > u64::MAX {
                u64::MAX
            } else {
                raised as u64
            }
        },
    }
}

/// `a` protects at least as well as `b`.
pub open spec fn at_least_as_protective(a: u64, b: u64, dir: TrendDirection) -> bool {
    match dir {
        TrendDirection::Positive => a >= b,
        TrendDirection::Negative => a <= b,
    }
}

/// `a` protects strictly better than `b`.
pub open spec fn more_protective(a: u64, b: u64, dir: TrendDirection) -> bool {
    match dir {
        TrendDirection::Positive => a > b,
        TrendDirection::Negative => a < b,
    }
}

/// The stop a price proposes: its stop level, rounded down to the tick.
pub open spec fn candidate_stop_spec(price: u64, pct: u64, tick: u64, dir: TrendDirection) -> u64 {
    round_to_step_spec(stop_level_spec(price, pct, dir), tick)
}

/// The stop recorded after one price: the candidate where it protects strictly
/// better, the stop as it was otherwise.
pub open spec fn ratchet_spec(
    stop: u64,
    price: u64,
    pct: u64,
    tick: u64,
    dir: TrendDirection,
) -> u64 {
    let candidate = candidate_stop_spec(price, pct, tick, dir);
    if more_protective(candidate, stop, dir) {
        candidate
    } else {
        stop
    }
}

/// The stop recorded after a whole series of prices, oldest first.
pub open spec fn stop_after(
    stop: u64,
    prices: Seq<u64>,
    pct: u64,
    tick: u64,
    dir: TrendDirection,
) -> u64
    decreases prices.len(),
{
    if prices.len() == 0 {
        stop
    } else {
        ratchet_spec(stop_after(stop, prices.drop_last(), pct, tick, dir), prices.last(), pct, tick, dir)
    }
}

/// Scaling a non-negative amount by a fraction of at most one, rounded down,
/// gives an amount between zero and the amount itself.
pub proof fn lemma_scaled_floor_bounds(x: int, num: int, den: int)
    requires
        x >= 0,
        0 <= num <= den,
        den > 0,
    ensures
        0 <= (x * num) / den <= x,
{
    assert(x * num >= 0) by (nonlinear_arith)
        requires
            x >= 0,
            num >= 0,
    ;
    assert(x * num <= x * den) by (nonlinear_arith)
        requires
            x >= 0,
            num <= den,
    ;
    vstd::arithmetic::div_mod::lemma_div_pos_is_pos(x * num, den);
    vstd::arithmetic::div_mod::lemma_div_is_ordered(x * num, x * den, den);
    assert((x * den) / den == x) by {
        assert(x * den == den * x) by (nonlinear_arith);
        vstd::arithmetic::div_mod::lemma_div_multiples_vanish(x, den);
    }
}

/// Scaling by a fixed non-negative fraction, rounded down, keeps the order of
/// amounts.
pub proof fn lemma_scaled_floor_monotone(x: int, y: int, num: int, den: int)
    requires
        0 <= x <= y,
        num >= 0,
        den > 0,
    ensures
        0 <= (x * num) / den <= (y * num) / den,
{
    assert(0 <= x * num <= y * num) by (nonlinear_arith)
        requires
            0 <= x <= y,
            num >= 0,
    ;
    vstd::arithmetic::div_mod::lemma_div_pos_is_pos(x * num, den);
    vstd::arithmetic::div_mod::lemma_div_is_ordered(x * num, y * num, den);
}

/// Computes the stop level of an extreme price.
pub fn stop_level(extreme: u64, pct: u64, dir: TrendDirection) -> (level: u64)
    ensures
        level == stop_level_spec(extreme, pct, dir),
        dir == TrendDirection::Positive ==> level <= extreme,
        dir == TrendDirection::Negative ==> level >= extreme,
{
    match dir {
        TrendDirection::Positive => {
            if pct >= HUNDRED_PERCENT {
                0
            } else {
                let keep: u128 = (HUNDRED_PERCENT - pct) as u128;
                proof {
                    lemma_scaled_floor_bounds(extreme as int, keep as int, HUNDRED_PERCENT as int);
                    assert(extreme as int * keep as int <= 0xffff_ffff_ffff_ffff * 10_000_000_000)
                        by (nonlinear_arith)
                        requires
                            0 <= extreme as int <= 0xffff_ffff_ffff_ffff,
                            0 <= keep as int <= 10_000_000_000,
                    ;
                }
                let product: u128 = (extreme as u128) * keep;
                (product / (HUNDRED_PERCENT as u128)) as u64
            }
        },
        TrendDirection::Negative => {
            proof {
                assert(0 <= extreme as int * pct as int <= 0xffff_ffff_ffff_ffff
                    * 0xffff_ffff_ffff_ffff) by (nonlinear_arith)
                    requires
                        0 <= extreme as int <= 0xffff_ffff_ffff_ffff,
                        0 <= pct as int <= 0xffff_ffff_ffff_ffff,
                ;
                vstd::arithmetic::div_mod::lemma_div_pos_is_pos(
                    extreme as int * pct as int,
                    HUNDRED_PERCENT as int,
                );
                vstd::arithmetic::div_mod::lemma_div_is_ordered_by_denominator(
                    extreme as int * pct as int,
                    1,
                    HUNDRED_PERCENT as int,
                );
            }
            let product: u128 = (extreme as u128) * (pct as u128);
            let rise: u128 = product / (HUNDRED_PERCENT as u128);
            let raised: u128 = (extreme as u128) + rise;
            if raised > u64::MAX as u128 {
                u64::MAX
            } else {
                raised as u64
            }
        },
    }
}

/// A more extreme price never gives a less protective stop level.
pub proof fn lemma_stop_level_monotone(a: u64, b: u64, pct: u64, dir: TrendDirection)
    requires
        a <= b,
    ensures
        stop_level_spec(a, pct, dir) <= stop_level_spec(b, pct, dir),
{
    match dir {
        TrendDirection::Positive => {
            if pct < HUNDRED_PERCENT {
                let keep = (HUNDRED_PERCENT - pct) as int;
                lemma_scaled_floor_monotone(a as int, b as int, keep, HUNDRED_PERCENT as int);
                lemma_scaled_floor_bounds(a as int, keep, HUNDRED_PERCENT as int);
                lemma_scaled_floor_bounds(b as int, keep, HUNDRED_PERCENT as int);
            }
        },
        TrendDirection::Negative => {
            lemma_scaled_floor_monotone(a as int, b as int, pct as int, HUNDRED_PERCENT as int);
        },
    }
}

/// Computes the stop that a price proposes.
pub fn candidate_stop(price: u64, pct: u64, tick: u64, dir: TrendDirection) -> (candidate: u64)
    ensures
        candidate == candidate_stop_spec(price, pct, tick, dir),
{
    round_to_step(stop_level(price, pct, dir), tick)
}

/// Tells whether `a` protects strictly better than `b`.
pub fn is_more_protective(a: u64, b: u64, dir: TrendDirection) -> (better: bool)
    ensures
        better == more_protective(a, b, dir),
{
    match dir {
        TrendDirection::Positive => a > b,
        TrendDirection::Negative => a < b,
    }
}

/// One step of the ratchet: the stop to record after seeing `price`.
pub fn ratchet(stop: u64, price: u64, pct: u64, tick: u64, dir: TrendDirection) -> (next: u64)
    ensures
        next == ratchet_spec(stop, price, pct, tick, dir),
        at_least_as_protective(next, stop, dir),
        next != stop ==> next == candidate_stop_spec(price, pct, tick, dir),
{
    let candidate = candidate_stop(price, pct, tick, dir);
    if is_more_protective(candidate, stop, dir) {
        candidate
    } else {
        stop
    }
}

/// Runs the ratchet over a series of prices, oldest first.
pub fn ratchet_all(stop: u64, prices: &Vec<u64>, pct: u64, tick: u64, dir: TrendDirection) -> (last: u64)
    ensures
        last == stop_after(stop, prices@, pct, tick, dir),
        at_least_as_protective(last, stop, dir),
{
    let mut current: u64 = stop;
    let mut i: usize = 0;
    while i < prices.len()
        invariant
            i <= prices.len(),
            current == stop_after(stop, prices@.take(i as int), pct, tick, dir),
            at_least_as_protective(current, stop, dir),
        decreases prices.len() - i,
    {
        proof {
            assert(prices@.take(i + 1).drop_last() =~= prices@.take(i as int));
        }
        current = ratchet(current, prices[i], pct, tick, dir);
        i += 1;
    }
    proof {
        assert(prices@.take(i as int) =~= prices@);
    }
    current
}

/// Monotonicity: whatever prices arrive, the recorded stop never moves against
/// its protective direction. Of two moments in a series, the later one holds a
/// stop at least as protective as the earlier one.
pub proof fn lemma_stop_never_regresses(
    stop: u64,
    prices: Seq<u64>,
    earlier: int,
    later: int,
    pct: u64,
    tick: u64,
    dir: TrendDirection,
)
    requires
        0 <= earlier <= later <= prices.len(),
    ensures
        at_least_as_protective(
            stop_after(stop, prices.take(later), pct, tick, dir),
            stop_after(stop, prices.take(earlier), pct, tick, dir),
            dir,
        ),
    decreases later - earlier,
{
    if earlier < later {
        lemma_stop_never_regresses(stop, prices, earlier, later - 1, pct, tick, dir);
        assert(prices.take(later).drop_last() =~= prices.take(later - 1));
    }
}

/// Idempotence: a price that has just been applied proposes nothing new, so the
/// same price a second time leaves the stop where it is.
pub proof fn lemma_same_price_twice(stop: u64, price: u64, pct: u64, tick: u64, dir: TrendDirection)
    ensures
        !more_protective(
            candidate_stop_spec(price, pct, tick, dir),
            ratchet_spec(stop, price, pct, tick, dir),
            dir,
        ),
        ratchet_spec(ratchet_spec(stop, price, pct, tick, dir), price, pct, tick, dir)
            == ratchet_spec(stop, price, pct, tick, dir),
{
}

/// A candidate that equals the recorded stop, or protects less, changes nothing.
pub proof fn lemma_no_improvement_no_change(
    stop: u64,
    price: u64,
    pct: u64,
    tick: u64,
    dir: TrendDirection,
)
    requires
        at_least_as_protective(stop, candidate_stop_spec(price, pct, tick, dir), dir),
    ensures
        ratchet_spec(stop, price, pct, tick, dir) == stop,
{
}

} // verus!
