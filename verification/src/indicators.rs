//! Simple indicators over prices and candle windows.

use vstd::prelude::*;
use crate::decimal::{amount_of, parse_amount_wide, HUNDRED_PERCENT};
use crate::discovery::RawKline;

verus! {

/// The sum of the rises among the first `n` changes of a price series.
pub open spec fn gain_sum(prices: Seq<u64>, n: int) -> int
    decreases n,
{
    if n <= 0 {
        0
    } else {
        gain_sum(prices, n - 1) + if prices[n] > prices[n - 1] {
            prices[n] - prices[n - 1]
        } else {
            0
        }
    }
}

/// The sum of the falls among the first `n` changes of a price series.
pub open spec fn loss_sum(prices: Seq<u64>, n: int) -> int
    decreases n,
{
    if n <= 0 {
        0
    } else {
        loss_sum(prices, n - 1) + if prices[n] > prices[n - 1] {
            0
        } else {
            prices[n - 1] - prices[n]
        }
    }
}

/// The relative strength index over the first `period` changes, in percent:
/// one hundred where nothing fell, otherwise the share of the rises in all
/// movement, rounded down. Nothing for a series with fewer than `period + 1`
/// prices, and nothing where the rises, scaled to a percentage, leave 128
/// bits.
pub open spec fn rsi_spec(prices: Seq<u64>, period: int) -> Option<int> {
    if prices.len() <= period {
        None
    } else if loss_sum(prices, period) == 0 {
        Some(HUNDRED_PERCENT as int)
    } else if gain_sum(prices, period) * HUNDRED_PERCENT as int > u128::MAX {
        None
    } else {
        Some(
            (gain_sum(prices, period) * HUNDRED_PERCENT as int) / (gain_sum(prices, period)
                + loss_sum(prices, period)),
        )
    }
}

/// Computes the relative strength index of a price series.
pub fn compute_rsi(prices: &Vec<u64>, period: usize) -> (rsi: Option<u64>)
    ensures
        match rsi {
            Some(v) => rsi_spec(prices@, period as int) == Some(v as int),
            None => rsi_spec(prices@, period as int).is_none(),
        },
        rsi matches Some(v) ==> v <= HUNDRED_PERCENT,
{
    if prices.len() <= period {
        return None;
    }
    let mut gains: u128 = 0;
    let mut losses: u128 = 0;
    let mut i: usize = 1;
    while i <= period
        invariant
            1 <= i <= period + 1,
            period < prices.len(),
            gains == gain_sum(prices@, i as int - 1),
            losses == loss_sum(prices@, i as int - 1),
            gains + losses <= (i - 1) * 0xffff_ffff_ffff_ffff,
        decreases period + 1 - i,
    {
        proof {
            assert((i - 1) * 0xffff_ffff_ffff_ffff + 0xffff_ffff_ffff_ffff <= 0xffff_ffff_ffff_ffff
                * 0xffff_ffff_ffff_ffff) by (nonlinear_arith)
                requires
                    1 <= i <= 0xffff_ffff_ffff_ffff,
            ;
            assert((i - 1) * 0xffff_ffff_ffff_ffff + 0xffff_ffff_ffff_ffff == i
                * 0xffff_ffff_ffff_ffff) by (nonlinear_arith);
        }
        if prices[i] > prices[i - 1] {
            gains = gains + ((prices[i] - prices[i - 1]) as u128);
        } else {
            losses = losses + ((prices[i - 1] - prices[i]) as u128);
        }
        i += 1;
    }
    if losses == 0 {
        return Some(HUNDRED_PERCENT);
    }
    let scaled: u128 = match gains.checked_mul(HUNDRED_PERCENT as u128) {
        Some(v) => v,
        None => {
            return None;
        },
    };
    proof {
        let g = gains as int;
        let l = losses as int;
        assert(g * 10_000_000_000 <= (g + l) * 10_000_000_000) by (nonlinear_arith)
            requires
                l >= 0,
        ;
        vstd::arithmetic::div_mod::lemma_div_is_ordered(
            g * 10_000_000_000,
            (g + l) * 10_000_000_000,
            g + l,
        );
        vstd::arithmetic::div_mod::lemma_div_multiples_vanish(10_000_000_000, g + l);
        vstd::arithmetic::div_mod::lemma_div_pos_is_pos(g * 10_000_000_000, g + l);
    }
    let share: u128 = scaled / (gains + losses);
    Some(share as u64)
}

/// The volume of a candle, where its field writes an amount of at most 128
/// bits.
pub open spec fn volume_of(k: RawKline) -> Option<nat> {
    match k.volume {
        Some(s) => match amount_of(vstd::utf8::encode_utf8(s@)) {
            Some(v) => if v <= u128::MAX {
                Some(v)
            } else {
                None
            },
            None => None,
        },
        None => None,
    }
}

/// The sum of the readable volumes of a window.
pub open spec fn volume_sum(klines: Seq<RawKline>) -> nat
    decreases klines.len(),
{
    if klines.len() == 0 {
        0
    } else {
        volume_sum(klines.drop_last()) + match volume_of(klines.last()) {
            Some(v) => v,
            None => 0,
        }
    }
}

/// The number of readable volumes of a window.
pub open spec fn volume_count(klines: Seq<RawKline>) -> nat
    decreases klines.len(),
{
    if klines.len() == 0 {
        0
    } else {
        volume_count(klines.drop_last()) + if volume_of(klines.last()).is_some() {
            1nat
        } else {
            0nat
        }
    }
}

proof fn lemma_volume_sum_grows(klines: Seq<RawKline>, i: int)
    requires
        0 <= i <= klines.len(),
    ensures
        volume_sum(klines.take(i)) <= volume_sum(klines),
    decreases klines.len() - i,
{
    if i < klines.len() {
        lemma_volume_sum_grows(klines, i + 1);
        assert(klines.take(i + 1).drop_last() =~= klines.take(i));
    } else {
        assert(klines.take(i) =~= klines);
    }
}

/// The mean of the readable volumes of a window, rounded down. Nothing where
/// no volume is readable, or where their sum leaves 128 bits.
pub fn compute_average_volume(klines: &Vec<RawKline>) -> (mean: Option<u128>)
    ensures
        mean == if volume_count(klines@) == 0 || volume_sum(klines@) > u128::MAX {
            None
        } else {
            Some((volume_sum(klines@) / volume_count(klines@)) as u128)
        },
{
    let mut total: u128 = 0;
    let mut count: usize = 0;
    let mut i: usize = 0;
    while i < klines.len()
        invariant
            i <= klines.len(),
            count <= i,
            count == volume_count(klines@.take(i as int)),
            total == volume_sum(klines@.take(i as int)),
        decreases klines.len() - i,
    {
        proof {
            assert(klines@.take(i + 1).drop_last() =~= klines@.take(i as int));
        }
        match &klines[i].volume {
            Some(s) => {
                match parse_amount_wide(s.as_str().as_bytes()) {
                    Some(v) => {
                        match total.checked_add(v) {
                            Some(t) => {
                                total = t;
                            },
                            None => {
                                proof {
                                    lemma_volume_sum_grows(klines@, i as int + 1);
                                    lemma_count_positive(klines@, i as int + 1);
                                }
                                return None;
                            },
                        }
                        count += 1;
                    },
                    None => {},
                }
            },
            None => {},
        }
        i += 1;
    }
    proof {
        assert(klines@.take(i as int) =~= klines@);
    }
    if count > 0 {
        Some(total / (count as u128))
    } else {
        None
    }
}

proof fn lemma_count_positive(klines: Seq<RawKline>, i: int)
    requires
        0 <= i <= klines.len(),
    ensures
        volume_count(klines.take(i)) <= volume_count(klines),
    decreases klines.len() - i,
{
    if i < klines.len() {
        lemma_count_positive(klines, i + 1);
        assert(klines.take(i + 1).drop_last() =~= klines.take(i));
    } else {
        assert(klines.take(i) =~= klines);
    }
}

} // verus!
