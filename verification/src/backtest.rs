//! Replay of the ratchet rule over a fixed candle series.
//!
//! A position is opened at a candle's open; the stop follows the best price seen
//! since entry; the trade closes at the first candle that touches the stop, at
//! the stop level itself, and the next trade opens at the following candle.

use vstd::prelude::*;
use crate::decimal::SCALE;
use crate::discovery::{field_price, read_price, RawKline};
use crate::ratchet::{stop_level, stop_level_spec};
use crate::text::{lowercase_of, str_eq, to_lowercase};
use crate::types::{Candle, TrendDirection};

verus! {

/// One trade of a replay. `exit_index` is `None` for a position that was still
/// open at the end of the series and was closed at the last candle's close.
#[derive(Debug, Clone, Copy, PartialEq, Eq)]
pub struct Trade {
    pub entry_price: u64,
    pub exit_price: u64,
    /// `exit_price / entry_price`, in units, rounded down.
    pub multiplier: u128,
    pub entry_index: usize,
    pub exit_index: Option<usize>,
}

/// Every candle of the series has positive prices.
pub open spec fn all_valid(candles: Seq<Candle>) -> bool {
    forall|k: int| 0 <= k < candles.len() ==> (#[trigger] candles[k]).wf()
}

/// The extreme that follows `prev` once a candle has been seen: the higher of
/// `prev` and the candle's high for a rising position, the lower of `prev` and
/// the candle's low for a falling one.
pub open spec fn extend_extreme(prev: u64, candle: Candle, dir: TrendDirection) -> u64 {
    match dir {
        TrendDirection::Positive => if candle.high > prev {
            candle.high
        } else {
            prev
        },
        TrendDirection::Negative => if candle.low < prev {
            candle.low
        } else {
            prev
        },
    }
}

/// The best price seen by a position entered at candle `entry`, through candle
/// `upto` (inclusive); before any candle it is the entry price.
pub open spec fn running_extreme(candles: Seq<Candle>, entry: int, upto: int, dir: TrendDirection) -> u64
    decreases upto - entry + 1,
{
    if upto < entry {
        candles[entry].open
    } else {
        extend_extreme(running_extreme(candles, entry, upto - 1, dir), candles[upto], dir)
    }
}

/// The stop in force while candle `at` is examined.
pub open spec fn stop_at(candles: Seq<Candle>, entry: int, at: int, pct: u64, dir: TrendDirection) -> u64 {
    stop_level_spec(running_extreme(candles, entry, at, dir), pct, dir)
}

/// A candle touches or crosses a stop.
pub open spec fn touches(candle: Candle, stop: u64, dir: TrendDirection) -> bool {
    match dir {
        TrendDirection::Positive => candle.low <= stop,
        TrendDirection::Negative => candle.high >= stop,
    }
}

/// The first candle at or after `from` that touches the stop of the position
/// entered at `entry`, if there is one.
pub open spec fn first_breach(
    candles: Seq<Candle>,
    entry: int,
    from: int,
    pct: u64,
    dir: TrendDirection,
) -> Option<int>
    decreases candles.len() - from,
{
    if from < entry || from >= candles.len() {
        None
    } else if touches(candles[from], stop_at(candles, entry, from, pct, dir), dir) {
        Some(from)
    } else {
        first_breach(candles, entry, from + 1, pct, dir)
    }
}

/// `exit / entry` in units, rounded down.
pub open spec fn trade_multiplier(entry_price: u64, exit_price: u64) -> u128 {
    ((exit_price as int * SCALE as int) / (entry_price as int)) as u128
}

/// The trade entered at `entry` and stopped at candle `exit`: it leaves at the
/// stop level, not at the candle's extreme.
pub open spec fn stopped_trade(
    candles: Seq<Candle>,
    entry: int,
    exit: int,
    pct: u64,
    dir: TrendDirection,
) -> Trade {
    let exit_price = stop_at(candles, entry, exit, pct, dir);
    Trade {
        entry_price: candles[entry].open,
        exit_price,
        multiplier: trade_multiplier(candles[entry].open, exit_price),
        entry_index: entry as usize,
        exit_index: Some(exit as usize),
    }
}

/// The trade entered at `entry` that no candle stopped: it is closed at the
/// last candle's close.
pub open spec fn unstopped_trade(candles: Seq<Candle>, entry: int) -> Trade {
    let exit_price = candles[candles.len() - 1].close;
    Trade {
        entry_price: candles[entry].open,
        exit_price,
        multiplier: trade_multiplier(candles[entry].open, exit_price),
        entry_index: entry as usize,
        exit_index: None,
    }
}

/// The trades of a replay that enters at candle `entry` and re-enters after
/// each stop until the series ends.
pub open spec fn replay(candles: Seq<Candle>, entry: int, pct: u64, dir: TrendDirection) -> Seq<Trade>
    decreases candles.len() - entry,
{
    if entry < 0 || entry >= candles.len() {
        Seq::empty()
    } else {
        match first_breach(candles, entry, entry, pct, dir) {
            Some(exit) => if entry <= exit < candles.len() {
                seq![stopped_trade(candles, entry, exit, pct, dir)] + replay(
                    candles,
                    exit + 1,
                    pct,
                    dir,
                )
            } else {
                Seq::empty()
            },
            None => seq![unstopped_trade(candles, entry)],
        }
    }
}

/// A capital multiplier after one more trade: the product in units, rounded
/// down; the largest value where the product leaves 128 bits.
pub open spec fn compound(so_far: u128, multiplier: u128) -> u128 {
    if so_far as int * multiplier as int > u128::MAX {
        u128::MAX
    } else {
        ((so_far as int * multiplier as int) / (SCALE as int)) as u128
    }
}

/// The capital multiplier of a sequence of trades: one, compounded by each
/// trade's multiplier in order.
pub open spec fn final_multiplier(trades: Seq<Trade>) -> u128
    decreases trades.len(),
{
    if trades.len() == 0 {
        SCALE as u128
    } else {
        compound(final_multiplier(trades.drop_last()), trades.last().multiplier)
    }
}

/// A breach found from `from` lies in the series, at or after `from`, and no
/// candle before it (from `from` on) touches the stop.
pub proof fn lemma_first_breach(candles: Seq<Candle>, entry: int, from: int, pct: u64, dir: TrendDirection)
    requires
        0 <= entry <= from,
    ensures
        match first_breach(candles, entry, from, pct, dir) {
            Some(exit) => from <= exit < candles.len() && touches(
                candles[exit],
                stop_at(candles, entry, exit, pct, dir),
                dir,
            ) && forall|k: int|
                from <= k < exit ==> !touches(
                    #[trigger] candles[k],
                    stop_at(candles, entry, k, pct, dir),
                    dir,
                ),
            None => forall|k: int|
                from <= k < candles.len() ==> !touches(
                    #[trigger] candles[k],
                    stop_at(candles, entry, k, pct, dir),
                    dir,
                ),
        },
    decreases candles.len() - from,
{
    if from < candles.len() && !touches(candles[from], stop_at(candles, entry, from, pct, dir), dir) {
        lemma_first_breach(candles, entry, from + 1, pct, dir);
    }
}

fn multiplier_of(entry_price: u64, exit_price: u64) -> (m: u128)
    requires
        entry_price > 0,
    ensures
        m == trade_multiplier(entry_price, exit_price),
{
    proof {
        assert(0 <= exit_price as int * SCALE as int <= 0xffff_ffff_ffff_ffff * 100_000_000)
            by (nonlinear_arith)
            requires
                0 <= exit_price as int <= 0xffff_ffff_ffff_ffff,
                SCALE as int == 100_000_000,
        ;
        vstd::arithmetic::div_mod::lemma_div_pos_is_pos(
            exit_price as int * SCALE as int,
            entry_price as int,
        );
        vstd::arithmetic::div_mod::lemma_div_is_ordered_by_denominator(
            exit_price as int * SCALE as int,
            1,
            entry_price as int,
        );
    }
    ((exit_price as u128) * (SCALE as u128)) / (entry_price as u128)
}

fn compound_with(so_far: u128, multiplier: u128) -> (next: u128)
    ensures
        next == compound(so_far, multiplier),
{
    match so_far.checked_mul(multiplier) {
        Some(product) => product / (SCALE as u128),
        None => u128::MAX,
    }
}

/// `multiplier` and `trades` are the outcome of replaying `candles`.
pub open spec fn is_replay_of(
    candles: Seq<Candle>,
    pct: u64,
    dir: TrendDirection,
    multiplier: u128,
    trades: Seq<Trade>,
) -> bool {
    trades == replay(candles, 0, pct, dir) && multiplier == final_multiplier(trades)
}

/// Determinism: the outcome of a replay is a function of the candles, the
/// percentage and the direction alone. Any two outcomes of the same inputs
/// hold the same trades and the same multiplier.
pub proof fn lemma_replay_deterministic(
    candles: Seq<Candle>,
    pct: u64,
    dir: TrendDirection,
    first: (u128, Seq<Trade>),
    second: (u128, Seq<Trade>),
)
    requires
        is_replay_of(candles, pct, dir, first.0, first.1),
        is_replay_of(candles, pct, dir, second.0, second.1),
    ensures
        first == second,
{
}

/// Replays the ratchet rule over `candles` with re-entry after every stop.
/// Returns the final capital multiplier and the trades in order. The result is
/// a function of the arguments alone.
pub fn simulate(candles: &Vec<Candle>, stop_loss_percent: u64, dir: TrendDirection) -> (result: (
    u128,
    Vec<Trade>,
))
    requires
        all_valid(candles@),
    ensures
        is_replay_of(candles@, stop_loss_percent, dir, result.0, result.1@),
        result.1@ == replay(candles@, 0, stop_loss_percent, dir),
        result.0 == final_multiplier(result.1@),
{
    let n = candles.len();
    let mut total: u128 = SCALE as u128;
    let mut trades: Vec<Trade> = Vec::new();
    let mut i: usize = 0;
    while i < n
        invariant
            n == candles.len(),
            i <= n,
            all_valid(candles@),
            replay(candles@, 0, stop_loss_percent, dir) == trades@ + replay(
                candles@,
                i as int,
                stop_loss_percent,
                dir,
            ),
            total == final_multiplier(trades@),
        decreases n - i,
    {
        let entry_price = candles[i].open;
        assert(candles@[i as int].wf());
        let mut extreme: u64 = entry_price;
        let mut exit: Option<usize> = None;
        let mut j: usize = i;
        while j < n && exit.is_none()
            invariant
                n == candles.len(),
                i <= j <= n,
                i < n,
                extreme == running_extreme(candles@, i as int, j as int - 1, dir) || (exit.is_some()
                    && extreme == running_extreme(candles@, i as int, exit.unwrap() as int, dir)),
                first_breach(candles@, i as int, i as int, stop_loss_percent, dir) == first_breach(
                    candles@,
                    i as int,
                    j as int,
                    stop_loss_percent,
                    dir,
                ) || exit.is_some(),
                exit.is_some() ==> i <= exit.unwrap() < n && first_breach(
                    candles@,
                    i as int,
                    i as int,
                    stop_loss_percent,
                    dir,
                ) == Some(exit.unwrap() as int) && extreme == running_extreme(
                    candles@,
                    i as int,
                    exit.unwrap() as int,
                    dir,
                ),
            decreases n - j + (if exit.is_none() { 1int } else { 0int }),
        {
            let candle = candles[j];
            match dir {
                TrendDirection::Positive => {
                    if candle.high > extreme {
                        extreme = candle.high;
                    }
                },
                TrendDirection::Negative => {
                    if candle.low < extreme {
                        extreme = candle.low;
                    }
                },
            }
            let stop = stop_level(extreme, stop_loss_percent, dir);
            let hit = match dir {
                TrendDirection::Positive => candle.low <= stop,
                TrendDirection::Negative => candle.high >= stop,
            };
            if hit {
                exit = Some(j);
            } else {
                j += 1;
            }
        }
        match exit {
            Some(at) => {
                let exit_price = stop_level(extreme, stop_loss_percent, dir);
                let m = multiplier_of(entry_price, exit_price);
                let trade = Trade {
                    entry_price,
                    exit_price,
                    multiplier: m,
                    entry_index: i,
                    exit_index: Some(at),
                };
                proof {
                    assert(trade == stopped_trade(candles@, i as int, at as int, stop_loss_percent, dir));
                    assert(trades@.push(trade).drop_last() =~= trades@);
                    assert(trades@ + (seq![trade] + replay(
                        candles@,
                        at as int + 1,
                        stop_loss_percent,
                        dir,
                    )) =~= trades@.push(trade) + replay(candles@, at as int + 1, stop_loss_percent, dir));
                }
                total = compound_with(total, m);
                trades.push(trade);
                i = at + 1;
            },
            None => {
                let exit_price = candles[n - 1].close;
                let m = multiplier_of(entry_price, exit_price);
                let trade = Trade {
                    entry_price,
                    exit_price,
                    multiplier: m,
                    entry_index: i,
                    exit_index: None,
                };
                proof {
                    assert(first_breach(candles@, i as int, n as int, stop_loss_percent, dir).is_none());
                    assert(trade == unstopped_trade(candles@, i as int));
                    assert(trades@.push(trade).drop_last() =~= trades@);
                    assert(trades@ + seq![trade] =~= trades@.push(trade));
                }
                total = compound_with(total, m);
                trades.push(trade);
                return (total, trades);
            },
        }
    }
    proof {
        assert(trades@ + Seq::<Trade>::empty() =~= trades@);
    }
    (total, trades)
}

/// The replay for a rising position: the stop trails below the highest high.
pub fn simulate_trailing_trade(candles: &Vec<Candle>, stop_loss_percent: u64) -> (result: (
    u128,
    Vec<Trade>,
))
    requires
        all_valid(candles@),
    ensures
        result.1@ == replay(candles@, 0, stop_loss_percent, TrendDirection::Positive),
        result.0 == final_multiplier(result.1@),
{
    simulate(candles, stop_loss_percent, TrendDirection::Positive)
}

/// The replay for a falling position: the stop trails above the lowest low.
pub fn simulate_trailing_trade_negative(candles: &Vec<Candle>, stop_loss_percent: u64) -> (result: (
    u128,
    Vec<Trade>,
))
    requires
        all_valid(candles@),
    ensures
        result.1@ == replay(candles@, 0, stop_loss_percent, TrendDirection::Negative),
        result.0 == final_multiplier(result.1@),
{
    simulate(candles, stop_loss_percent, TrendDirection::Negative)
}

/// Within one trade the stop only moves in its protective direction: a later
/// candle never sees a less protective stop than an earlier one.
pub proof fn lemma_replay_stop_monotone(
    candles: Seq<Candle>,
    entry: int,
    earlier: int,
    later: int,
    pct: u64,
    dir: TrendDirection,
)
    requires
        0 <= entry,
        entry - 1 <= earlier <= later < candles.len(),
    ensures
        crate::ratchet::at_least_as_protective(
            stop_at(candles, entry, later, pct, dir),
            stop_at(candles, entry, earlier, pct, dir),
            dir,
        ),
    decreases later - earlier,
{
    if earlier < later {
        lemma_replay_stop_monotone(candles, entry, earlier, later - 1, pct, dir);
        let before = running_extreme(candles, entry, later - 1, dir);
        let after = running_extreme(candles, entry, later, dir);
        match dir {
            TrendDirection::Positive => {
                crate::ratchet::lemma_stop_level_monotone(before, after, pct, dir);
            },
            TrendDirection::Negative => {
                crate::ratchet::lemma_stop_level_monotone(after, before, pct, dir);
            },
        }
    }
}

/// A series in which no candle touches the stop of the position entered at the
/// first candle gives exactly one trade: it has no exit index and leaves at the
/// last candle's close.
pub proof fn lemma_unstopped_series_one_trade(candles: Seq<Candle>, pct: u64, dir: TrendDirection)
    requires
        candles.len() > 0,
        forall|k: int|
            0 <= k < candles.len() ==> !touches(
                #[trigger] candles[k],
                stop_at(candles, 0, k, pct, dir),
                dir,
            ),
    ensures
        replay(candles, 0, pct, dir).len() == 1,
        replay(candles, 0, pct, dir)[0].exit_index == None::<usize>,
        replay(candles, 0, pct, dir)[0].exit_price == candles[candles.len() - 1].close,
        replay(candles, 0, pct, dir)[0].entry_price == candles[0].open,
{
    lemma_first_breach(candles, 0, 0, pct, dir);
}


/// The kind of trend a replay assumes.
#[derive(Debug, Clone, Copy, PartialEq, Eq, Structural)]
pub enum TrendType {
    Positive,
    Negative,
}

impl TrendType {
    /// Reads a trend from a word, whatever its case: `negative` is the negative
    /// trend, every other word the positive one.
    pub fn from_str(s: &str) -> (trend: TrendType)
        ensures
            trend == if lowercase_of(s@) == "negative"@ {
                TrendType::Negative
            } else {
                TrendType::Positive
            },
    {
        let lower = to_lowercase(s);
        TrendType::from_lowercase(lower.as_str())
    }

    /// Reads a trend from a word that is already in lower case.
    pub fn from_lowercase(lower: &str) -> (trend: TrendType)
        ensures
            trend == if lower@ == "negative"@ {
                TrendType::Negative
            } else {
                TrendType::Positive
            },
    {
        if str_eq(lower, "negative") {
            TrendType::Negative
        } else {
            TrendType::Positive
        }
    }

    /// The direction in which a position of this trend is protected.
    pub fn direction(self) -> (dir: TrendDirection)
        ensures
            dir == match self {
                TrendType::Positive => TrendDirection::Positive,
                TrendType::Negative => TrendDirection::Negative,
            },
    {
        match self {
            TrendType::Positive => TrendDirection::Positive,
            TrendType::Negative => TrendDirection::Negative,
        }
    }
}

/// The candle that a row holds, where its four prices are present and positive.
pub open spec fn candle_of(row: RawKline) -> Option<Candle> {
    match (
        field_price(row.open),
        field_price(row.high),
        field_price(row.low),
        field_price(row.close),
    ) {
        (Some(open), Some(high), Some(low), Some(close)) => Some(Candle { open, high, low, close }),
        _ => None,
    }
}

/// The candles of the rows that hold one, in order; other rows are dropped.
pub open spec fn candles_of(rows: Seq<RawKline>) -> Seq<Candle>
    decreases rows.len(),
{
    if rows.len() == 0 {
        Seq::empty()
    } else {
        let before = candles_of(rows.drop_last());
        match candle_of(rows.last()) {
            Some(c) => before.push(c),
            None => before,
        }
    }
}

/// Reads the candles out of the rows of a candle request. A row with a
/// missing, unreadable or non-positive price is skipped.
pub fn parse_candles(raw: &Vec<RawKline>) -> (candles: Vec<Candle>)
    ensures
        candles@ == candles_of(raw@),
        all_valid(candles@),
{
    let mut candles: Vec<Candle> = Vec::new();
    let mut i: usize = 0;
    while i < raw.len()
        invariant
            i <= raw.len(),
            candles@ == candles_of(raw@.take(i as int)),
            all_valid(candles@),
        decreases raw.len() - i,
    {
        proof {
            assert(raw@.take(i + 1).drop_last() =~= raw@.take(i as int));
        }
        let row = &raw[i];
        match (
            read_price(&row.open),
            read_price(&row.high),
            read_price(&row.low),
            read_price(&row.close),
        ) {
            (Some(open), Some(high), Some(low), Some(close)) => {
                candles.push(Candle { open, high, low, close });
            },
            _ => {},
        }
        i += 1;
    }
    proof {
        assert(raw@.take(i as int) =~= raw@);
    }
    candles
}

/// Why a backtest gives no result.
#[derive(Debug, Clone, Copy, PartialEq, Eq, Structural)]
pub enum BacktestError {
    /// The exchange answered with no rows.
    NoKlineData,
    /// No row held a candle.
    NoCandleData,
}

impl BacktestError {
    /// The error in words.
    pub fn message(&self) -> (text: &'static str)
        ensures
            text@ == match *self {
                BacktestError::NoKlineData => "No kline data received"@,
                BacktestError::NoCandleData => "No candle data available after parsing"@,
            },
    {
        match self {
            BacktestError::NoKlineData => "No kline data received",
            BacktestError::NoCandleData => "No candle data available after parsing",
        }
    }
}

/// Replays the ratchet rule over the rows of a candle request: fails where
/// there are no rows or none holds a candle, and otherwise gives the replay of
/// the candles read from them, for the trend's direction.
pub fn backtest_trade(raw_klines: &Vec<RawKline>, stop_loss_percent: u64, trend: TrendType) -> (result:
    Result<(u128, Vec<Trade>), BacktestError>)
    ensures
        raw_klines@.len() == 0 ==> result == Err::<(u128, Vec<Trade>), BacktestError>(
            BacktestError::NoKlineData,
        ),
        raw_klines@.len() > 0 && candles_of(raw_klines@).len() == 0 ==> result == Err::<
            (u128, Vec<Trade>),
            BacktestError,
        >(BacktestError::NoCandleData),
        candles_of(raw_klines@).len() > 0 ==> result is Ok && result.unwrap().1@ == replay(
            candles_of(raw_klines@),
            0,
            stop_loss_percent,
            match trend {
                TrendType::Positive => TrendDirection::Positive,
                TrendType::Negative => TrendDirection::Negative,
            },
        ) && result.unwrap().0 == final_multiplier(result.unwrap().1@),
{
    if raw_klines.len() == 0 {
        return Err(BacktestError::NoKlineData);
    }
    let candles = parse_candles(raw_klines);
    if candles.len() == 0 {
        return Err(BacktestError::NoCandleData);
    }
    Ok(simulate(&candles, stop_loss_percent, trend.direction()))
}

} // verus!
