//! Signal discovery: which symbols of a market scan qualify as entry candidates.
//!
//! The scan itself talks to the exchange; everything here works on what it
//! fetched. One symbol's bad data never affects another symbol.

use vstd::prelude::*;
use crate::decimal::{
    add_within, amount_of, floor_div, growth, growth_percent, parse_amount_wide, parse_price,
    parse_signed_amount, price_of, signed_amount_of, within_limit, SCALE,
};
use crate::text::{
    concat, contains_str, ends_with, ends_with_spec, lemma_views_push, listed, str_eq,
    to_uppercase, uppercase_of, views,
};
use crate::types::{Signal, Ticker24hr, TrendDirection};

verus! {

/// The price fields of one candle as the exchange sent them. A field is `None`
/// where the row was too short or the field was not a string.
#[derive(Debug, Clone)]
pub struct RawKline {
    pub open: Option<String>,
    pub high: Option<String>,
    pub low: Option<String>,
    pub close: Option<String>,
    pub volume: Option<String>,
}

/// The positive price a field holds, if it holds one.
pub open spec fn field_price(field: Option<String>) -> Option<u64> {
    match field {
        Some(s) => price_of(vstd::utf8::encode_utf8(s@)),
        None => None,
    }
}

/// Reads the positive price of a field.
pub fn read_price(field: &Option<String>) -> (price: Option<u64>)
    ensures
        price == field_price(*field),
{
    match field {
        Some(s) => parse_price(s.as_str()),
        None => None,
    }
}

/// `to` lies at least `tenths` tenths of a percent above `from`.
pub open spec fn rose_by(from: u64, to: u64, tenths: int) -> bool {
    (to as int - from as int) * 1000 >= tenths * from as int
}

/// `to` lies at least `tenths` tenths of a percent below `from`.
pub open spec fn fell_by(from: u64, to: u64, tenths: int) -> bool {
    (from as int - to as int) * 1000 >= tenths * from as int
}

/// A candle that closes above its open, by at least half a percent of the open.
pub open spec fn strong_green(open: u64, close: u64) -> bool {
    close > open && rose_by(open, close, 5)
}

/// The prices that the admission rule reads from a window.
pub struct WindowPrices {
    pub first_open: u64,
    pub prev_open: u64,
    pub prev_close: u64,
    pub last_open: u64,
    pub last_close: u64,
    pub recent_open: u64,
}

/// The admission rule. For a positive trend: the window grew by at least ten
/// percent, the last close is above the one before, the recent window grew, and
/// the last two candles are both strong green. For a negative trend: the window
/// fell by at least ten percent, the last close is not above the one before, and
/// the recent window fell.
pub open spec fn admits(p: WindowPrices, trend: TrendDirection) -> bool {
    match trend {
        TrendDirection::Positive => rose_by(p.first_open, p.last_close, 100) && p.last_close
            > p.prev_close && p.last_close > p.recent_open && strong_green(
            p.prev_open,
            p.prev_close,
        ) && strong_green(p.last_open, p.last_close),
        TrendDirection::Negative => fell_by(p.first_open, p.last_close, 100) && !(p.last_close
            > p.prev_close) && p.last_close < p.recent_open,
    }
}

/// The prices of a window, where the window is long enough for the lookback
/// and the recent window and every field that the rule reads holds a price.
pub open spec fn window_prices(klines: Seq<RawKline>, lookback: u32, recent: u32) -> Option<
    WindowPrices,
> {
    let n = klines.len() as int;
    if n < lookback || n < 2 || recent == 0 || recent > n {
        None
    } else {
        let first_open = field_price(klines[0].open);
        let prev_open = field_price(klines[n - 2].open);
        let prev_close = field_price(klines[n - 2].close);
        let last_open = field_price(klines[n - 1].open);
        let last_close = field_price(klines[n - 1].close);
        let recent_open = field_price(klines[n - recent].open);
        if first_open.is_some() && prev_open.is_some() && prev_close.is_some()
            && last_open.is_some() && last_close.is_some() && recent_open.is_some() {
            Some(
                WindowPrices {
                    first_open: first_open.unwrap(),
                    prev_open: prev_open.unwrap(),
                    prev_close: prev_close.unwrap(),
                    last_open: last_open.unwrap(),
                    last_close: last_close.unwrap(),
                    recent_open: recent_open.unwrap(),
                },
            )
        } else {
            None
        }
    }
}

/// High and low of a candle, where both fields hold a positive price.
pub open spec fn range_of(k: RawKline) -> Option<(u64, u64)> {
    match (field_price(k.high), field_price(k.low)) {
        (Some(h), Some(l)) => Some((h, l)),
        _ => None,
    }
}

/// How many candles of a window have a high and a low.
pub open spec fn ranged_count(klines: Seq<RawKline>) -> nat
    decreases klines.len(),
{
    if klines.len() == 0 {
        0
    } else {
        ranged_count(klines.drop_last()) + if range_of(klines.last()).is_some() {
            1nat
        } else {
            0nat
        }
    }
}

/// The sum of `high - low` over the candles that have both.
pub open spec fn range_sum(klines: Seq<RawKline>) -> int
    decreases klines.len(),
{
    if klines.len() == 0 {
        0
    } else {
        range_sum(klines.drop_last()) + match range_of(klines.last()) {
            Some((h, l)) => h as int - l as int,
            None => 0,
        }
    }
}

/// The sum of `(high - low) / low` in percent over the candles that have both.
pub open spec fn range_percent_sum(klines: Seq<RawKline>) -> int
    decreases klines.len(),
{
    if klines.len() == 0 {
        0
    } else {
        range_percent_sum(klines.drop_last()) + match range_of(klines.last()) {
            Some((h, l)) => growth_percent(l, h),
            None => 0,
        }
    }
}

/// The divisor of a mean over `count` terms: the count, or one for none.
pub open spec fn mean_divisor(count: nat) -> int {
    if count == 0 {
        1
    } else {
        count as int
    }
}

/// Mean absolute and mean relative candle range of a window.
pub open spec fn fluctuations_spec(klines: Seq<RawKline>) -> (int, int) {
    let d = mean_divisor(ranged_count(klines));
    (range_sum(klines) / d, range_percent_sum(klines) / d)
}

/// Both sums over the first `upto` candles lie within the limit of a running
/// total.
pub open spec fn prefix_fits(klines: Seq<RawKline>, upto: int) -> bool {
    within_limit(range_sum(klines.take(upto))) && within_limit(
        range_percent_sum(klines.take(upto)),
    )
}

/// The sums of a window can be carried: they lie within the limit after every
/// candle.
pub open spec fn sums_fit(klines: Seq<RawKline>) -> bool {
    forall|upto: int| 0 <= upto <= klines.len() ==> #[trigger] prefix_fits(klines, upto)
}

/// Computes the mean of `high - low` and the mean of `(high - low) / low` in
/// percent, over the candles whose high and low both hold a positive price.
/// Nothing where a running sum leaves the limit.
pub fn calculate_fluctuations(klines: &Vec<RawKline>) -> (means: Option<(i128, i128)>)
    ensures
        match means {
            Some(m) => sums_fit(klines@) && m.0 as int == fluctuations_spec(klines@).0 && m.1 as int
                == fluctuations_spec(klines@).1,
            None => !sums_fit(klines@),
        },
{
    let mut raw: i128 = 0;
    let mut pct: i128 = 0;
    let mut count: u64 = 0;
    let mut i: usize = 0;
    proof {
        assert(klines@.take(0) =~= Seq::<RawKline>::empty());
    }
    while i < klines.len()
        invariant
            i <= klines.len(),
            count == ranged_count(klines@.take(i as int)),
            count <= i,
            raw == range_sum(klines@.take(i as int)),
            pct == range_percent_sum(klines@.take(i as int)),
            forall|upto: int| 0 <= upto <= i ==> #[trigger] prefix_fits(klines@, upto),
        decreases klines.len() - i,
    {
        proof {
            assert(klines@.take(i + 1).drop_last() =~= klines@.take(i as int));
            assert(prefix_fits(klines@, i as int));
        }
        let high = read_price(&klines[i].high);
        let low = read_price(&klines[i].low);
        match (high, low) {
            (Some(h), Some(l)) => {
                let g = growth(l, h);
                let next_raw = add_within(raw, (h as i128) - (l as i128));
                let next_pct = add_within(pct, g);
                match (next_raw, next_pct) {
                    (Some(r), Some(p)) => {
                        raw = r;
                        pct = p;
                        count = count + 1;
                    },
                    _ => {
                        proof {
                            assert(!prefix_fits(klines@, i as int + 1));
                        }
                        return None;
                    },
                }
            },
            _ => {},
        }
        proof {
            assert(prefix_fits(klines@, i as int + 1));
        }
        i += 1;
    }
    proof {
        assert(klines@.take(i as int) =~= klines@);
        assert(prefix_fits(klines@, i as int));
    }
    let d: u64 = if count == 0 {
        1
    } else {
        count
    };
    Some((floor_div(raw, d), floor_div(pct, d)))
}

/// The contents of a signal.
pub struct SignalView {
    pub symbol: Seq<char>,
    pub overall_growth: int,
    pub recent_growth: int,
    pub avg_fluct_raw: int,
    pub avg_fluct_pct: int,
}

/// The contents of a signal.
pub open spec fn signal_contents(signal: Signal) -> SignalView {
    SignalView {
        symbol: signal.symbol@,
        overall_growth: signal.overall_growth as int,
        recent_growth: signal.recent_growth as int,
        avg_fluct_raw: signal.avg_fluct_raw as int,
        avg_fluct_pct: signal.avg_fluct_pct as int,
    }
}

/// What a window evaluates to: a signal where the window yields its prices,
/// the admission rule accepts them and the window's sums can be carried;
/// nothing otherwise. The signal carries the growth over the whole window and
/// over the recent window, both up to the last close, and the window's mean
/// candle ranges.
pub open spec fn evaluation(
    symbol: Seq<char>,
    klines: Seq<RawKline>,
    lookback: u32,
    recent: u32,
    trend: TrendDirection,
) -> Option<SignalView> {
    match window_prices(klines, lookback, recent) {
        Some(p) => if admits(p, trend) && sums_fit(klines) {
            Some(
                SignalView {
                    symbol,
                    overall_growth: growth_percent(p.first_open, p.last_close),
                    recent_growth: growth_percent(p.recent_open, p.last_close),
                    avg_fluct_raw: fluctuations_spec(klines).0,
                    avg_fluct_pct: fluctuations_spec(klines).1,
                },
            )
        } else {
            None
        },
        None => None,
    }
}

fn rose(from: u64, to: u64, tenths: u64) -> (yes: bool)
    requires
        tenths <= 1000,
    ensures
        yes == rose_by(from, to, tenths as int),
{
    proof {
        lemma_need_bound(tenths as int, from as int);
    }
    let gain: i128 = ((to as i128) - (from as i128)) * 1000;
    let need: i128 = (tenths as i128) * (from as i128);
    gain >= need
}

/// Applies the admission rule to the prices of a window.
pub fn is_admitted(p: &WindowPrices, trend: TrendDirection) -> (yes: bool)
    ensures
        yes == admits(*p, trend),
{
    match trend {
        TrendDirection::Positive => rose(p.first_open, p.last_close, 100) && p.last_close
            > p.prev_close && p.last_close > p.recent_open && p.prev_close > p.prev_open && rose(
            p.prev_open,
            p.prev_close,
            5,
        ) && p.last_close > p.last_open && rose(p.last_open, p.last_close, 5),
        TrendDirection::Negative => fell(p.first_open, p.last_close, 100) && !(p.last_close
            > p.prev_close) && p.last_close < p.recent_open,
    }
}

fn fell(from: u64, to: u64, tenths: u64) -> (yes: bool)
    requires
        tenths <= 1000,
    ensures
        yes == fell_by(from, to, tenths as int),
{
    proof {
        lemma_need_bound(tenths as int, from as int);
    }
    let loss: i128 = ((from as i128) - (to as i128)) * 1000;
    let need: i128 = (tenths as i128) * (from as i128);
    loss >= need
}

proof fn lemma_need_bound(tenths: int, from: int)
    requires
        0 <= tenths <= 1000,
        0 <= from <= 0xffff_ffff_ffff_ffff,
    ensures
        0 <= tenths * from <= 1000 * 0xffff_ffff_ffff_ffff,
{
    assert(0 <= tenths * from <= 1000 * 0xffff_ffff_ffff_ffff) by (nonlinear_arith)
        requires
            0 <= tenths <= 1000,
            0 <= from <= 0xffff_ffff_ffff_ffff,
    ;
}

/// Reads from a window the prices that the admission rule needs.
pub fn read_window(klines: &Vec<RawKline>, lookback: u32, recent: u32) -> (prices: Option<
    WindowPrices,
>)
    ensures
        prices == window_prices(klines@, lookback, recent),
{
    let n = klines.len();
    if n < lookback as usize || n < 2 || recent == 0 || recent as usize > n {
        return None;
    }
    let first_open = read_price(&klines[0].open);
    let prev_open = read_price(&klines[n - 2].open);
    let prev_close = read_price(&klines[n - 2].close);
    let last_open = read_price(&klines[n - 1].open);
    let last_close = read_price(&klines[n - 1].close);
    let recent_open = read_price(&klines[n - recent as usize].open);
    match (first_open, prev_open, prev_close, last_open, last_close, recent_open) {
        (Some(a), Some(b), Some(c), Some(d), Some(e), Some(f)) => Some(
            WindowPrices {
                first_open: a,
                prev_open: b,
                prev_close: c,
                last_open: d,
                last_close: e,
                recent_open: f,
            },
        ),
        _ => None,
    }
}

/// Evaluates one symbol's candle window. Returns a signal exactly where the
/// window is long enough, every price it reads is present and positive, and the
/// admission rule of the trend accepts it.
pub fn evaluate_klines(
    symbol: &str,
    klines: &Vec<RawKline>,
    lookback: u32,
    recent: u32,
    trend: TrendDirection,
) -> (signal: Option<Signal>)
    ensures
        match signal {
            Some(s) => evaluation(symbol@, klines@, lookback, recent, trend) == Some(
                signal_contents(s),
            ),
            None => evaluation(symbol@, klines@, lookback, recent, trend).is_none(),
        },
{
    let prices = match read_window(klines, lookback, recent) {
        Some(p) => p,
        None => {
            return None;
        },
    };
    if !is_admitted(&prices, trend) {
        return None;
    }
    let overall_growth = growth(prices.first_open, prices.last_close);
    let recent_growth = growth(prices.recent_open, prices.last_close);
    let (avg_fluct_raw, avg_fluct_pct) = match calculate_fluctuations(klines) {
        Some(means) => means,
        None => {
            return None;
        },
    };
    Some(
        Signal {
            symbol: String::from_str(symbol),
            overall_growth,
            recent_growth,
            avg_fluct_raw,
            avg_fluct_pct,
        },
    )
}


/// The pairs of one held asset: the asset joined with every quote asset other
/// than itself, in the order of the quote assets.
pub open spec fn pairs_of(base: Seq<char>, quotes: Seq<String>) -> Seq<Seq<char>>
    decreases quotes.len(),
{
    if quotes.len() == 0 {
        Seq::empty()
    } else {
        let before = pairs_of(base, quotes.drop_last());
        if base != quotes.last()@ {
            before.push(base + quotes.last()@)
        } else {
            before
        }
    }
}

/// The pairs of all holdings with a positive amount, holding by holding.
pub open spec fn expanded_pairs(holdings: Seq<(String, u64)>, quotes: Seq<String>) -> Seq<
    Seq<char>,
>
    decreases holdings.len(),
{
    if holdings.len() == 0 {
        Seq::empty()
    } else {
        let before = expanded_pairs(holdings.drop_last(), quotes);
        if holdings.last().1 > 0 {
            before + pairs_of(holdings.last().0@, quotes)
        } else {
            before
        }
    }
}

/// Turns wallet holdings into the trading pairs they stand for: each asset held
/// in a positive amount, against every quote asset but itself.
pub fn expand_holdings_to_pairs(holdings: &Vec<(String, u64)>, quote_assets: &Vec<String>) -> (pairs:
    Vec<String>)
    ensures
        views(pairs@) == expanded_pairs(holdings@, quote_assets@),
{
    let mut pairs: Vec<String> = Vec::new();
    let mut i: usize = 0;
    proof {
        assert(views(pairs@) =~= Seq::<Seq<char>>::empty());
    }
    while i < holdings.len()
        invariant
            i <= holdings.len(),
            views(pairs@) == expanded_pairs(holdings@.take(i as int), quote_assets@),
        decreases holdings.len() - i,
    {
        proof {
            assert(holdings@.take(i + 1).drop_last() =~= holdings@.take(i as int));
        }
        if holdings[i].1 > 0 {
            let ghost before = views(pairs@);
            let mut j: usize = 0;
            proof {
                assert(before + Seq::<Seq<char>>::empty() =~= before);
            }
            while j < quote_assets.len()
                invariant
                    i < holdings.len(),
                    j <= quote_assets.len(),
                    views(pairs@) == before + pairs_of(
                        holdings@[i as int].0@,
                        quote_assets@.take(j as int),
                    ),
                decreases quote_assets.len() - j,
            {
                proof {
                    assert(quote_assets@.take(j + 1).drop_last() =~= quote_assets@.take(j as int));
                }
                if !str_eq(holdings[i].0.as_str(), quote_assets[j].as_str()) {
                    let pair = concat(holdings[i].0.as_str(), quote_assets[j].as_str());
                    proof {
                        lemma_views_push(pairs@, pair);
                        let so_far = pairs_of(holdings@[i as int].0@, quote_assets@.take(j as int));
                        assert((before + so_far).push(pair@) =~= before + so_far.push(pair@));
                    }
                    pairs.push(pair);
                }
                j += 1;
            }
            proof {
                assert(quote_assets@.take(j as int) =~= quote_assets@);
            }
        }
        i += 1;
    }
    proof {
        assert(holdings@.take(i as int) =~= holdings@);
    }
    pairs
}

/// The 24-hour change of a ticker, where its field writes a number.
pub open spec fn change_of(t: Ticker24hr) -> Option<int> {
    match signed_amount_of(vstd::utf8::encode_utf8(t.priceChangePercent@)) {
        Some(v) => if -(u64::MAX as int) <= v <= u64::MAX {
            Some(v)
        } else {
            None
        },
        None => None,
    }
}

/// The 24-hour quote volume of a ticker; zero where its field writes none.
pub open spec fn volume_of(t: Ticker24hr) -> nat {
    match amount_of(vstd::utf8::encode_utf8(t.quote_volume@)) {
        Some(v) => if v <= u128::MAX {
            v
        } else {
            0
        },
        None => 0,
    }
}

/// How many tickers of a list rose over the last 24 hours.
pub open spec fn risers(tickers: Seq<Ticker24hr>) -> nat
    decreases tickers.len(),
{
    if tickers.len() == 0 {
        0
    } else {
        risers(tickers.drop_last()) + match change_of(tickers.last()) {
            Some(v) => if v > 0 {
                1nat
            } else {
                0nat
            },
            None => 0nat,
        }
    }
}

/// The mood of the whole market: positive where at least half of the tickers
/// rose, negative otherwise (also for an empty list).
pub fn market_trend(tickers: &Vec<Ticker24hr>) -> (trend: TrendDirection)
    ensures
        trend == if tickers@.len() > 0 && 2 * risers(tickers@) >= tickers@.len() {
            TrendDirection::Positive
        } else {
            TrendDirection::Negative
        },
{
    let mut up: usize = 0;
    let mut i: usize = 0;
    while i < tickers.len()
        invariant
            i <= tickers.len(),
            up == risers(tickers@.take(i as int)),
            up <= i,
        decreases tickers.len() - i,
    {
        proof {
            assert(tickers@.take(i + 1).drop_last() =~= tickers@.take(i as int));
        }
        match parse_signed_amount(tickers[i].priceChangePercent.as_str()) {
            Some(v) => {
                if v > 0 {
                    up += 1;
                }
            },
            None => {},
        }
        i += 1;
    }
    proof {
        assert(tickers@.take(i as int) =~= tickers@);
    }
    let total = tickers.len();
    if total > 0 && up >= total - up {
        TrendDirection::Positive
    } else {
        TrendDirection::Negative
    }
}

/// A ticker passes the scan's filter: its change writes a number, its quote
/// volume reaches the minimum (given in whole units of the quote asset), and its
/// symbol is neither invested nor excluded.
pub open spec fn is_tradable(
    t: Ticker24hr,
    min_volume: u64,
    invested: Seq<String>,
    excluded: Seq<String>,
) -> bool {
    change_of(t).is_some() && volume_of(t) >= min_volume as nat * SCALE as nat && !listed(
        invested,
        t.symbol@,
    ) && !listed(excluded, t.symbol@)
}

/// The tickers that pass the filter, each as its upper-cased symbol and its
/// change, in the order of the list.
pub open spec fn tradable_spec(
    tickers: Seq<Ticker24hr>,
    min_volume: u64,
    invested: Seq<String>,
    excluded: Seq<String>,
) -> Seq<(Seq<char>, int)>
    decreases tickers.len(),
{
    if tickers.len() == 0 {
        Seq::empty()
    } else {
        let before = tradable_spec(tickers.drop_last(), min_volume, invested, excluded);
        let t = tickers.last();
        if is_tradable(t, min_volume, invested, excluded) {
            before.push((uppercase_of(t.symbol@), change_of(t).unwrap()))
        } else {
            before
        }
    }
}

/// Symbol and change of each entry of a list of tradable tokens.
pub open spec fn token_views(tokens: Seq<(String, i128)>) -> Seq<(Seq<char>, int)> {
    Seq::new(tokens.len(), |i: int| (tokens[i].0@, tokens[i].1 as int))
}

/// Tests one ticker against the scan's filter.
pub fn passes_filter(
    ticker: &Ticker24hr,
    min_volume: u64,
    invested: &Vec<String>,
    excluded: &Vec<String>,
) -> (change: Option<i128>)
    ensures
        change.is_some() == is_tradable(*ticker, min_volume, invested@, excluded@),
        change.is_some() ==> Some(change.unwrap() as int) == change_of(*ticker),
{
    let volume: u128 = match parse_amount_wide(ticker.quote_volume.as_str().as_bytes()) {
        Some(v) => v,
        None => 0,
    };
    let floor: u128 = (min_volume as u128) * (SCALE as u128);
    match parse_signed_amount(ticker.priceChangePercent.as_str()) {
        Some(change) => {
            if volume >= floor && !contains_str(invested, ticker.symbol.as_str()) && !contains_str(
                excluded,
                ticker.symbol.as_str(),
            ) {
                Some(change)
            } else {
                None
            }
        },
        None => None,
    }
}

/// Filters the tickers of a scan: see [`is_tradable`].
pub fn tradable_tokens(
    tickers: &Vec<Ticker24hr>,
    min_volume: u64,
    invested: &Vec<String>,
    excluded: &Vec<String>,
) -> (tokens: Vec<(String, i128)>)
    ensures
        token_views(tokens@) == tradable_spec(tickers@, min_volume, invested@, excluded@),
{
    let mut tokens: Vec<(String, i128)> = Vec::new();
    let mut i: usize = 0;
    proof {
        assert(token_views(tokens@) =~= Seq::<(Seq<char>, int)>::empty());
    }
    while i < tickers.len()
        invariant
            i <= tickers.len(),
            token_views(tokens@) == tradable_spec(
                tickers@.take(i as int),
                min_volume,
                invested@,
                excluded@,
            ),
        decreases tickers.len() - i,
    {
        proof {
            assert(tickers@.take(i + 1).drop_last() =~= tickers@.take(i as int));
        }
        match passes_filter(&tickers[i], min_volume, invested, excluded) {
            Some(change) => {
                let symbol = to_uppercase(tickers[i].symbol.as_str());
                proof {
                    assert(token_views(tokens@.push((symbol, change))) =~= token_views(tokens@).push(
                        (symbol@, change as int),
                    ));
                }
                tokens.push((symbol, change));
            },
            None => {},
        }
        i += 1;
    }
    proof {
        assert(tickers@.take(i as int) =~= tickers@);
    }
    tokens
}

/// The amount that an asset needs before it is scanned: its configured
/// transaction amount, or ten where none is configured.
pub open spec fn required_balance(amounts: Seq<u64>, index: int) -> u64 {
    if 0 <= index < amounts.len() {
        amounts[index]
    } else {
        (10 * SCALE) as u64
    }
}

/// Tells whether the balance of the asset at `index` covers its transaction
/// amount; an asset that does not is skipped for the whole scan.
pub fn has_budget(balance: u64, transaction_amounts: &Vec<u64>, index: usize) -> (enough: bool)
    ensures
        enough == (balance >= required_balance(transaction_amounts@, index as int)),
{
    let need: u64 = if index < transaction_amounts.len() {
        transaction_amounts[index]
    } else {
        10 * SCALE
    };
    balance >= need
}

/// The symbols of a token list that end in the asset's name, in order.
pub open spec fn candidates_spec(tokens: Seq<(Seq<char>, int)>, asset: Seq<char>) -> Seq<Seq<char>>
    decreases tokens.len(),
{
    if tokens.len() == 0 {
        Seq::empty()
    } else {
        let before = candidates_spec(tokens.drop_last(), asset);
        if ends_with_spec(
            vstd::utf8::encode_utf8(tokens.last().0),
            vstd::utf8::encode_utf8(asset),
        ) {
            before.push(tokens.last().0)
        } else {
            before
        }
    }
}

/// Picks the tradable tokens that are quoted in `asset`.
pub fn candidates(tokens: &Vec<(String, i128)>, asset: &str) -> (symbols: Vec<String>)
    ensures
        views(symbols@) == candidates_spec(token_views(tokens@), asset@),
{
    let mut symbols: Vec<String> = Vec::new();
    let mut i: usize = 0;
    proof {
        assert(views(symbols@) =~= Seq::<Seq<char>>::empty());
    }
    while i < tokens.len()
        invariant
            i <= tokens.len(),
            views(symbols@) == candidates_spec(token_views(tokens@).take(i as int), asset@),
        decreases tokens.len() - i,
    {
        proof {
            assert(token_views(tokens@).take(i + 1).drop_last() =~= token_views(tokens@).take(
                i as int,
            ));
            assert(token_views(tokens@).take(i + 1).last().0 == tokens@[i as int].0@);
        }
        if ends_with(tokens[i].0.as_str(), asset) {
            let symbol = tokens[i].0.clone();
            proof {
                lemma_views_push(symbols@, symbol);
            }
            symbols.push(symbol);
        }
        i += 1;
    }
    proof {
        assert(token_views(tokens@).take(i as int) =~= token_views(tokens@));
    }
    symbols
}

/// The symbols to evaluate for one asset of a scan: its candidates where its
/// balance is known and covers its transaction amount, none otherwise.
pub open spec fn asset_candidates(
    tokens: Seq<(Seq<char>, int)>,
    asset: Seq<char>,
    balance: Option<u64>,
    amounts: Seq<u64>,
    index: int,
) -> Seq<Seq<char>> {
    match balance {
        Some(b) => if b >= required_balance(amounts, index) {
            candidates_spec(tokens, asset)
        } else {
            Seq::empty()
        },
        None => Seq::empty(),
    }
}

/// Lists, asset by asset, the symbols whose candle windows a scan has to
/// fetch. `balances[i]` is the free balance of `assets[i]`, `None` where
/// fetching it failed: that asset is skipped, and so is one whose balance is
/// under its transaction amount.
pub fn scan_candidates(
    tokens: &Vec<(String, i128)>,
    assets: &Vec<String>,
    balances: &Vec<Option<u64>>,
    transaction_amounts: &Vec<u64>,
) -> (lists: Vec<Vec<String>>)
    requires
        balances@.len() == assets@.len(),
    ensures
        lists@.len() == assets@.len(),
        forall|i: int|
            0 <= i < assets@.len() ==> views((#[trigger] lists@[i])@) == asset_candidates(
                token_views(tokens@),
                assets@[i]@,
                balances@[i],
                transaction_amounts@,
                i,
            ),
{
    let mut lists: Vec<Vec<String>> = Vec::new();
    let mut i: usize = 0;
    while i < assets.len()
        invariant
            i <= assets.len(),
            balances@.len() == assets@.len(),
            lists@.len() == i,
            forall|k: int|
                0 <= k < i ==> views((#[trigger] lists@[k])@) == asset_candidates(
                    token_views(tokens@),
                    assets@[k]@,
                    balances@[k],
                    transaction_amounts@,
                    k,
                ),
        decreases assets.len() - i,
    {
        let enough = match balances[i] {
            Some(b) => has_budget(b, transaction_amounts, i),
            None => false,
        };
        let list: Vec<String> = if enough {
            candidates(tokens, assets[i].as_str())
        } else {
            Vec::new()
        };
        proof {
            if !enough {
                assert(views(list@) =~= Seq::<Seq<char>>::empty());
            }
        }
        lists.push(list);
        i += 1;
    }
    lists
}

/// Plans a scan from what was fetched for it: filters the tickers, and lists
/// for each asset with enough balance the tradable symbols that are quoted in
/// it. These are the symbols whose candle windows the scan evaluates.
pub fn plan_scan(
    tickers: &Vec<Ticker24hr>,
    min_volume: u64,
    invested: &Vec<String>,
    excluded: &Vec<String>,
    assets: &Vec<String>,
    balances: &Vec<Option<u64>>,
    transaction_amounts: &Vec<u64>,
) -> (lists: Vec<Vec<String>>)
    requires
        balances@.len() == assets@.len(),
    ensures
        lists@.len() == assets@.len(),
        forall|i: int|
            0 <= i < assets@.len() ==> views((#[trigger] lists@[i])@) == asset_candidates(
                tradable_spec(tickers@, min_volume, invested@, excluded@),
                assets@[i]@,
                balances@[i],
                transaction_amounts@,
                i,
            ),
{
    let tokens = tradable_tokens(tickers, min_volume, invested, excluded);
    scan_candidates(&tokens, assets, balances, transaction_amounts)
}

/// A token comes from a ticker that passes the whole filter.
pub open spec fn from_passing_ticker(
    token: (Seq<char>, int),
    tickers: Seq<Ticker24hr>,
    min_volume: u64,
    invested: Seq<String>,
    excluded: Seq<String>,
) -> bool {
    exists|i: int|
        0 <= i < tickers.len() && is_tradable(#[trigger] tickers[i], min_volume, invested, excluded)
            && token == (uppercase_of(tickers[i].symbol@), change_of(tickers[i]).unwrap())
}

/// Every tradable token comes from a ticker that passes the whole filter: it
/// has a readable change, enough volume, and a symbol that is neither invested
/// nor excluded.
pub proof fn lemma_tradable_pass_filter(
    tickers: Seq<Ticker24hr>,
    min_volume: u64,
    invested: Seq<String>,
    excluded: Seq<String>,
)
    ensures
        forall|k: int|
            0 <= k < tradable_spec(tickers, min_volume, invested, excluded).len()
                ==> from_passing_ticker(
                #[trigger] tradable_spec(tickers, min_volume, invested, excluded)[k],
                tickers,
                min_volume,
                invested,
                excluded,
            ),
    decreases tickers.len(),
{
    if tickers.len() > 0 {
        let shorter = tickers.drop_last();
        lemma_tradable_pass_filter(shorter, min_volume, invested, excluded);
        let before = tradable_spec(shorter, min_volume, invested, excluded);
        let all = tradable_spec(tickers, min_volume, invested, excluded);
        assert forall|k: int| 0 <= k < all.len() implies from_passing_ticker(
            #[trigger] all[k],
            tickers,
            min_volume,
            invested,
            excluded,
        ) by {
            if k < before.len() {
                assert(all[k] == before[k]);
                assert(from_passing_ticker(before[k], shorter, min_volume, invested, excluded));
                let i = choose|i: int|
                    0 <= i < shorter.len() && is_tradable(
                        #[trigger] shorter[i],
                        min_volume,
                        invested,
                        excluded,
                    ) && before[k] == (
                        uppercase_of(shorter[i].symbol@),
                        change_of(shorter[i]).unwrap(),
                    );
                assert(tickers[i] == shorter[i]);
            } else {
                let last = tickers.len() - 1;
                assert(is_tradable(tickers[last], min_volume, invested, excluded));
            }
        }
    }
}

/// A symbol is that of one of the tokens and ends in the asset's name.
pub open spec fn quoted_token(symbol: Seq<char>, tokens: Seq<(Seq<char>, int)>, asset: Seq<char>) -> bool {
    exists|i: int|
        0 <= i < tokens.len() && (#[trigger] tokens[i]).0 == symbol && ends_with_spec(
            vstd::utf8::encode_utf8(symbol),
            vstd::utf8::encode_utf8(asset),
        )
}

/// Every candidate of an asset is the symbol of a tradable token and ends in
/// the asset's name.
pub proof fn lemma_candidates_end_in_asset(tokens: Seq<(Seq<char>, int)>, asset: Seq<char>)
    ensures
        forall|k: int|
            0 <= k < candidates_spec(tokens, asset).len() ==> quoted_token(
                #[trigger] candidates_spec(tokens, asset)[k],
                tokens,
                asset,
            ),
    decreases tokens.len(),
{
    if tokens.len() > 0 {
        let shorter = tokens.drop_last();
        lemma_candidates_end_in_asset(shorter, asset);
        let before = candidates_spec(shorter, asset);
        let all = candidates_spec(tokens, asset);
        assert forall|k: int| 0 <= k < all.len() implies quoted_token(
            #[trigger] all[k],
            tokens,
            asset,
        ) by {
            if k < before.len() {
                assert(all[k] == before[k]);
                assert(quoted_token(before[k], shorter, asset));
                let i = choose|i: int|
                    0 <= i < shorter.len() && (#[trigger] shorter[i]).0 == before[k];
                assert(tokens[i] == shorter[i]);
            } else {
                let last = tokens.len() - 1;
                assert(tokens[last].0 == all[k]);
            }
        }
    }
}

/// The symbols that a scan must not enter again: those with an open order,
/// followed by the pairs of the wallet's holdings.
pub fn invested_tokens(
    open_order_symbols: Vec<String>,
    holdings: &Vec<(String, u64)>,
    quote_assets: &Vec<String>,
) -> (invested: Vec<String>)
    ensures
        views(invested@) == views(open_order_symbols@) + expanded_pairs(holdings@, quote_assets@),
{
    let mut invested = open_order_symbols;
    let mut held = expand_holdings_to_pairs(holdings, quote_assets);
    let ghost first = invested@;
    let ghost second = held@;
    invested.append(&mut held);
    proof {
        assert(views(first + second) =~= views(first) + views(second));
    }
    invested
}


/// What one symbol contributes to a scan: the evaluation of its window, and
/// nothing where the window could not be fetched.
pub open spec fn window_signal(
    symbol: Seq<char>,
    window: Option<Vec<RawKline>>,
    lookback: u32,
    recent: u32,
    trend: TrendDirection,
) -> Option<SignalView> {
    match window {
        Some(klines) => evaluation(symbol, klines@, lookback, recent, trend),
        None => None,
    }
}

/// The signals of the first `n` symbols of a scan, in order.
pub open spec fn signals_of(
    symbols: Seq<String>,
    windows: Seq<Option<Vec<RawKline>>>,
    n: int,
    lookback: u32,
    recent: u32,
    trend: TrendDirection,
) -> Seq<SignalView>
    decreases n,
{
    if n <= 0 {
        Seq::empty()
    } else {
        let before = signals_of(symbols, windows, n - 1, lookback, recent, trend);
        match window_signal(symbols[n - 1]@, windows[n - 1], lookback, recent, trend) {
            Some(s) => before.push(s),
            None => before,
        }
    }
}

/// The contents of each signal of a list.
pub open spec fn signal_views(signals: Seq<Signal>) -> Seq<SignalView> {
    Seq::new(signals.len(), |i: int| signal_contents(signals[i]))
}

/// Evaluates the windows of a scan's candidates. `windows[i]` is the candle
/// window fetched for `symbols[i]`, `None` where fetching failed: that symbol
/// gives no signal, and the others are evaluated all the same.
pub fn collect_signals(
    symbols: &Vec<String>,
    windows: &Vec<Option<Vec<RawKline>>>,
    lookback: u32,
    recent: u32,
    trend: TrendDirection,
) -> (signals: Vec<Signal>)
    requires
        windows@.len() == symbols@.len(),
    ensures
        signal_views(signals@) == signals_of(
            symbols@,
            windows@,
            symbols@.len() as int,
            lookback,
            recent,
            trend,
        ),
{
    let mut signals: Vec<Signal> = Vec::new();
    let mut i: usize = 0;
    proof {
        assert(signal_views(signals@) =~= Seq::<SignalView>::empty());
    }
    while i < symbols.len()
        invariant
            i <= symbols.len(),
            windows@.len() == symbols@.len(),
            signal_views(signals@) == signals_of(symbols@, windows@, i as int, lookback, recent, trend),
        decreases symbols.len() - i,
    {
        match &windows[i] {
            Some(klines) => {
                match evaluate_klines(symbols[i].as_str(), klines, lookback, recent, trend) {
                    Some(signal) => {
                        proof {
                            assert(signal_views(signals@.push(signal)) =~= signal_views(
                                signals@,
                            ).push(signal_contents(signal)));
                        }
                        signals.push(signal);
                    },
                    None => {},
                }
            },
            None => {},
        }
        i += 1;
    }
    signals
}

/// A signal is the evaluation of the window of one of the first `n` symbols.
pub open spec fn admitted_signal(
    signal: SignalView,
    symbols: Seq<String>,
    windows: Seq<Option<Vec<RawKline>>>,
    n: int,
    lookback: u32,
    recent: u32,
    trend: TrendDirection,
) -> bool {
    exists|i: int|
        0 <= i < n && window_signal((#[trigger] symbols[i])@, windows[i], lookback, recent, trend)
            == Some(signal)
}

/// Every signal of a scan is the evaluation of the window of one of the
/// scan's symbols: its window was fetched, yields the prices, and passes the
/// admission rule of the trend.
pub proof fn lemma_signals_are_admitted(
    symbols: Seq<String>,
    windows: Seq<Option<Vec<RawKline>>>,
    n: int,
    lookback: u32,
    recent: u32,
    trend: TrendDirection,
)
    requires
        0 <= n <= symbols.len(),
        windows.len() == symbols.len(),
    ensures
        forall|k: int|
            0 <= k < signals_of(symbols, windows, n, lookback, recent, trend).len()
                ==> admitted_signal(
                #[trigger] signals_of(symbols, windows, n, lookback, recent, trend)[k],
                symbols,
                windows,
                n,
                lookback,
                recent,
                trend,
            ),
    decreases n,
{
    if n > 0 {
        lemma_signals_are_admitted(symbols, windows, n - 1, lookback, recent, trend);
        let before = signals_of(symbols, windows, n - 1, lookback, recent, trend);
        let all = signals_of(symbols, windows, n, lookback, recent, trend);
        assert forall|k: int| 0 <= k < all.len() implies admitted_signal(
            #[trigger] all[k],
            symbols,
            windows,
            n,
            lookback,
            recent,
            trend,
        ) by {
            if k < before.len() {
                assert(all[k] == before[k]);
                assert(admitted_signal(before[k], symbols, windows, n - 1, lookback, recent, trend));
                let i = choose|i: int|
                    0 <= i < n - 1 && window_signal(
                        (#[trigger] symbols[i])@,
                        windows[i],
                        lookback,
                        recent,
                        trend,
                    ) == Some(before[k]);
                assert(0 <= i < n);
            } else {
                assert(window_signal(symbols[n - 1]@, windows[n - 1], lookback, recent, trend)
                    == Some(all[k]));
            }
        }
    }
}

} // verus!
