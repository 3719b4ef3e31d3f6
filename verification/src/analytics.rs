//! Summaries of the realized-profit report: by day, week, month, hour of the
//! day and symbol, and the overall win and loss averages.

use vstd::prelude::*;
use crate::calendar::{calendar_day, calendar_day_of, hour, hour_of};
use crate::decimal::{add_within, floor_div, within_limit, HUNDRED_PERCENT, SCALE};
use crate::reporting::RealizedTrade;
use crate::text::str_eq;

verus! {

/// What a group of trades is grouped by. By day: year, month, day. By month:
/// year, month, zero. By week: ISO year, ISO week, zero. By hour: zero, hour,
/// zero. By symbol: the place of the symbol's first trade, zero, zero.
#[derive(Debug, Clone, Copy, PartialEq, Eq, Structural)]
pub struct GroupKey {
    pub a: i64,
    pub b: u32,
    pub c: u32,
}

/// The totals of one group.
#[derive(Debug, Clone, Copy, PartialEq, Eq, Structural)]
pub struct GroupSummary {
    pub key: GroupKey,
    /// The sum of the profits.
    pub profit: i128,
    /// The sum of the quantities.
    pub qty: u128,
    /// The number of trades.
    pub trades: usize,
    /// The number of trades that lost nothing.
    pub wins: usize,
}

/// Totals as mathematical integers.
pub struct Totals {
    pub profit: int,
    pub qty: int,
    pub trades: int,
    pub wins: int,
}

/// The totals, over the first `n` trades, of those whose key is `key`.
pub open spec fn totals_of(
    keys: Seq<Option<GroupKey>>,
    trades: Seq<RealizedTrade>,
    key: GroupKey,
    n: int,
) -> Totals
    decreases n,
{
    if n <= 0 {
        Totals { profit: 0, qty: 0, trades: 0, wins: 0 }
    } else {
        let before = totals_of(keys, trades, key, n - 1);
        if keys[n - 1] == Some(key) {
            Totals {
                profit: before.profit + trades[n - 1].profit,
                qty: before.qty + trades[n - 1].qty,
                trades: before.trades + 1,
                wins: before.wins + if trades[n - 1].profit >= 0 {
                    1int
                } else {
                    0int
                },
            }
        } else {
            before
        }
    }
}

/// A summary holds the totals of its key over the first `n` trades.
pub open spec fn holds_totals(
    g: GroupSummary,
    keys: Seq<Option<GroupKey>>,
    trades: Seq<RealizedTrade>,
    n: int,
) -> bool {
    let t = totals_of(keys, trades, g.key, n);
    g.profit == t.profit && g.qty == t.qty && g.trades == t.trades && g.wins == t.wins
}

/// Some group of the list has this key.
pub open spec fn has_group(groups: Seq<GroupSummary>, key: GroupKey) -> bool {
    exists|j: int| 0 <= j < groups.len() && (#[trigger] groups[j]).key == key
}

/// Some trade among the first `n` has this key.
pub open spec fn key_occurs(keys: Seq<Option<GroupKey>>, key: GroupKey, n: int) -> bool {
    exists|i: int| 0 <= i < n && #[trigger] keys[i] == Some(key)
}

/// The keys that occur among the first `n` trades, each once, in the order in
/// which they first occur.
pub open spec fn keys_in_order(keys: Seq<Option<GroupKey>>, n: int) -> Seq<GroupKey>
    decreases n,
{
    if n <= 0 {
        Seq::empty()
    } else {
        let before = keys_in_order(keys, n - 1);
        match keys[n - 1] {
            Some(key) => if before.contains(key) {
                before
            } else {
                before.push(key)
            },
            None => before,
        }
    }
}

/// `groups` summarizes the first `n` trades by their keys: one group for each
/// key that occurs, in the order in which the keys first occur, none twice and
/// none else, each with its totals.
pub open spec fn is_summary(
    groups: Seq<GroupSummary>,
    keys: Seq<Option<GroupKey>>,
    trades: Seq<RealizedTrade>,
    n: int,
) -> bool {
    &&& forall|j: int| 0 <= j < groups.len() ==> holds_totals(#[trigger] groups[j], keys, trades, n)
    &&& forall|j: int, k: int|
        0 <= j < k < groups.len() ==> (#[trigger] groups[j]).key != (#[trigger] groups[k]).key
    &&& forall|key: GroupKey| has_group(groups, key) <==> key_occurs(keys, key, n)
    &&& groups.map_values(|g: GroupSummary| g.key) == keys_in_order(keys, n)
}

/// The profits of every group can be carried: each group's running total lies
/// within the limit after every trade.
pub open spec fn totals_fit(keys: Seq<Option<GroupKey>>, trades: Seq<RealizedTrade>, n: int) -> bool {
    forall|key: GroupKey, m: int|
        0 <= m <= n ==> within_limit((#[trigger] totals_of(keys, trades, key, m)).profit)
}

/// `summary` is the outcome of summarizing `trades` by `keys`: the summary
/// where every group's profit can be carried, nothing otherwise.
pub open spec fn summarizes(
    summary: Option<Vec<GroupSummary>>,
    keys: Seq<Option<GroupKey>>,
    trades: Seq<RealizedTrade>,
) -> bool {
    match summary {
        Some(groups) => totals_fit(keys, trades, trades.len() as int) && is_summary(
            groups@,
            keys,
            trades,
            trades.len() as int,
        ),
        None => !totals_fit(keys, trades, trades.len() as int),
    }
}

proof fn lemma_totals_bounded(
    keys: Seq<Option<GroupKey>>,
    trades: Seq<RealizedTrade>,
    key: GroupKey,
    n: int,
)
    requires
        0 <= n <= trades.len(),
        keys.len() == trades.len(),
    ensures
        0 <= totals_of(keys, trades, key, n).qty <= n * 0xffff_ffff_ffff_ffff,
        0 <= totals_of(keys, trades, key, n).wins <= totals_of(keys, trades, key, n).trades <= n,
        !key_occurs(keys, key, n) ==> totals_of(keys, trades, key, n) == (Totals {
            profit: 0,
            qty: 0,
            trades: 0,
            wins: 0,
        }),
        key_occurs(keys, key, n) ==> totals_of(keys, trades, key, n).trades >= 1,
    decreases n,
{
    if n > 0 {
        lemma_totals_bounded(keys, trades, key, n - 1);
        if !key_occurs(keys, key, n) {
            if key_occurs(keys, key, n - 1) {
                let i = choose|i: int| 0 <= i < n - 1 && #[trigger] keys[i] == Some(key);
                assert(keys[i] == Some(key));
            }
            if keys[n - 1] == Some(key) {
                assert(key_occurs(keys, key, n));
            }
        } else {
            let i = choose|i: int| 0 <= i < n && #[trigger] keys[i] == Some(key);
            if i < n - 1 {
                assert(key_occurs(keys, key, n - 1));
            }
        }
    }
}

fn same_key(x: &GroupKey, y: &GroupKey) -> (same: bool)
    ensures
        same == (*x == *y),
{
    x.a == y.a && x.b == y.b && x.c == y.c
}

fn find_group(groups: &Vec<GroupSummary>, key: &GroupKey) -> (found: Option<usize>)
    ensures
        match found {
            Some(j) => j < groups@.len() && groups@[j as int].key == *key,
            None => !has_group(groups@, *key),
        },
{
    let mut j: usize = 0;
    while j < groups.len()
        invariant
            j <= groups.len(),
            forall|k: int| 0 <= k < j ==> (#[trigger] groups@[k]).key != *key,
        decreases groups.len() - j,
    {
        if same_key(&groups[j].key, key) {
            return Some(j);
        }
        j += 1;
    }
    None
}

/// Groups the trades of a report by the given keys and totals each group.
/// `keys[i]` is the key of trade `i`; a trade without a key joins no group.
/// Nothing where the running profit of a group leaves the limit.
pub fn summarize(keys: &Vec<Option<GroupKey>>, trades: &Vec<RealizedTrade>) -> (summary: Option<
    Vec<GroupSummary>,
>)
    requires
        keys@.len() == trades@.len(),
    ensures
        summarizes(summary, keys@, trades@),
{
    let mut groups: Vec<GroupSummary> = Vec::new();
    let mut i: usize = 0;
    proof {
        assert forall|key: GroupKey| has_group(groups@, key) <==> key_occurs(keys@, key, 0) by {}
        assert(groups@.map_values(|g: GroupSummary| g.key) =~= Seq::<GroupKey>::empty());
    }
    while i < trades.len()
        invariant
            i <= trades.len(),
            keys@.len() == trades@.len(),
            totals_fit(keys@, trades@, i as int),
            is_summary(groups@, keys@, trades@, i as int),
        decreases trades.len() - i,
    {
        let ghost before = groups@;
        match keys[i] {
            Some(key) => {
                proof {
                    lemma_totals_bounded(keys@, trades@, key, i as int);
                    lemma_totals_bounded(keys@, trades@, key, i as int + 1);
                    assert((i + 1) * 0xffff_ffff_ffff_ffff <= 0xffff_ffff_ffff_ffff
                        * 0xffff_ffff_ffff_ffff) by (nonlinear_arith)
                        requires
                            0 <= i < 0xffff_ffff_ffff_ffff,
                    ;
                }
                let trade = &trades[i];
                let won: usize = if trade.profit >= 0 {
                    1
                } else {
                    0
                };
                let found = find_group(&groups, &key);
                proof {
                    let listed = before.map_values(|g: GroupSummary| g.key);
                    if has_group(before, key) {
                        let g = choose|g: int| 0 <= g < before.len() && (#[trigger] before[g]).key == key;
                        assert(listed[g] == key);
                    }
                    if listed.contains(key) {
                        let g = choose|g: int| 0 <= g < listed.len() && listed[g] == key;
                        assert(before[g].key == key);
                    }
                }
                let carried: i128 = match found {
                    Some(j) => groups[j].profit,
                    None => 0,
                };
                proof {
                    match found {
                        Some(j) => {
                            assert(holds_totals(before[j as int], keys@, trades@, i as int));
                        },
                        None => {
                            assert(!key_occurs(keys@, key, i as int));
                        },
                    }
                    assert(carried == totals_of(keys@, trades@, key, i as int).profit);
                    assert(totals_of(keys@, trades@, key, i as int + 1).profit == carried
                        + trade.profit);
                }
                let profit: i128 = match add_within(carried, trade.profit) {
                    Some(p) => p,
                    None => {
                        proof {
                            assert(!within_limit(
                                totals_of(keys@, trades@, key, i as int + 1).profit,
                            ));
                        }
                        return None;
                    },
                };
                match found {
                    Some(j) => {
                        let old_group = groups[j];
                        assert(holds_totals(before[j as int], keys@, trades@, i as int));
                        groups.set(
                            j,
                            GroupSummary {
                                key,
                                profit,
                                qty: old_group.qty + (trade.qty as u128),
                                trades: old_group.trades + 1,
                                wins: old_group.wins + won,
                            },
                        );
                        proof {
                            assert(groups@.map_values(|g: GroupSummary| g.key) =~= before.map_values(
                                |g: GroupSummary| g.key,
                            ));
                            assert forall|k: int| 0 <= k < groups@.len() implies holds_totals(
                                #[trigger] groups@[k],
                                keys@,
                                trades@,
                                i as int + 1,
                            ) by {
                                if k != j {
                                    assert(groups@[k] == before[k]);
                                    assert(before[k].key != before[j as int].key);
                                    assert(holds_totals(before[k], keys@, trades@, i as int));
                                }
                            }
                            assert forall|a: int, b: int| 0 <= a < b < groups@.len() implies (
                            #[trigger] groups@[a]).key != (#[trigger] groups@[b]).key by {
                                assert(groups@[a].key == before[a].key);
                                assert(groups@[b].key == before[b].key);
                            }
                            assert forall|other: GroupKey| has_group(groups@, other) <==> key_occurs(
                                keys@,
                                other,
                                i as int + 1,
                            ) by {
                                if has_group(groups@, other) {
                                    let g = choose|g: int|
                                        0 <= g < groups@.len() && (#[trigger] groups@[g]).key == other;
                                    assert(before[g].key == other);
                                    assert(has_group(before, other));
                                    let w = choose|w: int| 0 <= w < i && #[trigger] keys@[w] == Some(other);
                                    assert(keys@[w] == Some(other));
                                }
                                if key_occurs(keys@, other, i as int + 1) {
                                    let w = choose|w: int|
                                        0 <= w < i + 1 && #[trigger] keys@[w] == Some(other);
                                    if w < i {
                                        assert(key_occurs(keys@, other, i as int));
                                        assert(has_group(before, other));
                                        let g = choose|g: int|
                                            0 <= g < before.len() && (#[trigger] before[g]).key == other;
                                        assert(groups@[g].key == other);
                                    } else {
                                        assert(groups@[j as int].key == other);
                                    }
                                }
                            }
                        }
                    },
                    None => {
                        proof {
                            assert(!key_occurs(keys@, key, i as int));
                        }
                        groups.push(
                            GroupSummary {
                                key,
                                profit,
                                qty: trade.qty as u128,
                                trades: 1,
                                wins: won,
                            },
                        );
                        proof {
                            assert(groups@.map_values(|g: GroupSummary| g.key) =~= before.map_values(
                                |g: GroupSummary| g.key,
                            ).push(key));
                            assert forall|k: int| 0 <= k < groups@.len() implies holds_totals(
                                #[trigger] groups@[k],
                                keys@,
                                trades@,
                                i as int + 1,
                            ) by {
                                if k < before.len() {
                                    assert(groups@[k] == before[k]);
                                    assert(has_group(before, before[k].key));
                                    assert(holds_totals(before[k], keys@, trades@, i as int));
                                }
                            }
                            assert forall|a: int, b: int| 0 <= a < b < groups@.len() implies (
                            #[trigger] groups@[a]).key != (#[trigger] groups@[b]).key by {
                                assert(groups@[a] == before[a]);
                                if b < before.len() {
                                    assert(groups@[b] == before[b]);
                                } else {
                                    assert(has_group(before, before[a].key));
                                }
                            }
                            assert forall|other: GroupKey| has_group(groups@, other) <==> key_occurs(
                                keys@,
                                other,
                                i as int + 1,
                            ) by {
                                if has_group(groups@, other) {
                                    let g = choose|g: int|
                                        0 <= g < groups@.len() && (#[trigger] groups@[g]).key == other;
                                    if g < before.len() {
                                        assert(before[g].key == other);
                                        assert(has_group(before, other));
                                        let w = choose|w: int|
                                            0 <= w < i && #[trigger] keys@[w] == Some(other);
                                        assert(keys@[w] == Some(other));
                                    } else {
                                        assert(keys@[i as int] == Some(other));
                                    }
                                }
                                if key_occurs(keys@, other, i as int + 1) {
                                    let w = choose|w: int|
                                        0 <= w < i + 1 && #[trigger] keys@[w] == Some(other);
                                    if w < i {
                                        assert(key_occurs(keys@, other, i as int));
                                        assert(has_group(before, other));
                                        let g = choose|g: int|
                                            0 <= g < before.len() && (#[trigger] before[g]).key == other;
                                        assert(groups@[g].key == other);
                                    } else {
                                        assert(groups@[groups@.len() - 1].key == other);
                                    }
                                }
                            }
                        }
                    },
                }
            },
            None => {
                proof {
                    assert forall|other: GroupKey| has_group(groups@, other) <==> key_occurs(
                        keys@,
                        other,
                        i as int + 1,
                    ) by {
                        if has_group(groups@, other) {
                            assert(key_occurs(keys@, other, i as int));
                            let w = choose|w: int| 0 <= w < i && #[trigger] keys@[w] == Some(other);
                            assert(keys@[w] == Some(other));
                        }
                        if key_occurs(keys@, other, i as int + 1) {
                            let w = choose|w: int| 0 <= w < i + 1 && #[trigger] keys@[w] == Some(other);
                            assert(w < i);
                            assert(key_occurs(keys@, other, i as int));
                        }
                    }
                    assert forall|k: int| 0 <= k < groups@.len() implies holds_totals(
                        #[trigger] groups@[k],
                        keys@,
                        trades@,
                        i as int + 1,
                    ) by {
                        assert(holds_totals(groups@[k], keys@, trades@, i as int));
                    }
                }
            },
        }
        proof {
            assert forall|other: GroupKey, m: int| 0 <= m <= i + 1 implies within_limit(
                (#[trigger] totals_of(keys@, trades@, other, m)).profit,
            ) by {
                if m == i + 1 {
                    assert(within_limit(totals_of(keys@, trades@, other, i as int).profit));
                }
            }
        }
        i += 1;
    }
    Some(groups)
}


/// The day of a trade, where its moment has a calendar date.
pub open spec fn day_key(t: RealizedTrade) -> Option<GroupKey> {
    match calendar_day_of(t.timestamp.secs as int) {
        Some(d) => Some(GroupKey { a: d.date.year as i64, b: d.date.month, c: d.date.day }),
        None => None,
    }
}

/// The month of a trade, where its moment has a calendar date.
pub open spec fn month_key(t: RealizedTrade) -> Option<GroupKey> {
    match calendar_day_of(t.timestamp.secs as int) {
        Some(d) => Some(GroupKey { a: d.date.year as i64, b: d.date.month, c: 0 }),
        None => None,
    }
}

/// The ISO week of a trade, where its moment has one.
pub open spec fn week_key(t: RealizedTrade) -> Option<GroupKey> {
    match calendar_day_of(t.timestamp.secs as int) {
        Some(d) => Some(GroupKey { a: d.week.year as i64, b: d.week.week, c: 0 }),
        None => None,
    }
}

/// The hour of the day of a trade.
pub open spec fn hour_key(t: RealizedTrade) -> Option<GroupKey> {
    Some(GroupKey { a: 0, b: hour_of(t.timestamp.secs) as u32, c: 0 })
}

/// The place of the first trade with the symbol of trade `at`.
pub open spec fn first_of_symbol(trades: Seq<RealizedTrade>, at: int, from: int) -> int
    decreases at - from,
{
    if from < 0 || from >= at {
        at
    } else if trades[from].symbol@ == trades[at].symbol@ {
        from
    } else {
        first_of_symbol(trades, at, from + 1)
    }
}

/// Summarizes a report by calendar day.
pub fn summarize_by_day(trades: &Vec<RealizedTrade>) -> (summary: Option<Vec<GroupSummary>>)
    ensures
        summarizes(summary, Seq::new(trades@.len(), |i: int| day_key(trades@[i])), trades@),
{
    let mut keys: Vec<Option<GroupKey>> = Vec::new();
    let mut i: usize = 0;
    while i < trades.len()
        invariant
            i <= trades.len(),
            keys@.len() == i,
            forall|k: int| 0 <= k < i ==> #[trigger] keys@[k] == day_key(trades@[k]),
        decreases trades.len() - i,
    {
        let key = match calendar_day(trades[i].timestamp.secs) {
            Some(d) => Some(GroupKey { a: d.date.year as i64, b: d.date.month, c: d.date.day }),
            None => None,
        };
        keys.push(key);
        i += 1;
    }
    proof {
        assert(keys@ =~= Seq::new(trades@.len(), |i: int| day_key(trades@[i])));
    }
    summarize(&keys, trades)
}

/// Summarizes a report by calendar month.
pub fn summarize_by_month(trades: &Vec<RealizedTrade>) -> (summary: Option<Vec<GroupSummary>>)
    ensures
        summarizes(summary, Seq::new(trades@.len(), |i: int| month_key(trades@[i])), trades@),
{
    let mut keys: Vec<Option<GroupKey>> = Vec::new();
    let mut i: usize = 0;
    while i < trades.len()
        invariant
            i <= trades.len(),
            keys@.len() == i,
            forall|k: int| 0 <= k < i ==> #[trigger] keys@[k] == month_key(trades@[k]),
        decreases trades.len() - i,
    {
        let key = match calendar_day(trades[i].timestamp.secs) {
            Some(d) => Some(GroupKey { a: d.date.year as i64, b: d.date.month, c: 0 }),
            None => None,
        };
        keys.push(key);
        i += 1;
    }
    proof {
        assert(keys@ =~= Seq::new(trades@.len(), |i: int| month_key(trades@[i])));
    }
    summarize(&keys, trades)
}

/// Summarizes a report by ISO week.
pub fn summarize_by_week(trades: &Vec<RealizedTrade>) -> (summary: Option<Vec<GroupSummary>>)
    ensures
        summarizes(summary, Seq::new(trades@.len(), |i: int| week_key(trades@[i])), trades@),
{
    let mut keys: Vec<Option<GroupKey>> = Vec::new();
    let mut i: usize = 0;
    while i < trades.len()
        invariant
            i <= trades.len(),
            keys@.len() == i,
            forall|k: int| 0 <= k < i ==> #[trigger] keys@[k] == week_key(trades@[k]),
        decreases trades.len() - i,
    {
        let key = match calendar_day(trades[i].timestamp.secs) {
            Some(d) => Some(GroupKey { a: d.week.year as i64, b: d.week.week, c: 0 }),
            None => None,
        };
        keys.push(key);
        i += 1;
    }
    proof {
        assert(keys@ =~= Seq::new(trades@.len(), |i: int| week_key(trades@[i])));
    }
    summarize(&keys, trades)
}

/// Summarizes a report by the hour of the day at which each trade was sold.
pub fn analyze_hourly_trade_performance(trades: &Vec<RealizedTrade>) -> (summary: Option<Vec<GroupSummary>>)
    ensures
        summarizes(summary, Seq::new(trades@.len(), |i: int| hour_key(trades@[i])), trades@),
{
    let mut keys: Vec<Option<GroupKey>> = Vec::new();
    let mut i: usize = 0;
    while i < trades.len()
        invariant
            i <= trades.len(),
            keys@.len() == i,
            forall|k: int| 0 <= k < i ==> #[trigger] keys@[k] == hour_key(trades@[k]),
        decreases trades.len() - i,
    {
        keys.push(Some(GroupKey { a: 0, b: hour(trades[i].timestamp.secs), c: 0 }));
        i += 1;
    }
    proof {
        assert(keys@ =~= Seq::new(trades@.len(), |i: int| hour_key(trades@[i])));
    }
    summarize(&keys, trades)
}

/// The key of a trade when grouping by symbol.
pub open spec fn symbol_key(trades: Seq<RealizedTrade>, at: int) -> Option<GroupKey> {
    Some(GroupKey { a: first_of_symbol(trades, at, 0) as i64, b: 0, c: 0 })
}

/// Summarizes a report by symbol. A group's key names the place of the first
/// trade of its symbol.
pub fn summarize_by_symbol(trades: &Vec<RealizedTrade>) -> (summary: Option<Vec<GroupSummary>>)
    ensures
        summarizes(summary, Seq::new(trades@.len(), |i: int| symbol_key(trades@, i)), trades@),
{
    let mut keys: Vec<Option<GroupKey>> = Vec::new();
    let mut i: usize = 0;
    while i < trades.len()
        invariant
            i <= trades.len(),
            keys@.len() == i,
            forall|k: int| 0 <= k < i ==> #[trigger] keys@[k] == symbol_key(trades@, k),
        decreases trades.len() - i,
    {
        let mut first: usize = 0;
        while first < i && !str_eq(trades[first].symbol.as_str(), trades[i].symbol.as_str())
            invariant
                first <= i < trades.len(),
                first_of_symbol(trades@, i as int, 0) == first_of_symbol(
                    trades@,
                    i as int,
                    first as int,
                ),
            decreases i - first,
        {
            first += 1;
        }
        keys.push(Some(GroupKey { a: first as i64, b: 0, c: 0 }));
        i += 1;
    }
    proof {
        assert(keys@ =~= Seq::new(trades@.len(), |i: int| symbol_key(trades@, i)));
    }
    summarize(&keys, trades)
}

/// A group underperforms: it has at least five trades, its share of wins is
/// below `win_rate_threshold` (a fraction, in units), and its mean profit is
/// below `profit_threshold`.
pub open spec fn underperforms(g: GroupSummary, profit_threshold: i64, win_rate_threshold: u64) -> bool {
    g.trades >= 5 && (g.wins as int) * (SCALE as int) < (win_rate_threshold as int) * (
    g.trades as int) && (g.profit as int) < (profit_threshold as int) * (g.trades as int)
}

/// The groups of a list that underperform, in order.
pub open spec fn underperformers(
    groups: Seq<GroupSummary>,
    profit_threshold: i64,
    win_rate_threshold: u64,
) -> Seq<GroupSummary>
    decreases groups.len(),
{
    if groups.len() == 0 {
        Seq::empty()
    } else {
        let before = underperformers(groups.drop_last(), profit_threshold, win_rate_threshold);
        if underperforms(groups.last(), profit_threshold, win_rate_threshold) {
            before.push(groups.last())
        } else {
            before
        }
    }
}

/// Picks the groups that underperform from a summary.
pub fn find_underperforming_tokens_against_thresholds(
    groups: &Vec<GroupSummary>,
    profit_threshold: i64,
    win_rate_threshold: u64,
) -> (losers: Vec<GroupSummary>)
    ensures
        losers@ == underperformers(groups@, profit_threshold, win_rate_threshold),
{
    let mut losers: Vec<GroupSummary> = Vec::new();
    let mut j: usize = 0;
    while j < groups.len()
        invariant
            j <= groups.len(),
            losers@ == underperformers(groups@.take(j as int), profit_threshold, win_rate_threshold),
        decreases groups.len() - j,
    {
        proof {
            assert(groups@.take(j + 1).drop_last() =~= groups@.take(j as int));
        }
        let g = groups[j];
        if g.trades >= 5 {
            proof {
                assert(0 <= g.wins as int * SCALE as int <= 0xffff_ffff_ffff_ffff * 100_000_000)
                    by (nonlinear_arith)
                    requires
                        0 <= g.wins as int <= 0xffff_ffff_ffff_ffff,
                        SCALE as int == 100_000_000,
                ;
                assert(0 <= win_rate_threshold as int * g.trades as int <= 0xffff_ffff_ffff_ffff
                    * 0xffff_ffff_ffff_ffff) by (nonlinear_arith)
                    requires
                        0 <= win_rate_threshold as int <= 0xffff_ffff_ffff_ffff,
                        0 <= g.trades as int <= 0xffff_ffff_ffff_ffff,
                ;
                assert(-0x8000_0000_0000_0000 * 0xffff_ffff_ffff_ffff <= profit_threshold as int
                    * g.trades as int <= 0x8000_0000_0000_0000 * 0xffff_ffff_ffff_ffff)
                    by (nonlinear_arith)
                    requires
                        -0x8000_0000_0000_0000 <= profit_threshold as int <= 0x8000_0000_0000_0000,
                        0 <= g.trades as int <= 0xffff_ffff_ffff_ffff,
                ;
            }
            let won: u128 = (g.wins as u128) * (SCALE as u128);
            let needed: u128 = (win_rate_threshold as u128) * (g.trades as u128);
            let floor: i128 = (profit_threshold as i128) * (g.trades as i128);
            if won < needed && g.profit < floor {
                losers.push(g);
            }
        }
        j += 1;
    }
    proof {
        assert(groups@.take(j as int) =~= groups@);
    }
    losers
}

/// The overall win and loss figures of a report.
#[derive(Debug, Clone, Copy, PartialEq, Eq, Structural)]
pub struct WinLoss {
    /// Mean profit of the trades that lost nothing; zero without any.
    pub avg_win: i128,
    /// Mean profit of the losing trades; zero without any.
    pub avg_loss: i128,
    pub win_count: usize,
    pub loss_count: usize,
    /// The share of wins in percent, in units; zero for an empty report.
    pub win_rate: u64,
}

/// The sum of the profits, over the first `n` trades, of the winning trades
/// (`wins` true) or of the losing ones.
pub open spec fn side_profit(trades: Seq<RealizedTrade>, wins: bool, n: int) -> int
    decreases n,
{
    if n <= 0 {
        0
    } else {
        side_profit(trades, wins, n - 1) + if (trades[n - 1].profit >= 0) == wins {
            trades[n - 1].profit as int
        } else {
            0
        }
    }
}

/// The number, among the first `n` trades, of winning or of losing trades.
pub open spec fn side_count(trades: Seq<RealizedTrade>, wins: bool, n: int) -> int
    decreases n,
{
    if n <= 0 {
        0
    } else {
        side_count(trades, wins, n - 1) + if (trades[n - 1].profit >= 0) == wins {
            1int
        } else {
            0int
        }
    }
}

/// A mean rounded toward minus infinity; zero over nothing.
pub open spec fn mean_or_zero(total: int, count: int) -> int {
    if count > 0 {
        total / count
    } else {
        0
    }
}

/// The running totals of both sides lie within the limit after every one of
/// the first `n` trades.
pub open spec fn sides_fit(trades: Seq<RealizedTrade>, n: int) -> bool {
    forall|m: int| 0 <= m <= n ==> #[trigger] both_fit(trades, m)
}

/// The totals of the wins and of the losses over the first `m` trades lie
/// within the limit.
pub open spec fn both_fit(trades: Seq<RealizedTrade>, m: int) -> bool {
    within_limit(side_profit(trades, true, m)) && within_limit(side_profit(trades, false, m))
}

/// The figures of a report whose totals can be carried.
pub open spec fn figures_of(trades: Seq<RealizedTrade>) -> WinLoss {
    let n = trades.len() as int;
    WinLoss {
        avg_win: mean_or_zero(side_profit(trades, true, n), side_count(trades, true, n)) as i128,
        avg_loss: mean_or_zero(side_profit(trades, false, n), side_count(trades, false, n)) as i128,
        win_count: side_count(trades, true, n) as usize,
        loss_count: side_count(trades, false, n) as usize,
        win_rate: mean_or_zero(side_count(trades, true, n) * HUNDRED_PERCENT, n) as u64,
    }
}

/// Computes the overall win and loss averages and the win rate of a report.
/// Nothing where the running total of the wins or of the losses leaves the
/// limit.
pub fn compute_global_win_loss_averages(trades: &Vec<RealizedTrade>) -> (figures: Option<WinLoss>)
    ensures
        figures == if sides_fit(trades@, trades@.len() as int) {
            Some(figures_of(trades@))
        } else {
            None
        },
        figures matches Some(f) ==> f.win_count + f.loss_count == trades@.len(),
{
    let mut win_total: i128 = 0;
    let mut loss_total: i128 = 0;
    let mut win_count: usize = 0;
    let mut loss_count: usize = 0;
    let mut i: usize = 0;
    while i < trades.len()
        invariant
            i <= trades.len(),
            sides_fit(trades@, i as int),
            win_count == side_count(trades@, true, i as int),
            loss_count == side_count(trades@, false, i as int),
            win_count + loss_count == i,
            win_total == side_profit(trades@, true, i as int),
            loss_total == side_profit(trades@, false, i as int),
            0 <= win_total,
            loss_total <= 0,
        decreases trades.len() - i,
    {
        proof {
            assert(both_fit(trades@, i as int));
        }
        if trades[i].profit >= 0 {
            match add_within(win_total, trades[i].profit) {
                Some(t) => {
                    win_total = t;
                },
                None => {
                    proof {
                        assert(!both_fit(trades@, i as int + 1));
                    }
                    return None;
                },
            }
            win_count += 1;
        } else {
            match add_within(loss_total, trades[i].profit) {
                Some(t) => {
                    loss_total = t;
                },
                None => {
                    proof {
                        assert(!both_fit(trades@, i as int + 1));
                    }
                    return None;
                },
            }
            loss_count += 1;
        }
        proof {
            assert(both_fit(trades@, i as int + 1));
        }
        i += 1;
    }
    proof {
        assert(both_fit(trades@, i as int));
    }
    let avg_win: i128 = if win_count > 0 {
        floor_div(win_total, win_count as u64)
    } else {
        0
    };
    let avg_loss: i128 = if loss_count > 0 {
        floor_div(loss_total, loss_count as u64)
    } else {
        0
    };
    let total = trades.len();
    let win_rate: u64 = if total > 0 {
        proof {
            assert(0 <= win_count as int * 10_000_000_000 <= total as int * 10_000_000_000)
                by (nonlinear_arith)
                requires
                    0 <= win_count <= total,
            ;
            assert(total as int * 10_000_000_000 <= 0xffff_ffff_ffff_ffff * 10_000_000_000)
                by (nonlinear_arith)
                requires
                    total <= 0xffff_ffff_ffff_ffff,
            ;
            vstd::arithmetic::div_mod::lemma_div_is_ordered(
                win_count as int * 10_000_000_000,
                total as int * 10_000_000_000,
                total as int,
            );
            vstd::arithmetic::div_mod::lemma_div_multiples_vanish(10_000_000_000, total as int);
            vstd::arithmetic::div_mod::lemma_div_pos_is_pos(
                win_count as int * 10_000_000_000,
                total as int,
            );
        }
        (((win_count as u128) * (HUNDRED_PERCENT as u128)) / (total as u128)) as u64
    } else {
        0
    };
    Some(WinLoss { avg_win, avg_loss, win_count, loss_count, win_rate })
}

} // verus!
