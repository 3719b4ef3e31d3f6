//! Reading the exchange's order lists: which symbols are protected and by what,
//! which holdings still need a stop, and how many trades of a day lost money.

use vstd::prelude::*;
use crate::decimal::{amount_of, parse_amount};
use crate::exchange::Binance;
use crate::text::{concat, contains_str, lemma_views_push, listed, str_eq, views};
use crate::types::{OpenOrder, Order};

verus! {

/// Some order of the list has this symbol and this type.
pub open spec fn has_order(orders: Seq<OpenOrder>, symbol: Seq<char>, order_type: Seq<char>) -> bool {
    exists|k: int|
        0 <= k < orders.len() && (#[trigger] orders[k]).symbol@ == symbol && orders[k].type_field@
            == order_type
}

/// No string occurs twice.
pub open spec fn distinct(list: Seq<String>) -> bool {
    forall|a: int, b: int|
        0 <= a < b < list.len() ==> (#[trigger] list[a])@ != (#[trigger] list[b])@
}

/// The symbols of the orders of a type, each once, in the order of their
/// first such order.
pub open spec fn symbols_of_type_spec(orders: Seq<OpenOrder>, order_type: Seq<char>) -> Seq<
    Seq<char>,
>
    decreases orders.len(),
{
    if orders.len() == 0 {
        Seq::empty()
    } else {
        let before = symbols_of_type_spec(orders.drop_last(), order_type);
        let last = orders.last();
        if last.type_field@ == order_type && !before.contains(last.symbol@) {
            before.push(last.symbol@)
        } else {
            before
        }
    }
}

/// The symbols that have an open order of the given type, each once, in the
/// order of their first such order.
pub fn symbols_of_type(orders: &Vec<OpenOrder>, order_type: &str) -> (symbols: Vec<String>)
    ensures
        views(symbols@) == symbols_of_type_spec(orders@, order_type@),
        distinct(symbols@),
        forall|s: Seq<char>| listed(symbols@, s) <==> has_order(orders@, s, order_type@),
{
    let mut symbols: Vec<String> = Vec::new();
    let mut i: usize = 0;
    proof {
        assert(views(symbols@) =~= Seq::<Seq<char>>::empty());
    }
    while i < orders.len()
        invariant
            i <= orders.len(),
            views(symbols@) == symbols_of_type_spec(orders@.take(i as int), order_type@),
            distinct(symbols@),
            forall|s: Seq<char>|
                listed(symbols@, s) <==> has_order(orders@.take(i as int), s, order_type@),
        decreases orders.len() - i,
    {
        let ghost before = symbols@;
        let ghost seen = orders@.take(i as int);
        let ghost next = orders@.take(i + 1);
        let matches_type = str_eq(orders[i].type_field.as_str(), order_type);
        let known = contains_str(&symbols, orders[i].symbol.as_str());
        proof {
            assert(next.drop_last() =~= seen);
            let wanted = orders@[i as int].symbol@;
            if known {
                let k = choose|k: int| 0 <= k < before.len() && (#[trigger] before[k])@ == wanted;
                assert(views(before)[k] == wanted);
            }
            if views(before).contains(wanted) {
                let k = choose|k: int| 0 <= k < views(before).len() && views(before)[k] == wanted;
                assert(before[k]@ == wanted);
            }
        }
        if matches_type && !known {
            let symbol = orders[i].symbol.clone();
            proof {
                lemma_views_push(symbols@, symbol);
            }
            symbols.push(symbol);
        }
        proof {
            let cur = orders@[i as int];
            assert(next[i as int] == cur);
            assert forall|s: Seq<char>| listed(symbols@, s) <==> has_order(
                next,
                s,
                order_type@,
            ) by {
                if listed(symbols@, s) {
                    let k = choose|k: int| 0 <= k < symbols@.len() && (#[trigger] symbols@[k])@ == s;
                    if k < before.len() {
                        assert(before[k]@ == s);
                        assert(listed(before, s));
                        let m = choose|m: int|
                            0 <= m < seen.len() && (#[trigger] seen[m]).symbol@ == s
                                && seen[m].type_field@ == order_type@;
                        assert(next[m] == seen[m]);
                    } else {
                        assert(next[i as int].symbol@ == s);
                    }
                }
                if has_order(next, s, order_type@) {
                    let m = choose|m: int|
                        0 <= m < next.len() && (#[trigger] next[m]).symbol@ == s
                            && next[m].type_field@ == order_type@;
                    if m < i {
                        assert(seen[m] == next[m]);
                        assert(has_order(seen, s, order_type@));
                        assert(listed(before, s));
                        let k = choose|k: int| 0 <= k < before.len() && (#[trigger] before[k])@ == s;
                        assert(symbols@[k]@ == s);
                    } else {
                        if known {
                            let k = choose|k: int|
                                0 <= k < before.len() && (#[trigger] before[k])@ == s;
                            assert(symbols@[k]@ == s);
                        } else {
                            assert(symbols@[symbols@.len() - 1]@ == s);
                        }
                    }
                }
            }
            assert(distinct(symbols@)) by {
                assert forall|a: int, b: int| 0 <= a < b < symbols@.len() implies (
                #[trigger] symbols@[a])@ != (#[trigger] symbols@[b])@ by {
                    if b < before.len() {
                        assert(before[a]@ != before[b]@);
                    } else {
                        assert(before[a]@ != cur.symbol@);
                    }
                }
            }
        }
        i += 1;
    }
    proof {
        assert(orders@.take(i as int) =~= orders@);
    }
    symbols
}

/// The first order of the list with this symbol and this type.
pub fn find_order(orders: &Vec<OpenOrder>, symbol: &str, order_type: &str) -> (found: Option<usize>)
    ensures
        match found {
            Some(i) => i < orders@.len() && orders@[i as int].symbol@ == symbol@
                && orders@[i as int].type_field@ == order_type@ && forall|k: int|
                0 <= k < i ==> !((#[trigger] orders@[k]).symbol@ == symbol@ && orders@[k].type_field@
                    == order_type@),
            None => !has_order(orders@, symbol@, order_type@),
        },
{
    let mut i: usize = 0;
    while i < orders.len()
        invariant
            i <= orders.len(),
            forall|k: int|
                0 <= k < i ==> !((#[trigger] orders@[k]).symbol@ == symbol@ && orders@[k].type_field@
                    == order_type@),
        decreases orders.len() - i,
    {
        if str_eq(orders[i].symbol.as_str(), symbol) && str_eq(
            orders[i].type_field.as_str(),
            order_type,
        ) {
            return Some(i);
        }
        i += 1;
    }
    None
}

/// The amount a field writes; zero where it writes none that fits.
pub open spec fn amount_or_zero(field: Seq<char>) -> u64 {
    match amount_of(vstd::utf8::encode_utf8(field)) {
        Some(v) => if v <= u64::MAX {
            v as u64
        } else {
            0
        },
        None => 0,
    }
}

/// Reads an amount field, taking an unreadable one as zero.
pub fn read_amount(field: &str) -> (amount: u64)
    ensures
        amount == amount_or_zero(field@),
{
    match parse_amount(field) {
        Some(v) => v,
        None => 0,
    }
}

/// Stop price and ordered quantity of a resting stop order.
pub fn stop_and_quantity(order: &OpenOrder) -> (read: (u64, u64))
    ensures
        read.0 == amount_or_zero(order.stop_price@),
        read.1 == amount_or_zero(order.orig_qty@),
{
    (read_amount(order.stop_price.as_str()), read_amount(order.orig_qty.as_str()))
}

/// The pairs of one holding that have neither a trailing stop nor a stop-limit
/// order yet, in the order of the quote assets.
pub open spec fn bare_pairs_of(
    base: Seq<char>,
    quotes: Seq<String>,
    trailing: Seq<String>,
    stop_limit: Seq<String>,
) -> Seq<Seq<char>>
    decreases quotes.len(),
{
    if quotes.len() == 0 {
        Seq::empty()
    } else {
        let before = bare_pairs_of(base, quotes.drop_last(), trailing, stop_limit);
        let pair = base + quotes.last()@;
        if !listed(trailing, pair) && !listed(stop_limit, pair) {
            before.push(pair)
        } else {
            before
        }
    }
}

/// The pairs of a holding that still need a first stop. A holding of a quote
/// asset itself needs none.
pub fn unprotected_pairs(
    asset: &str,
    quote_assets: &Vec<String>,
    trailing: &Vec<String>,
    stop_limit: &Vec<String>,
) -> (pairs: Vec<String>)
    ensures
        views(pairs@) == if listed(quote_assets@, asset@) {
            Seq::<Seq<char>>::empty()
        } else {
            bare_pairs_of(asset@, quote_assets@, trailing@, stop_limit@)
        },
{
    let mut pairs: Vec<String> = Vec::new();
    proof {
        assert(views(pairs@) =~= Seq::<Seq<char>>::empty());
    }
    if contains_str(quote_assets, asset) {
        return pairs;
    }
    let mut j: usize = 0;
    while j < quote_assets.len()
        invariant
            j <= quote_assets.len(),
            views(pairs@) == bare_pairs_of(asset@, quote_assets@.take(j as int), trailing@, stop_limit@),
        decreases quote_assets.len() - j,
    {
        proof {
            assert(quote_assets@.take(j + 1).drop_last() =~= quote_assets@.take(j as int));
        }
        let pair = concat(asset, quote_assets[j].as_str());
        if !contains_str(trailing, pair.as_str()) && !contains_str(stop_limit, pair.as_str()) {
            proof {
                lemma_views_push(pairs@, pair);
            }
            pairs.push(pair);
        }
        j += 1;
    }
    proof {
        assert(quote_assets@.take(j as int) =~= quote_assets@);
    }
    pairs
}

/// The symbols and amounts that still need a first stop: for each holding, in
/// order, its bare pairs with the holding's amount.
pub open spec fn to_protect_spec(
    balances: Seq<(String, u64)>,
    quotes: Seq<String>,
    trailing: Seq<String>,
    stop_limit: Seq<String>,
) -> Seq<(Seq<char>, u64)>
    decreases balances.len(),
{
    if balances.len() == 0 {
        Seq::empty()
    } else {
        let before = to_protect_spec(balances.drop_last(), quotes, trailing, stop_limit);
        let holding = balances.last();
        if listed(quotes, holding.0@) {
            before
        } else {
            before + bare_pairs_of(holding.0@, quotes, trailing, stop_limit).map_values(
                |pair: Seq<char>| (pair, holding.1),
            )
        }
    }
}

/// Symbol and amount of each entry of a list.
pub open spec fn pair_views(pairs: Seq<(String, u64)>) -> Seq<(Seq<char>, u64)> {
    Seq::new(pairs.len(), |i: int| (pairs[i].0@, pairs[i].1))
}

/// Lists what the first part of a controller pass has to protect: every pair
/// of a held asset that has no protective order yet, with the held amount.
pub fn holdings_to_protect(
    balances: &Vec<(String, u64)>,
    quote_assets: &Vec<String>,
    trailing: &Vec<String>,
    stop_limit: &Vec<String>,
) -> (pairs: Vec<(String, u64)>)
    ensures
        pair_views(pairs@) == to_protect_spec(balances@, quote_assets@, trailing@, stop_limit@),
{
    let mut pairs: Vec<(String, u64)> = Vec::new();
    let mut i: usize = 0;
    proof {
        assert(pair_views(pairs@) =~= Seq::<(Seq<char>, u64)>::empty());
    }
    while i < balances.len()
        invariant
            i <= balances.len(),
            pair_views(pairs@) == to_protect_spec(
                balances@.take(i as int),
                quote_assets@,
                trailing@,
                stop_limit@,
            ),
        decreases balances.len() - i,
    {
        proof {
            assert(balances@.take(i + 1).drop_last() =~= balances@.take(i as int));
        }
        let amount = balances[i].1;
        let found = unprotected_pairs(balances[i].0.as_str(), quote_assets, trailing, stop_limit);
        let ghost before = pair_views(pairs@);
        let ghost bare = views(found@);
        let mut j: usize = 0;
        proof {
            assert(before + bare.take(0).map_values(|pair: Seq<char>| (pair, amount)) =~= before);
        }
        while j < found.len()
            invariant
                j <= found.len(),
                bare == views(found@),
                pair_views(pairs@) == before + bare.take(j as int).map_values(
                    |pair: Seq<char>| (pair, amount),
                ),
            decreases found.len() - j,
        {
            let pair = found[j].clone();
            proof {
                assert(pair_views(pairs@.push((pair, amount))) =~= pair_views(pairs@).push(
                    (pair@, amount),
                ));
                assert(bare[j as int] == pair@);
                assert((before + bare.take(j as int).map_values(
                    |pair: Seq<char>| (pair, amount),
                )).push((pair@, amount)) =~= before + bare.take(j + 1).map_values(
                    |pair: Seq<char>| (pair, amount),
                ));
            }
            pairs.push((pair, amount));
            j += 1;
        }
        proof {
            assert(bare.take(j as int) =~= bare);
            if listed(quote_assets@, balances@[i as int].0@) {
                assert(bare.map_values(|pair: Seq<char>| (pair, amount)) =~= Seq::<
                    (Seq<char>, u64),
                >::empty());
                assert(before + Seq::<(Seq<char>, u64)>::empty() =~= before);
            }
        }
        i += 1;
    }
    proof {
        assert(balances@.take(i as int) =~= balances@);
    }
    pairs
}

/// The stop-limit symbols that the exchange does not trail itself, in order.
pub open spec fn to_ratchet_spec(stop_limit: Seq<String>, trailing: Seq<String>) -> Seq<Seq<char>>
    decreases stop_limit.len(),
{
    if stop_limit.len() == 0 {
        Seq::empty()
    } else {
        let before = to_ratchet_spec(stop_limit.drop_last(), trailing);
        if listed(trailing, stop_limit.last()@) {
            before
        } else {
            before.push(stop_limit.last()@)
        }
    }
}

/// Lists what the second part of a controller pass has to ratchet: every
/// symbol with a stop-limit order and without a trailing order.
pub fn symbols_to_ratchet(stop_limit: &Vec<String>, trailing: &Vec<String>) -> (symbols: Vec<String>)
    ensures
        views(symbols@) == to_ratchet_spec(stop_limit@, trailing@),
{
    let mut symbols: Vec<String> = Vec::new();
    let mut i: usize = 0;
    proof {
        assert(views(symbols@) =~= Seq::<Seq<char>>::empty());
    }
    while i < stop_limit.len()
        invariant
            i <= stop_limit.len(),
            views(symbols@) == to_ratchet_spec(stop_limit@.take(i as int), trailing@),
        decreases stop_limit.len() - i,
    {
        proof {
            assert(stop_limit@.take(i + 1).drop_last() =~= stop_limit@.take(i as int));
        }
        if !contains_str(trailing, stop_limit[i].as_str()) {
            let symbol = stop_limit[i].clone();
            proof {
                lemma_views_push(symbols@, symbol);
            }
            symbols.push(symbol);
        }
        i += 1;
    }
    proof {
        assert(stop_limit@.take(i as int) =~= stop_limit@);
    }
    symbols
}

/// The state of the loss count: the last unmatched buy, as quote amount and
/// quantity, and the losses counted so far.
pub struct LossCount {
    pub last_buy: Option<(u64, u64)>,
    pub losses: nat,
}

/// The loss count after one more order. Only filled orders with a quantity
/// count. A buy becomes the last buy. A sell after a buy closes it: it is a
/// loss where its average price, quote over quantity, is below the buy's.
pub open spec fn count_step(state: LossCount, order: Order) -> LossCount {
    let qty = amount_or_zero(order.executed_qty@);
    let quote = amount_or_zero(order.cummulative_quote_qty@);
    if order.status@ != "FILLED"@ || qty == 0 {
        state
    } else if order.side@ == "BUY"@ {
        LossCount { last_buy: Some((quote, qty)), losses: state.losses }
    } else if order.side@ == "SELL"@ {
        match state.last_buy {
            Some((buy_quote, buy_qty)) => LossCount {
                last_buy: None,
                losses: if (quote as int) * (buy_qty as int) < (buy_quote as int) * (qty as int) {
                    state.losses + 1
                } else {
                    state.losses
                },
            },
            None => state,
        }
    } else {
        state
    }
}

/// The loss count after a list of orders, oldest first.
pub open spec fn count_after(orders: Seq<Order>) -> LossCount
    decreases orders.len(),
{
    if orders.len() == 0 {
        LossCount { last_buy: None, losses: 0 }
    } else {
        count_step(count_after(orders.drop_last()), orders.last())
    }
}

impl Binance {
    /// Counts the losing trades among a day's orders.
    pub fn count_today_losses(orders: &Vec<Order>) -> (losses: usize)
        ensures
            losses == count_after(orders@).losses,
    {
        let mut losses: usize = 0;
        let mut last_buy: Option<(u64, u64)> = None;
        let mut i: usize = 0;
        while i < orders.len()
            invariant
                i <= orders.len(),
                losses <= i,
                count_after(orders@.take(i as int)) == (LossCount { last_buy, losses: losses as nat }),
            decreases orders.len() - i,
        {
            proof {
                assert(orders@.take(i + 1).drop_last() =~= orders@.take(i as int));
            }
            let order = &orders[i];
            let qty = read_amount(order.executed_qty.as_str());
            let quote = read_amount(order.cummulative_quote_qty.as_str());
            if str_eq(order.status.as_str(), "FILLED") && qty != 0 {
                if str_eq(order.side.as_str(), "BUY") {
                    last_buy = Some((quote, qty));
                } else if str_eq(order.side.as_str(), "SELL") {
                    match last_buy {
                        Some((buy_quote, buy_qty)) => {
                            proof {
                                assert(0 <= quote as int * buy_qty as int <= 0xffff_ffff_ffff_ffff
                                    * 0xffff_ffff_ffff_ffff) by (nonlinear_arith)
                                    requires
                                        0 <= quote as int <= 0xffff_ffff_ffff_ffff,
                                        0 <= buy_qty as int <= 0xffff_ffff_ffff_ffff,
                                ;
                                assert(0 <= buy_quote as int * qty as int <= 0xffff_ffff_ffff_ffff
                                    * 0xffff_ffff_ffff_ffff) by (nonlinear_arith)
                                    requires
                                        0 <= buy_quote as int <= 0xffff_ffff_ffff_ffff,
                                        0 <= qty as int <= 0xffff_ffff_ffff_ffff,
                                ;
                            }
                            let sold: u128 = (quote as u128) * (buy_qty as u128);
                            let bought: u128 = (buy_quote as u128) * (qty as u128);
                            if sold < bought {
                                losses += 1;
                            }
                            last_buy = None;
                        },
                        None => {},
                    }
                }
            }
            i += 1;
        }
        proof {
            assert(orders@.take(i as int) =~= orders@);
        }
        losses
    }

    /// Trading pauses once the day's losses reach the allowed maximum.
    pub fn should_pause_for_losses(losses: usize, max_loss_day: u32) -> (pause: bool)
        ensures
            pause == (losses >= max_loss_day),
    {
        losses >= max_loss_day as usize
    }
}

} // verus!
