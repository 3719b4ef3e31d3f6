//! What the controller reads out of the exchange's answers: balances, trading
//! pairs, order types and symbol filters.

use vstd::prelude::*;
use crate::decimal::{round_to_step, round_to_step_spec};
use crate::execution::FIVE_DECIMALS;
use crate::orders::{amount_or_zero, read_amount};
use crate::text::{concat, contains_str, listed, str_eq};
use crate::types::{AccountInfo, Balance, ExchangeInfo, SymbolFilters, SymbolInfo};

verus! {

/// The exchange's public endpoint.
pub struct Binance {
    pub base_url: String,
}

impl Binance {
    /// The client of the production endpoint.
    pub fn new() -> (client: Binance)
        ensures
            client.base_url@ == "https://api.binance.com/api/v3"@,
    {
        Binance { base_url: String::from_str("https://api.binance.com/api/v3") }
    }

    /// The address of a request: the endpoint followed by `path`.
    pub fn url(&self, path: &str) -> (address: String)
        ensures
            address@ == self.base_url@ + path@,
    {
        concat(self.base_url.as_str(), path)
    }

    /// Rounds `value` down to a multiple of `step`; zero for a zero step.
    pub fn round_to_step(value: u64, step: u64) -> (rounded: u64)
        ensures
            rounded == round_to_step_spec(value, step),
            rounded <= value,
            step == 0 ==> rounded == 0,
            step > 0 ==> rounded % step == 0 && value - rounded < step,
    {
        round_to_step(value, step)
    }

    /// The stop price of a plain trailing update: `stop_percent` percent below
    /// the price, cut to four decimals.
    pub fn calculate_stop_price(current_price: u64, stop_percent: u64) -> (stop: u64)
        ensures
            stop == crate::ratchet::candidate_stop_spec(
                current_price,
                stop_percent,
                crate::execution::FOUR_DECIMALS,
                crate::types::TrendDirection::Positive,
            ),
            stop <= current_price,
    {
        let level = crate::ratchet::stop_level(
            current_price,
            stop_percent,
            crate::types::TrendDirection::Positive,
        );
        round_to_step(level, crate::execution::FOUR_DECIMALS)
    }
}

/// One entry of a symbol's filter list, fields as the exchange sends them; a
/// field is `None` where the entry lacks it or it is not a string.
#[derive(Debug, Clone)]
pub struct RawFilter {
    pub filter_type: Option<String>,
    pub tick_size: Option<String>,
    pub min_price: Option<String>,
    pub step_size: Option<String>,
    pub min_qty: Option<String>,
    pub min_notional: Option<String>,
}

/// The amount of an optional field; zero where it is missing or unreadable.
pub open spec fn field_amount(field: Option<String>) -> u64 {
    match field {
        Some(s) => amount_or_zero(s@),
        None => 0,
    }
}

/// Reads an optional amount field.
pub fn read_field(field: &Option<String>) -> (amount: u64)
    ensures
        amount == field_amount(*field),
{
    match field {
        Some(s) => read_amount(s.as_str()),
        None => 0,
    }
}

/// The filters after one more entry: a price filter sets tick size and minimum
/// price, a lot size sets step size and minimum quantity, a minimum notional
/// sets itself; any other entry, or one without a type, changes nothing.
pub open spec fn apply_filter(filters: SymbolFilters, entry: RawFilter) -> SymbolFilters {
    match entry.filter_type {
        None => filters,
        Some(kind) => if kind@ == "PRICE_FILTER"@ {
            SymbolFilters {
                tick_size: field_amount(entry.tick_size),
                min_price: field_amount(entry.min_price),
                ..filters
            }
        } else if kind@ == "LOT_SIZE"@ {
            SymbolFilters {
                step_size: field_amount(entry.step_size),
                min_qty: field_amount(entry.min_qty),
                ..filters
            }
        } else if kind@ == "MIN_NOTIONAL"@ {
            SymbolFilters { min_notional: field_amount(entry.min_notional), ..filters }
        } else {
            filters
        },
    }
}

/// The filters that a list of entries gives, starting from all zero.
pub open spec fn filters_of(entries: Seq<RawFilter>) -> SymbolFilters
    decreases entries.len(),
{
    if entries.len() == 0 {
        SymbolFilters { tick_size: 0, step_size: 0, min_qty: 0, min_price: 0, min_notional: 0 }
    } else {
        apply_filter(filters_of(entries.drop_last()), entries.last())
    }
}

/// The first balance of the list for this asset.
pub open spec fn first_balance(balances: Seq<Balance>, asset: Seq<char>, from: int) -> Option<int>
    decreases balances.len() - from,
{
    if from < 0 || from >= balances.len() {
        None
    } else if balances[from].asset@ == asset {
        Some(from)
    } else {
        first_balance(balances, asset, from + 1)
    }
}

/// The free amount of an asset: that of its first balance, zero where the
/// account has none or the amount is unreadable.
pub open spec fn account_balance_spec(balances: Seq<Balance>, asset: Seq<char>) -> u64 {
    match first_balance(balances, asset, 0) {
        Some(i) => amount_or_zero(balances[i].free@),
        None => 0,
    }
}

/// Ten thousand units: a holding of this much or less is ignored.
pub const HOLDING_THRESHOLD: u64 = 10_000;

/// A balance counts as a holding: its free amount is above the threshold and
/// its asset is not excluded.
pub open spec fn is_holding(balance: Balance, excluded: Seq<String>) -> bool {
    amount_or_zero(balance.free@) > HOLDING_THRESHOLD && !listed(excluded, balance.asset@)
}

/// The holdings among a list of balances, as asset and free amount, in order.
pub open spec fn holdings_of(balances: Seq<Balance>, excluded: Seq<String>) -> Seq<
    (Seq<char>, u64),
>
    decreases balances.len(),
{
    if balances.len() == 0 {
        Seq::empty()
    } else {
        let before = holdings_of(balances.drop_last(), excluded);
        if is_holding(balances.last(), excluded) {
            before.push((balances.last().asset@, amount_or_zero(balances.last().free@)))
        } else {
            before
        }
    }
}

/// Asset and amount of each holding of a list.
pub open spec fn holding_views(holdings: Seq<(String, u64)>) -> Seq<(Seq<char>, u64)> {
    Seq::new(holdings.len(), |i: int| (holdings[i].0@, holdings[i].1))
}

/// A symbol is quoted in `quote_asset` and open for trading.
pub open spec fn is_trading_pair(info: SymbolInfo, quote_asset: Seq<char>) -> bool {
    info.quote_asset@ == quote_asset && info.status@ == "TRADING"@
}

/// The places of the trading pairs of a quote asset, in order.
pub open spec fn pair_places(symbols: Seq<SymbolInfo>, quote_asset: Seq<char>) -> Seq<int>
    decreases symbols.len(),
{
    if symbols.len() == 0 {
        Seq::empty()
    } else {
        let before = pair_places(symbols.drop_last(), quote_asset);
        if is_trading_pair(symbols.last(), quote_asset) {
            before.push(symbols.len() - 1)
        } else {
            before
        }
    }
}

/// The first entry of the list for this symbol.
pub open spec fn first_symbol(symbols: Seq<SymbolInfo>, symbol: Seq<char>, from: int) -> Option<int>
    decreases symbols.len() - from,
{
    if from < 0 || from >= symbols.len() {
        None
    } else if symbols[from].symbol@ == symbol {
        Some(from)
    } else {
        first_symbol(symbols, symbol, from + 1)
    }
}

/// Base and quote asset of a symbol whose quote asset has four letters: the
/// last four characters are the quote asset, the rest the base asset. Nothing
/// for a symbol that is shorter or not ASCII.
pub fn split_symbol(symbol: &str) -> (parts: Option<(String, String)>)
    ensures
        match parts {
            Some((base, quote)) => symbol.is_ascii() && symbol@.len() >= 4 && base@
                == symbol@.subrange(0, symbol@.len() - 4) && quote@ == symbol@.subrange(
                symbol@.len() - 4,
                symbol@.len() as int,
            ),
            None => !symbol.is_ascii() || symbol@.len() < 4,
        },
{
    if !symbol.is_ascii() {
        return None;
    }
    let len = symbol.unicode_len();
    if len < 4 {
        return None;
    }
    let base = String::from_str(symbol.substring_ascii(0, len - 4));
    let quote = String::from_str(symbol.substring_ascii(len - 4, len));
    Some((base, quote))
}

impl Binance {
    /// Reads a symbol's filters from the entries of its filter list. A later entry
    /// of a kind overrides an earlier one.
    pub fn get_symbol_filters(entries: &Vec<RawFilter>) -> (filters: SymbolFilters)
        ensures
            filters == filters_of(entries@),
    {
        let mut filters = SymbolFilters {
            tick_size: 0,
            step_size: 0,
            min_qty: 0,
            min_price: 0,
            min_notional: 0,
        };
        let mut i: usize = 0;
        while i < entries.len()
            invariant
                i <= entries.len(),
                filters == filters_of(entries@.take(i as int)),
            decreases entries.len() - i,
        {
            proof {
                assert(entries@.take(i + 1).drop_last() =~= entries@.take(i as int));
            }
            let entry = &entries[i];
            match &entry.filter_type {
                None => {},
                Some(kind) => {
                    if str_eq(kind.as_str(), "PRICE_FILTER") {
                        filters.tick_size = read_field(&entry.tick_size);
                        filters.min_price = read_field(&entry.min_price);
                    } else if str_eq(kind.as_str(), "LOT_SIZE") {
                        filters.step_size = read_field(&entry.step_size);
                        filters.min_qty = read_field(&entry.min_qty);
                    } else if str_eq(kind.as_str(), "MIN_NOTIONAL") {
                        filters.min_notional = read_field(&entry.min_notional);
                    }
                },
            }
            i += 1;
        }
        proof {
            assert(entries@.take(i as int) =~= entries@);
        }
        filters
    }

    /// Reads the free amount of an asset from the account.
    pub fn get_account_balance(account: &AccountInfo, asset: &str) -> (free: u64)
        ensures
            free == account_balance_spec(account.balances@, asset@),
    {
        let mut i: usize = 0;
        while i < account.balances.len()
            invariant
                i <= account.balances.len(),
                first_balance(account.balances@, asset@, 0) == first_balance(
                    account.balances@,
                    asset@,
                    i as int,
                ),
            decreases account.balances.len() - i,
        {
            if str_eq(account.balances[i].asset.as_str(), asset) {
                return read_amount(account.balances[i].free.as_str());
            }
            i += 1;
        }
        0
    }

    /// The account's spot holdings: every balance with a free amount above the
    /// threshold whose asset is not excluded.
    pub fn get_spot_balances(account: &AccountInfo, excluded_assets: &Vec<String>) -> (holdings: Vec<
        (String, u64),
    >)
        ensures
            holding_views(holdings@) == holdings_of(account.balances@, excluded_assets@),
    {
        let mut holdings: Vec<(String, u64)> = Vec::new();
        let mut i: usize = 0;
        proof {
            assert(holding_views(holdings@) =~= Seq::<(Seq<char>, u64)>::empty());
        }
        while i < account.balances.len()
            invariant
                i <= account.balances.len(),
                holding_views(holdings@) == holdings_of(
                    account.balances@.take(i as int),
                    excluded_assets@,
                ),
            decreases account.balances.len() - i,
        {
            proof {
                assert(account.balances@.take(i + 1).drop_last() =~= account.balances@.take(i as int));
            }
            let balance = &account.balances[i];
            let free = read_amount(balance.free.as_str());
            if free > HOLDING_THRESHOLD && !contains_str(excluded_assets, balance.asset.as_str()) {
                let asset = balance.asset.clone();
                proof {
                    assert(holding_views(holdings@.push((asset, free))) =~= holding_views(holdings@).push(
                        (asset@, free),
                    ));
                }
                holdings.push((asset, free));
            }
            i += 1;
        }
        proof {
            assert(account.balances@.take(i as int) =~= account.balances@);
        }
        holdings
    }

    /// The places, in the exchange's symbol list, of the pairs that are quoted in
    /// `quote_asset` and open for trading.
    pub fn get_pairs(info: &ExchangeInfo, quote_asset: &str) -> (places: Vec<usize>)
        ensures
            places@.map_values(|p: usize| p as int) == pair_places(info.symbols@, quote_asset@),
    {
        let mut places: Vec<usize> = Vec::new();
        let mut i: usize = 0;
        proof {
            assert(places@.map_values(|p: usize| p as int) =~= Seq::<int>::empty());
        }
        while i < info.symbols.len()
            invariant
                i <= info.symbols.len(),
                places@.map_values(|p: usize| p as int) == pair_places(
                    info.symbols@.take(i as int),
                    quote_asset@,
                ),
            decreases info.symbols.len() - i,
        {
            proof {
                assert(info.symbols@.take(i + 1).drop_last() =~= info.symbols@.take(i as int));
            }
            if str_eq(info.symbols[i].quote_asset.as_str(), quote_asset) && str_eq(
                info.symbols[i].status.as_str(),
                "TRADING",
            ) {
                proof {
                    assert(places@.push(i).map_values(|p: usize| p as int) =~= places@.map_values(
                        |p: usize| p as int,
                    ).push(i as int));
                }
                places.push(i);
            }
            i += 1;
        }
        proof {
            assert(info.symbols@.take(i as int) =~= info.symbols@);
        }
        places
    }

    /// Tells whether the exchange accepts an order type for a symbol: whether the
    /// symbol's first entry lists the type. A symbol without an entry supports
    /// nothing.
    pub fn symbol_supports_order_type(info: &ExchangeInfo, symbol: &str, order_type: &str) -> (supported:
        bool)
        ensures
            supported == match first_symbol(info.symbols@, symbol@, 0) {
                Some(i) => listed(info.symbols@[i].order_types@, order_type@),
                None => false,
            },
    {
        let mut i: usize = 0;
        while i < info.symbols.len()
            invariant
                i <= info.symbols.len(),
                first_symbol(info.symbols@, symbol@, 0) == first_symbol(info.symbols@, symbol@, i as int),
            decreases info.symbols.len() - i,
        {
            if str_eq(info.symbols[i].symbol.as_str(), symbol) {
                return contains_str(&info.symbols[i].order_types, order_type);
            }
            i += 1;
        }
        false
    }

    /// Tells whether the exchange trails stops itself for a symbol.
    pub fn supports_trailing_stop(info: &ExchangeInfo, symbol: &str) -> (supported: bool)
        ensures
            supported == match first_symbol(info.symbols@, symbol@, 0) {
                Some(i) => listed(info.symbols@[i].order_types@, "TRAILING_STOP_MARKET"@),
                None => false,
            },
    {
        Self::symbol_supports_order_type(info, symbol, "TRAILING_STOP_MARKET")
    }

    /// The executed quantity of an order, cut to five decimals; zero where the
    /// field is unreadable.
    pub fn get_executed_quantity(executed_qty: &str) -> (quantity: u64)
        ensures
            quantity == round_to_step_spec(amount_or_zero(executed_qty@), FIVE_DECIMALS),
    {
        round_to_step(read_amount(executed_qty), FIVE_DECIMALS)
    }

    /// The current price of a ticker; zero where the field is unreadable.
    pub fn get_price(price: &str) -> (value: u64)
        ensures
            value == amount_or_zero(price@),
    {
        read_amount(price)
    }
}

} // verus!
