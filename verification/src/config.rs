//! The settings of the controller, as one value that is handed to whoever
//! needs it.

use vstd::prelude::*;
use vstd::string::StringSliceAdditionalSpecFns;
use crate::decimal::{amount_of, digit_run, digits_value, parse_amount};
use crate::text::{lemma_views_push, position_of, str_eq, views};

verus! {

/// All settings. Amounts and percentages are in units of 10^-8.
#[derive(Debug, Clone)]
pub struct Config {
    pub transaction_amount: u64,
    pub stop_loss_percent: u64,
    pub max_open_trades: usize,
    pub lookback_period: u16,
    pub last_hours_period: u16,
    pub loop_time_seconds: u64,
    pub bt_lookback_options: Vec<u16>,
    pub bt_recent_options: Vec<u16>,
    pub bt_stop_loss_options: Vec<u16>,
    pub order_update_interval: u64,
    pub quote_assets: Vec<String>,
    pub transaction_amounts: Vec<u64>,
    pub max_loss_day: u32,
    pub stop_loss_loop_seconds: u64,
    pub excluded_assets_spot: Vec<String>,
    pub min_volume: u64,
    pub stop_loss_percent_profit: u64,
    pub stop_loss_percent_profit_10: u64,
    pub trade_log_folder: String,
    pub log_folder: String,
    pub log_file: String,
}

/// The amount committed per trade where an asset has none configured.
pub const FALLBACK_QUOTE_AMOUNT: u64 = 500_000_000;

/// The transaction amount configured for a quote asset: the amount at the
/// asset's place in the list of quote assets (at the first place where the
/// asset is not listed), or five where the list of amounts is too short.
pub open spec fn quote_amount_spec(config: Config, quote: Seq<char>) -> u64 {
    let place = first_place(config.quote_assets@, quote, 0);
    if place < config.transaction_amounts@.len() {
        config.transaction_amounts@[place]
    } else {
        FALLBACK_QUOTE_AMOUNT
    }
}

/// The first place at or after `from` where `list` holds `item`; zero where it
/// holds it nowhere.
pub open spec fn first_place(list: Seq<String>, item: Seq<char>, from: int) -> int
    decreases list.len() - from,
{
    if from < 0 || from >= list.len() {
        0
    } else if list[from]@ == item {
        from
    } else {
        first_place(list, item, from + 1)
    }
}

proof fn lemma_first_place(list: Seq<String>, item: Seq<char>, from: int, at: int)
    requires
        0 <= from <= at < list.len(),
        list[at]@ == item,
        forall|k: int| from <= k < at ==> (#[trigger] list[k])@ != item,
    ensures
        first_place(list, item, from) == at,
    decreases at - from,
{
    if from < at {
        lemma_first_place(list, item, from + 1, at);
    }
}

proof fn lemma_no_place(list: Seq<String>, item: Seq<char>, from: int)
    requires
        0 <= from,
        forall|k: int| from <= k < list.len() ==> (#[trigger] list[k])@ != item,
    ensures
        first_place(list, item, from) == 0,
    decreases list.len() - from,
{
    if from < list.len() {
        lemma_no_place(list, item, from + 1);
    }
}

/// The amount to commit for a quote asset, and the stop-loss percentage.
pub fn get_quote_amount_and_stop_loss(config: &Config, quote: &str) -> (pair: (u64, u64))
    ensures
        pair.0 == quote_amount_spec(*config, quote@),
        pair.1 == config.stop_loss_percent,
{
    let place: usize = match position_of(&config.quote_assets, quote) {
        Some(i) => {
            proof {
                lemma_first_place(config.quote_assets@, quote@, 0, i as int);
            }
            i
        },
        None => {
            proof {
                lemma_no_place(config.quote_assets@, quote@, 0);
            }
            0
        },
    };
    let amount = if place < config.transaction_amounts.len() {
        config.transaction_amounts[place]
    } else {
        FALLBACK_QUOTE_AMOUNT
    };
    (amount, config.stop_loss_percent)
}

/// The stop-loss percentage.
pub fn get_stop_loss_percent(config: &Config) -> (value: u64)
    ensures
        value == config.stop_loss_percent,
{
    config.stop_loss_percent
}

/// The largest number of trades that may be open at once.
pub fn get_max_open_trades(config: &Config) -> (value: usize)
    ensures
        value == config.max_open_trades,
{
    config.max_open_trades
}

/// The number of candles in the window that judges the overall trend.
pub fn get_lookback_period(config: &Config) -> (value: u16)
    ensures
        value == config.lookback_period,
{
    config.lookback_period
}

/// The number of trailing candles that judge the recent trend.
pub fn get_last_hours_period(config: &Config) -> (value: u16)
    ensures
        value == config.last_hours_period,
{
    config.last_hours_period
}

/// The pause between two market scans, in seconds.
pub fn get_loop_time_seconds(config: &Config) -> (value: u64)
    ensures
        value == config.loop_time_seconds,
{
    config.loop_time_seconds
}

/// The pause between two order updates, in seconds.
pub fn get_order_update_interval(config: &Config) -> (value: u64)
    ensures
        value == config.order_update_interval,
{
    config.order_update_interval
}

/// The number of losing trades per day after which trading pauses.
pub fn get_max_loss_day(config: &Config) -> (value: u32)
    ensures
        value == config.max_loss_day,
{
    config.max_loss_day
}

/// The pause between two passes of the stop-loss controller, in seconds.
pub fn get_stop_loss_loop_seconds(config: &Config) -> (value: u64)
    ensures
        value == config.stop_loss_loop_seconds,
{
    config.stop_loss_loop_seconds
}

/// The least 24-hour quote volume of a symbol worth scanning, in whole units.
pub fn get_min_volume(config: &Config) -> (value: u64)
    ensures
        value == config.min_volume,
{
    config.min_volume
}

/// The stop-loss percentage used once a position is in profit.
pub fn get_stop_loss_percent_profit(config: &Config) -> (value: u64)
    ensures
        value == config.stop_loss_percent_profit,
{
    config.stop_loss_percent_profit
}

/// The stop-loss percentage used once a position is ten percent in profit.
pub fn get_stop_loss_percent_profit_10(config: &Config) -> (value: u64)
    ensures
        value == config.stop_loss_percent_profit_10,
{
    config.stop_loss_percent_profit_10
}

/// The folder of the trade ledger.
pub fn get_trade_log_folder(config: &Config) -> (value: String)
    ensures
        value@ == config.trade_log_folder@,
{
    config.trade_log_folder.clone()
}

/// The folder of the log files.
pub fn get_log_folder(config: &Config) -> (value: String)
    ensures
        value@ == config.log_folder@,
{
    config.log_folder.clone()
}

/// The name of the log file.
pub fn get_log_file(config: &Config) -> (value: String)
    ensures
        value@ == config.log_file@,
{
    config.log_file.clone()
}


/// The whole number that a string writes: an optional plus sign, then one or
/// more digits.
pub open spec fn unsigned_of(s: Seq<u8>) -> Option<nat> {
    let body = if s.len() > 0 && s[0] == 43 {
        s.subrange(1, s.len() as int)
    } else {
        s
    };
    if body.len() > 0 && digit_run(body, 0) == body.len() {
        Some(digits_value(body))
    } else {
        None
    }
}

/// Reads a whole number of at most `max`.
pub fn parse_unsigned(s: &str, max: u64) -> (parsed: Option<u64>)
    ensures
        parsed == match unsigned_of(s.spec_bytes()) {
            Some(v) => if v <= max {
                Some(v as u64)
            } else {
                None
            },
            None => None,
        },
{
    let all = s.as_bytes();
    let b = if all.len() > 0 && all[0] == 43 {
        vstd::slice::slice_subrange(all, 1, all.len())
    } else {
        all
    };
    let n = b.len();
    if n == 0 {
        return None;
    }
    let mut i: usize = 0;
    let mut value: u128 = 0;
    let mut over = false;
    while i < n && b[i] >= 48 && b[i] <= 57
        invariant
            n == b.len(),
            i <= n,
            digit_run(b@, 0) == digit_run(b@, i as int),
            !over ==> value == digits_value(b@.subrange(0, i as int)) && value <= u64::MAX,
            over ==> digits_value(b@.subrange(0, i as int)) > u64::MAX,
        decreases n - i,
    {
        proof {
            assert(b@.subrange(0, i + 1).drop_last() =~= b@.subrange(0, i as int));
        }
        if !over {
            value = value * 10 + ((b[i] - 48) as u128);
            if value > u64::MAX as u128 {
                over = true;
            }
        }
        i += 1;
    }
    if i != n {
        return None;
    }
    proof {
        assert(b@.subrange(0, n as int) =~= b@);
    }
    if over || value > max as u128 {
        None
    } else {
        Some(value as u64)
    }
}

/// A blank: space, tab, line feed or carriage return.
pub open spec fn is_blank(c: char) -> bool {
    c == ' ' || c == '\t' || c == '\n' || c == '\r'
}

/// The place of the first character at or after `from` and before `to` that
/// is no blank; `to` where there is none.
pub open spec fn skip_blanks(s: Seq<char>, from: int, to: int) -> int
    decreases to - from,
{
    if from < to && is_blank(s[from]) {
        skip_blanks(s, from + 1, to)
    } else {
        from
    }
}

/// The place just after the last character before `to` and at or after `from`
/// that is no blank; `from` where there is none.
pub open spec fn drop_blanks(s: Seq<char>, from: int, to: int) -> int
    decreases to - from,
{
    if from < to && is_blank(s[to - 1]) {
        drop_blanks(s, from, to - 1)
    } else {
        to
    }
}

/// The characters from `from` up to `to`, without blanks at either end.
pub open spec fn trimmed(s: Seq<char>, from: int, to: int) -> Seq<char> {
    let first = skip_blanks(s, from, to);
    s.subrange(first, drop_blanks(s, first, to))
}

/// The items of a comma-separated list, each trimmed: the item that started
/// at `start`, read on from `at`, and all that follow it.
pub open spec fn pieces(s: Seq<char>, start: int, at: int) -> Seq<Seq<char>>
    decreases s.len() - at,
{
    if at >= s.len() {
        seq![trimmed(s, start, s.len() as int)]
    } else if s[at] == ',' {
        seq![trimmed(s, start, at)] + pieces(s, at + 1, at + 1)
    } else {
        pieces(s, start, at + 1)
    }
}

/// The items of a comma-separated list, each trimmed of blanks.
pub open spec fn list_items(s: Seq<char>) -> Seq<Seq<char>> {
    pieces(s, 0, 0)
}

fn trim_piece(s: &str, from: usize, to: usize) -> (piece: String)
    requires
        from <= to <= s@.len(),
    ensures
        piece@ == trimmed(s@, from as int, to as int),
{
    let mut a: usize = from;
    while a < to && is_blank_char(s.get_char(a))
        invariant
            from <= a <= to <= s@.len(),
            skip_blanks(s@, from as int, to as int) == skip_blanks(s@, a as int, to as int),
        decreases to - a,
    {
        a += 1;
    }
    let mut b: usize = to;
    while a < b && is_blank_char(s.get_char(b - 1))
        invariant
            a <= b <= to <= s@.len(),
            drop_blanks(s@, a as int, to as int) == drop_blanks(s@, a as int, b as int),
        decreases b - a,
    {
        b -= 1;
    }
    String::from_str(s.substring_char(a, b))
}

fn is_blank_char(c: char) -> (blank: bool)
    ensures
        blank == is_blank(c),
{
    c == ' ' || c == '\t' || c == '\n' || c == '\r'
}

/// Splits a comma-separated list into its items and trims each. An empty
/// string gives one empty item.
pub fn split_list(s: &str) -> (items: Vec<String>)
    ensures
        views(items@) == list_items(s@),
{
    let len = s.unicode_len();
    let mut items: Vec<String> = Vec::new();
    let mut start: usize = 0;
    let mut at: usize = 0;
    proof {
        assert(views(items@) =~= Seq::<Seq<char>>::empty());
        assert(Seq::<Seq<char>>::empty() + pieces(s@, 0, 0) =~= pieces(s@, 0, 0));
    }
    while at < len
        invariant
            len == s@.len(),
            start <= at <= len,
            views(items@) + pieces(s@, start as int, at as int) == list_items(s@),
        decreases len - at,
    {
        if s.get_char(at) == ',' {
            let piece = trim_piece(s, start, at);
            proof {
                lemma_views_push(items@, piece);
                assert(views(items@).push(piece@) + pieces(s@, at as int + 1, at as int + 1) =~= views(
                    items@,
                ) + (seq![piece@] + pieces(s@, at as int + 1, at as int + 1)));
            }
            items.push(piece);
            start = at + 1;
        }
        at += 1;
    }
    let piece = trim_piece(s, start, len);
    proof {
        lemma_views_push(items@, piece);
        assert(views(items@).push(piece@) =~= views(items@) + seq![piece@]);
    }
    items.push(piece);
    items
}

/// The whole numbers of at most `max` among the items of a list, in order;
/// items that write none are dropped.
pub open spec fn numbers_in(items: Seq<Seq<char>>, max: u64) -> Seq<u64>
    decreases items.len(),
{
    if items.len() == 0 {
        Seq::empty()
    } else {
        let before = numbers_in(items.drop_last(), max);
        match unsigned_of(vstd::utf8::encode_utf8(items.last())) {
            Some(v) => if v <= max {
                before.push(v as u64)
            } else {
                before
            },
            None => before,
        }
    }
}

/// The amounts among the items of a list, in order; items that write none
/// are dropped.
pub open spec fn amounts_in(items: Seq<Seq<char>>) -> Seq<u64>
    decreases items.len(),
{
    if items.len() == 0 {
        Seq::empty()
    } else {
        let before = amounts_in(items.drop_last());
        match amount_of(vstd::utf8::encode_utf8(items.last())) {
            Some(v) => if v <= u64::MAX {
                before.push(v as u64)
            } else {
                before
            },
            None => before,
        }
    }
}

/// The items of a list that are not empty, in order.
pub open spec fn filled_in(items: Seq<Seq<char>>) -> Seq<Seq<char>>
    decreases items.len(),
{
    if items.len() == 0 {
        Seq::empty()
    } else {
        let before = filled_in(items.drop_last());
        if items.last().len() > 0 {
            before.push(items.last())
        } else {
            before
        }
    }
}

/// Reads a comma-separated list of whole numbers of at most `max`.
pub fn parse_number_list(s: &str, max: u64) -> (numbers: Vec<u64>)
    ensures
        numbers@ == numbers_in(list_items(s@), max),
{
    let items = split_list(s);
    let mut numbers: Vec<u64> = Vec::new();
    let mut i: usize = 0;
    while i < items.len()
        invariant
            i <= items.len(),
            numbers@ == numbers_in(views(items@).take(i as int), max),
        decreases items.len() - i,
    {
        proof {
            assert(views(items@).take(i + 1).drop_last() =~= views(items@).take(i as int));
        }
        match parse_unsigned(items[i].as_str(), max) {
            Some(v) => {
                numbers.push(v);
            },
            None => {},
        }
        i += 1;
    }
    proof {
        assert(views(items@).take(i as int) =~= views(items@));
    }
    numbers
}

/// Reads a comma-separated list of 16-bit numbers.
pub fn parse_u16_list(s: &str) -> (numbers: Vec<u16>)
    ensures
        numbers@.map_values(|v: u16| v as u64) == numbers_in(list_items(s@), 65_535),
{
    let wide = parse_number_list(s, 65_535);
    let mut numbers: Vec<u16> = Vec::new();
    let mut i: usize = 0;
    proof {
        lemma_numbers_bounded(list_items(s@), 65_535);
    }
    while i < wide.len()
        invariant
            i <= wide.len(),
            numbers@.len() == i,
            forall|k: int| 0 <= k < wide@.len() ==> #[trigger] wide@[k] <= 65_535,
            forall|k: int| 0 <= k < i ==> #[trigger] numbers@[k] as u64 == wide@[k],
        decreases wide.len() - i,
    {
        numbers.push(wide[i] as u16);
        i += 1;
    }
    proof {
        assert(numbers@.map_values(|v: u16| v as u64) =~= wide@);
    }
    numbers
}

proof fn lemma_numbers_bounded(items: Seq<Seq<char>>, max: u64)
    ensures
        forall|k: int| 0 <= k < numbers_in(items, max).len() ==> #[trigger] numbers_in(items, max)[k] <= max,
    decreases items.len(),
{
    if items.len() > 0 {
        lemma_numbers_bounded(items.drop_last(), max);
        let before = numbers_in(items.drop_last(), max);
        let all = numbers_in(items, max);
        assert forall|k: int| 0 <= k < all.len() implies #[trigger] all[k] <= max by {
            if k < before.len() {
                assert(all[k] == before[k]);
            }
        }
    }
}

/// Reads a comma-separated list of amounts.
pub fn parse_amount_list(s: &str) -> (amounts: Vec<u64>)
    ensures
        amounts@ == amounts_in(list_items(s@)),
{
    let items = split_list(s);
    let mut amounts: Vec<u64> = Vec::new();
    let mut i: usize = 0;
    while i < items.len()
        invariant
            i <= items.len(),
            amounts@ == amounts_in(views(items@).take(i as int)),
        decreases items.len() - i,
    {
        proof {
            assert(views(items@).take(i + 1).drop_last() =~= views(items@).take(i as int));
        }
        match parse_amount(items[i].as_str()) {
            Some(v) => {
                amounts.push(v);
            },
            None => {},
        }
        i += 1;
    }
    proof {
        assert(views(items@).take(i as int) =~= views(items@));
    }
    amounts
}

/// Reads a comma-separated list of names, leaving out empty items.
pub fn parse_name_list(s: &str) -> (names: Vec<String>)
    ensures
        views(names@) == filled_in(list_items(s@)),
{
    let items = split_list(s);
    let mut names: Vec<String> = Vec::new();
    let mut i: usize = 0;
    proof {
        assert(views(names@) =~= Seq::<Seq<char>>::empty());
    }
    while i < items.len()
        invariant
            i <= items.len(),
            views(names@) == filled_in(views(items@).take(i as int)),
        decreases items.len() - i,
    {
        proof {
            assert(views(items@).take(i + 1).drop_last() =~= views(items@).take(i as int));
        }
        if items[i].as_str().unicode_len() > 0 {
            let name = items[i].clone();
            proof {
                lemma_views_push(names@, name);
            }
            names.push(name);
        }
        i += 1;
    }
    proof {
        assert(views(items@).take(i as int) =~= views(items@));
    }
    names
}


/// The value of the first variable called `name`, searching from `from`.
pub open spec fn var_of(vars: Seq<(String, String)>, name: Seq<char>, from: int) -> Option<
    Seq<char>,
>
    decreases vars.len() - from,
{
    if from < 0 || from >= vars.len() {
        None
    } else if vars[from].0@ == name {
        Some(vars[from].1@)
    } else {
        var_of(vars, name, from + 1)
    }
}

/// A setting as text: the variable's value, or `missing` where it is not set.
pub open spec fn text_setting(vars: Seq<(String, String)>, name: Seq<char>, missing: Seq<char>) -> Seq<
    char,
> {
    match var_of(vars, name, 0) {
        Some(v) => v,
        None => missing,
    }
}

/// A setting as a whole number of at most `max`: the number its text writes,
/// or `unreadable` where it writes none.
pub open spec fn number_setting(
    vars: Seq<(String, String)>,
    name: Seq<char>,
    missing: Seq<char>,
    unreadable: u64,
    max: u64,
) -> u64 {
    match unsigned_of(vstd::utf8::encode_utf8(text_setting(vars, name, missing))) {
        Some(v) => if v <= max {
            v as u64
        } else {
            unreadable
        },
        None => unreadable,
    }
}

/// A setting as an amount: the amount its text writes, or `unreadable` where
/// it writes none.
pub open spec fn amount_setting(
    vars: Seq<(String, String)>,
    name: Seq<char>,
    missing: Seq<char>,
    unreadable: u64,
) -> u64 {
    match amount_of(vstd::utf8::encode_utf8(text_setting(vars, name, missing))) {
        Some(v) => if v <= u64::MAX {
            v as u64
        } else {
            unreadable
        },
        None => unreadable,
    }
}

/// Reads a setting as text.
pub fn read_text(vars: &Vec<(String, String)>, name: &str, missing: &str) -> (text: String)
    ensures
        text@ == text_setting(vars@, name@, missing@),
{
    let mut i: usize = 0;
    while i < vars.len()
        invariant
            i <= vars.len(),
            var_of(vars@, name@, 0) == var_of(vars@, name@, i as int),
        decreases vars.len() - i,
    {
        if str_eq(vars[i].0.as_str(), name) {
            return vars[i].1.clone();
        }
        i += 1;
    }
    String::from_str(missing)
}

/// Reads a setting as a whole number.
pub fn read_number(
    vars: &Vec<(String, String)>,
    name: &str,
    missing: &str,
    unreadable: u64,
    max: u64,
) -> (value: u64)
    ensures
        value == number_setting(vars@, name@, missing@, unreadable, max),
{
    let text = read_text(vars, name, missing);
    match parse_unsigned(text.as_str(), max) {
        Some(v) => v,
        None => unreadable,
    }
}

/// Reads a setting as an amount.
pub fn read_amount_setting(vars: &Vec<(String, String)>, name: &str, missing: &str, unreadable: u64) -> (value:
    u64)
    ensures
        value == amount_setting(vars@, name@, missing@, unreadable),
{
    let text = read_text(vars, name, missing);
    match parse_amount(text.as_str()) {
        Some(v) => v,
        None => unreadable,
    }
}

impl Config {
    /// Builds the settings from the variables of the environment, given as
    /// name and value. A variable that is not set takes its default text; a
    /// number or amount whose text is unreadable takes its fallback value.
    pub fn load(vars: &Vec<(String, String)>) -> (config: Config)
        ensures
            config.transaction_amount == amount_setting(
                vars@,
                "TRANSACTION_AMOUNT"@,
                "100"@,
                10_000_000_000,
            ),
            config.stop_loss_percent == amount_setting(
                vars@,
                "STOP_LOSS_PERCENT"@,
                "10"@,
                500_000_000,
            ),
            config.max_open_trades == number_setting(
                vars@,
                "MAX_OPEN_TRADES"@,
                "5"@,
                5,
                usize::MAX as u64,
            ),
            config.lookback_period == number_setting(vars@, "LOOKBACK_PERIOD"@, "48"@, 48, 65_535),
            config.last_hours_period == number_setting(
                vars@,
                "LAST_HOURS_PERIOD"@,
                "4"@,
                4,
                65_535,
            ),
            config.loop_time_seconds == number_setting(
                vars@,
                "LOOP_TIME_SECONDS"@,
                "3600"@,
                3600,
                u64::MAX,
            ),
            config.order_update_interval == number_setting(
                vars@,
                "ORDER_UPDATE_INTERVAL"@,
                "900"@,
                900,
                u64::MAX,
            ),
            config.bt_lookback_options@.map_values(|v: u16| v as u64) == numbers_in(
                list_items(text_setting(vars@, "BT_LOOKBACK_OPTIONS"@, "6,8,12"@)),
                65_535,
            ),
            config.bt_recent_options@.map_values(|v: u16| v as u64) == numbers_in(
                list_items(text_setting(vars@, "BT_RECENT_OPTIONS"@, "2,4,6"@)),
                65_535,
            ),
            config.bt_stop_loss_options@.map_values(|v: u16| v as u64) == numbers_in(
                list_items(text_setting(vars@, "BT_STOP_LOSS_OPTIONS"@, "2,4,6"@)),
                65_535,
            ),
            views(config.quote_assets@) == list_items(text_setting(vars@, "QUOTE_ASSETS"@, "USDC"@)),
            config.transaction_amounts@ == amounts_in(
                list_items(text_setting(vars@, "TRANSACTION_AMOUNTS"@, "100"@)),
            ),
            config.max_loss_day == number_setting(vars@, "MAX_LOSS_DAY"@, "5"@, 5, 0xffff_ffff),
            config.stop_loss_loop_seconds == number_setting(
                vars@,
                "LOOP_TIME_STOP_LOSS"@,
                "900"@,
                900,
                u64::MAX,
            ),
            views(config.excluded_assets_spot@) == filled_in(
                list_items(text_setting(vars@, "EXCLUDED_ASSETS_SPOT"@, ""@)),
            ),
            config.min_volume == number_setting(
                vars@,
                "MIN_VOLUME_USD"@,
                "500000"@,
                500_000,
                u64::MAX,
            ),
            config.stop_loss_percent_profit == amount_setting(
                vars@,
                "STOP_LOSS_PERCENT_PROFIT"@,
                "5"@,
                500_000_000,
            ),
            config.stop_loss_percent_profit_10 == amount_setting(
                vars@,
                "STOP_LOSS_PERCENT_PROFIT_10"@,
                "2.5"@,
                300_000_000,
            ),
            config.log_file@ == text_setting(vars@, "LOG_FILE"@, "stock_pred.log"@),
            config.log_folder@ == text_setting(vars@, "LOG_FOlDER"@, "logs/"@),
            config.trade_log_folder@ == text_setting(vars@, "TRADE_LOG_FOLDER"@, "logs/trades"@),
    {
        let lookback_options = read_text(vars, "BT_LOOKBACK_OPTIONS", "6,8,12");
        let recent_options = read_text(vars, "BT_RECENT_OPTIONS", "2,4,6");
        let stop_loss_options = read_text(vars, "BT_STOP_LOSS_OPTIONS", "2,4,6");
        let quote_assets = read_text(vars, "QUOTE_ASSETS", "USDC");
        let transaction_amounts = read_text(vars, "TRANSACTION_AMOUNTS", "100");
        let excluded = read_text(vars, "EXCLUDED_ASSETS_SPOT", "");
        Config {
            transaction_amount: read_amount_setting(vars, "TRANSACTION_AMOUNT", "100", 10_000_000_000),
            stop_loss_percent: read_amount_setting(vars, "STOP_LOSS_PERCENT", "10", 500_000_000),
            max_open_trades: read_number(vars, "MAX_OPEN_TRADES", "5", 5, usize::MAX as u64) as usize,
            lookback_period: read_number(vars, "LOOKBACK_PERIOD", "48", 48, 65_535) as u16,
            last_hours_period: read_number(vars, "LAST_HOURS_PERIOD", "4", 4, 65_535) as u16,
            loop_time_seconds: read_number(vars, "LOOP_TIME_SECONDS", "3600", 3600, u64::MAX),
            bt_lookback_options: parse_u16_list(lookback_options.as_str()),
            bt_recent_options: parse_u16_list(recent_options.as_str()),
            bt_stop_loss_options: parse_u16_list(stop_loss_options.as_str()),
            order_update_interval: read_number(vars, "ORDER_UPDATE_INTERVAL", "900", 900, u64::MAX),
            quote_assets: split_list(quote_assets.as_str()),
            transaction_amounts: parse_amount_list(transaction_amounts.as_str()),
            max_loss_day: read_number(vars, "MAX_LOSS_DAY", "5", 5, 0xffff_ffff) as u32,
            stop_loss_loop_seconds: read_number(vars, "LOOP_TIME_STOP_LOSS", "900", 900, u64::MAX),
            excluded_assets_spot: parse_name_list(excluded.as_str()),
            min_volume: read_number(vars, "MIN_VOLUME_USD", "500000", 500_000, u64::MAX),
            stop_loss_percent_profit: read_amount_setting(
                vars,
                "STOP_LOSS_PERCENT_PROFIT",
                "5",
                500_000_000,
            ),
            stop_loss_percent_profit_10: read_amount_setting(
                vars,
                "STOP_LOSS_PERCENT_PROFIT_10",
                "2.5",
                300_000_000,
            ),
            trade_log_folder: read_text(vars, "TRADE_LOG_FOLDER", "logs/trades"),
            log_folder: read_text(vars, "LOG_FOlDER", "logs/"),
            log_file: read_text(vars, "LOG_FILE", "stock_pred.log"),
        }
    }
}

/// The transaction amounts that the environment configures; one amount of
/// ten where the variable is not set.
pub fn get_transaction_amounts(vars: &Vec<(String, String)>) -> (amounts: Vec<u64>)
    ensures
        amounts@ == amounts_in(list_items(text_setting(vars@, "TRANSACTION_AMOUNTS"@, "10"@))),
{
    let text = read_text(vars, "TRANSACTION_AMOUNTS", "10");
    parse_amount_list(text.as_str())
}

/// The lookback options of the backtest.
pub fn get_lookback_options(vars: &Vec<(String, String)>) -> (options: Vec<u16>)
    ensures
        options@.map_values(|v: u16| v as u64) == numbers_in(
            list_items(text_setting(vars@, "BT_LOOKBACK_OPTIONS"@, "6,8,12"@)),
            65_535,
        ),
{
    let text = read_text(vars, "BT_LOOKBACK_OPTIONS", "6,8,12");
    parse_u16_list(text.as_str())
}

/// The recent-window options of the backtest.
pub fn get_recent_options(vars: &Vec<(String, String)>) -> (options: Vec<u16>)
    ensures
        options@.map_values(|v: u16| v as u64) == numbers_in(
            list_items(text_setting(vars@, "BT_RECENT_OPTIONS"@, "2,4,6"@)),
            65_535,
        ),
{
    let text = read_text(vars, "BT_RECENT_OPTIONS", "2,4,6");
    parse_u16_list(text.as_str())
}

/// The stop-loss percentages that the backtest sweeps.
pub fn get_bt_stop_loss_options(vars: &Vec<(String, String)>) -> (options: Vec<u64>)
    ensures
        options@ == amounts_in(list_items(text_setting(vars@, "BT_STOP_LOSS_PERCENT"@, "3,5,10"@))),
{
    let text = read_text(vars, "BT_STOP_LOSS_PERCENT", "3,5,10");
    parse_amount_list(text.as_str())
}

/// The quote assets to scan.
pub fn get_quote_assets(vars: &Vec<(String, String)>) -> (assets: Vec<String>)
    ensures
        views(assets@) == list_items(text_setting(vars@, "QUOTE_ASSETS"@, "USDC"@)),
{
    let text = read_text(vars, "QUOTE_ASSETS", "USDC");
    split_list(text.as_str())
}

/// The assets that are never counted as holdings.
pub fn get_excluded_assets_spot(vars: &Vec<(String, String)>) -> (assets: Vec<String>)
    ensures
        views(assets@) == filled_in(list_items(text_setting(vars@, "EXCLUDED_ASSETS_SPOT"@, ""@))),
{
    let text = read_text(vars, "EXCLUDED_ASSETS_SPOT", "");
    parse_name_list(text.as_str())
}

} // verus!
