use stock_pred::calendar::CivilDate;
use stock_pred::decimal::SCALE;
use stock_pred::exchange::{split_symbol, Binance, RawFilter};
use stock_pred::execution::{
    buy_token, entry_quantity, protective_order, track, update_stop_loss, update_stop_loss_pass,
    EntryError, ProtectiveOrder,
};
use stock_pred::controller::StopOrder;
use stock_pred::growth_tracker::{GrowthTracker, PriceChange};
use stock_pred::indicators::{compute_average_volume, compute_rsi};
use stock_pred::discovery::RawKline;
use stock_pred::losses::GlobalLossTracker;
use stock_pred::orders::{
    find_order, holdings_to_protect, read_amount, stop_and_quantity, symbols_of_type,
    symbols_to_ratchet, unprotected_pairs,
};
use stock_pred::types::{
    AccountInfo, Balance, ExchangeInfo, OpenOrder, Order, ProtectionMode, SymbolFilters, SymbolInfo,
    TrackedPosition, TrendDirection,
};

fn names(list: &[&str]) -> Vec<String> {
    list.iter().map(|s| s.to_string()).collect()
}

fn open_order(symbol: &str, kind: &str, stop: &str, qty: &str, id: u64) -> OpenOrder {
    OpenOrder {
        symbol: symbol.to_string(),
        type_field: kind.to_string(),
        side: "SELL".to_string(),
        price: stop.to_string(),
        orig_qty: qty.to_string(),
        executed_qty: "0".to_string(),
        status: "NEW".to_string(),
        time_in_force: "GTC".to_string(),
        stop_price: stop.to_string(),
        iceberg_qty: "0".to_string(),
        time: 1,
        update_time: 2,
        is_working: true,
        orig_quote_order_qty: "0".to_string(),
        order_id: id,
    }
}

fn order(side: &str, status: &str, qty: &str, quote: &str) -> Order {
    Order {
        symbol: "APEUSDC".to_string(),
        side: side.to_string(),
        status: status.to_string(),
        type_field: "MARKET".to_string(),
        executed_qty: qty.to_string(),
        cummulative_quote_qty: quote.to_string(),
        update_time: 0,
    }
}

fn account(balances: &[(&str, &str)]) -> AccountInfo {
    AccountInfo {
        maker_commission: 0,
        taker_commission: 0,
        buyer_commission: 0,
        seller_commission: 0,
        can_trade: true,
        can_withdraw: true,
        can_deposit: true,
        update_time: 0,
        account_type: "SPOT".to_string(),
        balances: balances
            .iter()
            .map(|(a, f)| Balance { asset: a.to_string(), free: f.to_string(), locked: "0".to_string() })
            .collect(),
        permissions: Vec::new(),
    }
}

fn exchange() -> ExchangeInfo {
    let info = |symbol: &str, status: &str, quote: &str, types: &[&str]| SymbolInfo {
        symbol: symbol.to_string(),
        status: status.to_string(),
        base_asset: symbol[..symbol.len() - quote.len()].to_string(),
        quote_asset: quote.to_string(),
        order_types: names(types),
    };
    ExchangeInfo {
        symbols: vec![
            info("APEUSDC", "TRADING", "USDC", &["LIMIT", "MARKET", "STOP_LOSS_LIMIT"]),
            info("BTCUSDT", "TRADING", "USDT", &["LIMIT", "TRAILING_STOP_MARKET"]),
            info("OLDUSDC", "BREAK", "USDC", &["LIMIT"]),
            info("ETHUSDC", "TRADING", "USDC", &["LIMIT"]),
        ],
    }
}

#[test]
fn protected_symbols_each_once() {
    let orders = vec![
        open_order("APEUSDC", "STOP_LOSS_LIMIT", "1.5", "10", 1),
        open_order("BTCUSDT", "TRAILING_STOP_MARKET", "0", "1", 2),
        open_order("APEUSDC", "STOP_LOSS_LIMIT", "1.6", "10", 3),
        open_order("ETHUSDC", "STOP_LOSS_LIMIT", "2", "3", 4),
        open_order("ETHUSDC", "LIMIT", "2", "3", 5),
    ];
    assert_eq!(symbols_of_type(&orders, "STOP_LOSS_LIMIT"), names(&["APEUSDC", "ETHUSDC"]));
    assert_eq!(symbols_of_type(&orders, "TRAILING_STOP_MARKET"), names(&["BTCUSDT"]));
    assert!(symbols_of_type(&orders, "MARKET").is_empty());
    assert_eq!(find_order(&orders, "APEUSDC", "STOP_LOSS_LIMIT"), Some(0));
    assert_eq!(find_order(&orders, "ETHUSDC", "LIMIT"), Some(4));
    assert_eq!(find_order(&orders, "BTCUSDT", "STOP_LOSS_LIMIT"), None);
    assert_eq!(stop_and_quantity(&orders[2]), (160_000_000, 10 * SCALE));
    assert_eq!(stop_and_quantity(&open_order("X", "Y", "?", "", 9)), (0, 0));
    assert_eq!(read_amount("2.25"), 225_000_000);
    assert_eq!(read_amount("NaN"), 0);
}

#[test]
fn holdings_without_protection() {
    let quotes = names(&["USDC", "USDT"]);
    let trailing = names(&["APEUSDT"]);
    let stop_limit = names(&["BTCUSDC"]);
    assert_eq!(unprotected_pairs("APE", &quotes, &trailing, &stop_limit), names(&["APEUSDC"]));
    assert_eq!(unprotected_pairs("BTC", &quotes, &trailing, &stop_limit), names(&["BTCUSDT"]));
    assert_eq!(unprotected_pairs("ETH", &quotes, &trailing, &stop_limit), names(&["ETHUSDC", "ETHUSDT"]));
    assert!(unprotected_pairs("USDC", &quotes, &trailing, &stop_limit).is_empty());
    let balances = vec![("USDC".to_string(), 500), ("APE".to_string(), 7), ("ETH".to_string(), 9)];
    assert_eq!(
        holdings_to_protect(&balances, &quotes, &trailing, &stop_limit),
        vec![("APEUSDC".to_string(), 7), ("ETHUSDC".to_string(), 9), ("ETHUSDT".to_string(), 9)]
    );
    assert_eq!(
        symbols_to_ratchet(&names(&["BTCUSDC", "APEUSDT", "ETHUSDC"]), &trailing),
        names(&["BTCUSDC", "ETHUSDC"])
    );
}

#[test]
fn losses_of_a_day() {
    let orders = vec![
        order("SELL", "FILLED", "1", "5"),
        order("BUY", "FILLED", "2", "200"),
        order("SELL", "CANCELED", "2", "100"),
        order("SELL", "FILLED", "0", "100"),
        order("SELL", "FILLED", "2", "190"),
        order("SELL", "FILLED", "2", "1"),
        order("BUY", "FILLED", "1", "100"),
        order("SELL", "FILLED", "3", "300"),
        order("BUY", "FILLED", "3", "300"),
        order("OTHER", "FILLED", "3", "1"),
        order("SELL", "FILLED", "1", "99.99999999"),
    ];
    assert_eq!(Binance::count_today_losses(&orders), 2);
    assert_eq!(Binance::count_today_losses(&Vec::new()), 0);
    assert!(Binance::should_pause_for_losses(2, 2));
    assert!(Binance::should_pause_for_losses(3, 2));
    assert!(!Binance::should_pause_for_losses(1, 2));
}

#[test]
fn loss_tracker_days_and_cooldown() {
    let monday = CivilDate { year: 2025, month: 3, day: 3 };
    let tuesday = CivilDate { year: 2025, month: 3, day: 4 };
    let mut tracker = GlobalLossTracker::new(monday);
    assert_eq!(tracker.consecutive_losses, 0);
    assert!(!tracker.is_on_cooldown(0));
    assert!(!tracker.record_loss(3, 60, monday, 1000));
    assert!(!tracker.record_loss(3, 60, monday, 1001));
    assert_eq!(tracker.cooldown_until, None);
    assert!(tracker.record_loss(3, 60, monday, 1002));
    assert_eq!(tracker.consecutive_losses, 3);
    assert_eq!(tracker.cooldown_until, Some(1062));
    assert!(tracker.is_on_cooldown(1061));
    assert!(!tracker.is_on_cooldown(1062));
    tracker.reset_if_new_day(monday);
    assert_eq!(tracker.consecutive_losses, 3);
    tracker.reset_if_new_day(tuesday);
    assert_eq!(tracker.consecutive_losses, 0);
    assert_eq!(tracker.cooldown_until, None);
    assert_eq!(tracker.last_reset_date, tuesday);
    assert!(tracker.record_loss(1, 5, monday, 7));
    assert_eq!(tracker.consecutive_losses, 1);
    assert_eq!(tracker.last_reset_date, monday);
}

#[test]
fn symbol_filters_from_entries() {
    let entry = |kind: Option<&str>| RawFilter {
        filter_type: kind.map(|k| k.to_string()),
        tick_size: Some("0.01".to_string()),
        min_price: Some("0.02".to_string()),
        step_size: Some("0.1".to_string()),
        min_qty: Some("0.2".to_string()),
        min_notional: Some("5".to_string()),
    };
    let mut lot = entry(Some("LOT_SIZE"));
    lot.min_qty = None;
    let filters = Binance::get_symbol_filters(&vec![
        entry(Some("PRICE_FILTER")),
        lot,
        entry(Some("ICEBERG_PARTS")),
        entry(None),
    ]);
    assert_eq!(
        filters,
        SymbolFilters { tick_size: 1_000_000, step_size: 10_000_000, min_qty: 0, min_price: 2_000_000, min_notional: 0 }
    );
    let with_notional = Binance::get_symbol_filters(&vec![entry(Some("MIN_NOTIONAL"))]);
    assert_eq!(with_notional.min_notional, 5 * SCALE);
    assert_eq!(with_notional.tick_size, 0);
    assert_eq!(Binance::get_symbol_filters(&Vec::new()), SymbolFilters::default());
}

#[test]
fn balances_and_holdings() {
    let acct = account(&[("USDC", "120.5"), ("APE", "0.0001"), ("BTC", "0.00010001"), ("BNB", "3"), ("BTC", "9"), ("ETH", "x")]);
    assert_eq!(Binance::get_account_balance(&acct, "USDC"), 12_050_000_000);
    assert_eq!(Binance::get_account_balance(&acct, "BTC"), 10_001);
    assert_eq!(Binance::get_account_balance(&acct, "ETH"), 0);
    assert_eq!(Binance::get_account_balance(&acct, "DOGE"), 0);
    assert_eq!(
        Binance::get_spot_balances(&acct, &names(&["BNB"])),
        vec![("USDC".to_string(), 12_050_000_000), ("BTC".to_string(), 10_001), ("BTC".to_string(), 9 * SCALE)]
    );
}

#[test]
fn pairs_and_order_types() {
    let info = exchange();
    assert_eq!(Binance::get_pairs(&info, "USDC"), vec![0, 3]);
    assert_eq!(Binance::get_pairs(&info, "USDT"), vec![1]);
    assert!(Binance::get_pairs(&info, "EUR").is_empty());
    assert!(Binance::symbol_supports_order_type(&info, "APEUSDC", "STOP_LOSS_LIMIT"));
    assert!(!Binance::symbol_supports_order_type(&info, "APEUSDC", "TRAILING_STOP_MARKET"));
    assert!(!Binance::symbol_supports_order_type(&info, "NOPE", "LIMIT"));
    assert!(Binance::supports_trailing_stop(&info, "BTCUSDT"));
    assert!(!Binance::supports_trailing_stop(&info, "ETHUSDC"));
}

#[test]
fn exchange_small_readers() {
    assert_eq!(Binance::get_executed_quantity("1.234567"), 123_456_000);
    assert_eq!(Binance::get_executed_quantity("bad"), 0);
    assert_eq!(Binance::get_price("0.5"), 50_000_000);
    assert_eq!(Binance::get_price(""), 0);
    assert_eq!(split_symbol("APEUSDC"), Some(("APE".to_string(), "USDC".to_string())));
    assert_eq!(split_symbol("USDC"), Some(("".to_string(), "USDC".to_string())));
    assert_eq!(split_symbol("ABC"), None);
    assert_eq!(split_symbol("ÄPEUSDC"), None);
    let client = Binance::new();
    assert_eq!(client.base_url, "https://api.binance.com/api/v3");
    assert_eq!(client.url("/ticker/24hr"), "https://api.binance.com/api/v3/ticker/24hr");
    assert_eq!(Binance::round_to_step(12_345_600, 10_000), 12_340_000);
    assert_eq!(Binance::round_to_step(5, 0), 0);
    assert_eq!(Binance::calculate_stop_price(12_345_678_900, 10 * SCALE), 11_111_110_000);
}

#[test]
fn entry_quantities() {
    let filters = SymbolFilters { tick_size: 1_000_000, step_size: 10_000_000, min_qty: SCALE, min_price: 0, min_notional: 0 };
    // 100 at a price of 3 buys 33.33333 units, 33.3 after the step.
    assert_eq!(Binance::calculate_quantity_for_quote(100 * SCALE, 3 * SCALE), Ok(3_333_333_000));
    assert_eq!(entry_quantity(100 * SCALE, 3 * SCALE, &filters), Ok(3_330_000_000));
    assert_eq!(Binance::calculate_quantity_for_quote(100 * SCALE, 0), Err(EntryError::ZeroPrice));
    assert_eq!(entry_quantity(100 * SCALE, 0, &filters), Err(EntryError::ZeroPrice));
    assert_eq!(entry_quantity(SCALE, 3 * SCALE, &filters), Err(EntryError::QuantityTooLow));
    assert_eq!(Binance::calculate_quantity_for_quote(u64::MAX, 1), Err(EntryError::QuantityTooLarge));
    assert_eq!(entry_quantity(u64::MAX, 1, &filters), Err(EntryError::QuantityTooLarge));
}

#[test]
fn protective_order_by_capability() {
    let filters = SymbolFilters { tick_size: 1_000_000, step_size: 10_000_000, min_qty: SCALE, min_price: 0, min_notional: 0 };
    let native = protective_order(3_337_000_000, 3 * SCALE, &filters, 5 * SCALE, true, None, TrendDirection::Positive);
    assert_eq!(
        native,
        ProtectiveOrder::Trailing { quantity: 3_330_000_000, callback_rate: 5 * SCALE, activation_price: None }
    );
    let synthetic = protective_order(3_337_000_000, 3 * SCALE, &filters, 5 * SCALE, false, Some(1), TrendDirection::Positive);
    let expected = StopOrder { quantity: 3_330_000_000, stop_price: 285_000_000 };
    assert_eq!(synthetic, ProtectiveOrder::StopLimit(expected));
    let p = track("APEUSDC".to_string(), 3 * SCALE, &synthetic, &filters, 5 * SCALE, TrendDirection::Positive);
    assert_eq!(p.protection_mode, ProtectionMode::Synthetic);
    assert_eq!(p.current_stop_price, 285_000_000);
    assert_eq!(p.quantity, 3_330_000_000);
    assert_eq!(p.entry_price, 3 * SCALE);
    let q = track("APEUSDC".to_string(), 3 * SCALE, &native, &filters, 5 * SCALE, TrendDirection::Positive);
    assert_eq!(q.protection_mode, ProtectionMode::Native);
    assert_eq!(q.current_stop_price, 285_000_000);
    let falling = protective_order(3_337_000_000, 3 * SCALE, &filters, 5 * SCALE, false, None, TrendDirection::Negative);
    assert_eq!(falling, ProtectiveOrder::StopLimit(StopOrder { quantity: 3_330_000_000, stop_price: 315_000_000 }));
}

#[test]
fn plain_trailing_update() {
    let mut order = buy_token("BTCUSDT", 50 * SCALE, 10 * SCALE).unwrap();
    assert_eq!(order.token, "BTCUSDT");
    assert_eq!(order.purchase_price, 100 * SCALE);
    assert_eq!(order.stop_loss_price, 90 * SCALE);
    // The candidate 95 is above the stop 90: the stop moves, though the price
    // is not above the purchase price.
    update_stop_loss(&mut order, 100 * SCALE, 5 * SCALE);
    assert_eq!(order.stop_loss_price, 95 * SCALE);
    update_stop_loss(&mut order, 100 * SCALE, 5 * SCALE);
    assert_eq!(order.stop_loss_price, 95 * SCALE);
    let mut low = buy_token("ETHUSDT", 50 * SCALE, 50 * SCALE).unwrap();
    assert_eq!(low.stop_loss_price, 50 * SCALE);
    update_stop_loss(&mut low, 90 * SCALE, 10 * SCALE);
    assert_eq!(low.stop_loss_price, 81 * SCALE);
    update_stop_loss(&mut low, 80 * SCALE, 10 * SCALE);
    assert_eq!(low.stop_loss_price, 81 * SCALE);
    update_stop_loss(&mut order, 120 * SCALE, 10 * SCALE);
    assert_eq!(order.stop_loss_price, 108 * SCALE);
    update_stop_loss(&mut order, 110 * SCALE, 10 * SCALE);
    assert_eq!(order.stop_loss_price, 108 * SCALE);
    assert_eq!(order.purchase_price, 100 * SCALE);
    assert_eq!(Binance::calculate_stop_price(100 * SCALE, 100 * SCALE), 0);

    let open = |stop: u64| TrackedPosition::open("X".to_string(), 100 * SCALE, SCALE, stop, ProtectionMode::Synthetic);
    let positions = vec![open(90 * SCALE), open(95 * SCALE), open(10 * SCALE)];
    let prices = vec![Some(110 * SCALE), Some(100 * SCALE), None];
    assert_eq!(update_stop_loss_pass(&positions, &prices, 10 * SCALE), vec![99 * SCALE, 95 * SCALE, 10 * SCALE]);
}

#[test]
fn growth_tracker_alarm() {
    let mut tracker = GrowthTracker::new(5 * SCALE as i128);
    assert_eq!(tracker.update(100 * SCALE), None);
    assert_eq!(tracker.update(104 * SCALE), Some(PriceChange { change: 4 * SCALE as i128, alarm: false }));
    assert_eq!(tracker.update(10_920_000_000), Some(PriceChange { change: 5 * SCALE as i128, alarm: true }));
    assert_eq!(tracker.update(0), Some(PriceChange { change: -100 * SCALE as i128, alarm: false }));
    assert_eq!(tracker.update(5), None);
    assert_eq!(tracker.last_price, Some(5));
    assert_eq!(tracker.growth_threshold, 5 * SCALE as i128);
}

#[test]
fn indicators() {
    let prices: Vec<u64> = [100u64, 102, 101, 105, 104].iter().map(|p| p * SCALE).collect();
    assert_eq!(compute_rsi(&prices, 4), Some(7_500_000_000));
    assert_eq!(compute_rsi(&prices, 1), Some(10_000_000_000));
    assert_eq!(compute_rsi(&prices, 5), None);
    assert_eq!(compute_rsi(&vec![5, 4, 3], 2), Some(0));
    assert_eq!(compute_rsi(&prices, 0), Some(10_000_000_000));
    let wild: Vec<u64> = (0..12u64).map(|k| if k % 2 == 0 { 0 } else { u64::MAX }).collect();
    assert_eq!(compute_rsi(&wild, 11), Some(5_454_545_454));
    let row = |v: Option<&str>| RawKline { open: None, high: None, low: None, close: None, volume: v.map(|s| s.to_string()) };
    assert_eq!(compute_average_volume(&vec![row(Some("10")), row(Some("x")), row(None), row(Some("15"))]), Some(1_250_000_000));
    assert_eq!(compute_average_volume(&vec![row(None)]), None);
    assert_eq!(compute_average_volume(&Vec::new()), None);
    let huge = "3402823669209384634633746074317.68211455";
    assert_eq!(compute_average_volume(&vec![row(Some(huge)), row(Some("0.00000001"))]), None);
}
