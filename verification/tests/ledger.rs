use stock_pred::analytics::{
    analyze_hourly_trade_performance, compute_global_win_loss_averages,
    find_underperforming_tokens_against_thresholds, summarize, summarize_by_day,
    summarize_by_month, summarize_by_symbol, summarize_by_week, GroupKey, GroupSummary, WinLoss,
};
use stock_pred::calendar::{hour, log_is_stale, start_of_day_millis, Moment};
use stock_pred::decimal::{scaled_product, SCALE};
use stock_pred::reporting::{
    generate_realized_report, pending_position, realize, realized_for_symbol, RealizedTrade,
    TradeLogEntry,
};

fn entry(secs: i64, symbol: &str, action: &str, price: u64, qty: u64, stop: u64) -> TradeLogEntry {
    TradeLogEntry {
        timestamp: Moment { secs, nanos: 0 },
        symbol: symbol.to_string(),
        action: action.to_string(),
        price: price * SCALE,
        qty: qty * SCALE,
        quote: price * qty * SCALE,
        stop_loss: stop * SCALE,
    }
}

fn trade(symbol: &str, secs: i64, profit: i128, qty: u64) -> RealizedTrade {
    RealizedTrade {
        symbol: symbol.to_string(),
        buy_price: SCALE,
        sell_price: SCALE,
        qty,
        profit,
        profit_pct: 0,
        timestamp: Moment { secs, nanos: 0 },
        trend: "SELL".to_string(),
    }
}

fn ledger() -> Vec<TradeLogEntry> {
    vec![
        entry(10, "APEUSDC", "BUY", 100, 3, 90),
        entry(11, "BTCUSDC", "SELL", 50, 1, 0),
        entry(12, "APEUSDC", "STOP_SET", 105, 3, 95),
        entry(13, "BTCUSDC", "BUY", 50, 2, 45),
        entry(14, "APEUSDC", "SET_", 120, 3, 108),
        entry(15, "APEUSDC", "HOLD", 120, 3, 200),
        entry(16, "APEUSDC", "SELL", 107, 3, 0),
        entry(17, "APEUSDC", "SELL", 107, 3, 0),
        entry(9, "BTCUSDC", "SET", 48, 2, 47),
        entry(18, "BTCUSDC", "SELL", 44, 2, 0),
        entry(19, "BTCUSDC", "SET", 52, 2, 46),
        entry(20, "BTCUSDC", "SELL", 46, 2, 0),
        entry(21, "ETHUSDC", "BUY", 10, 1, 9),
        entry(22, "ETHUSDC", "SET", 10, 1, 9),
        entry(23, "ETHUSDC", "BUY", 20, 5, 18),
        entry(25, "ETHUSDC", "SET", 21, 5, 19),
        entry(26, "ETHUSDC", "SELL", 19, 5, 0),
    ]
}

#[test]
fn realized_report_of_a_ledger() {
    let report = generate_realized_report(&ledger());
    assert_eq!(report.len(), 2);
    let ape = &report[0];
    assert_eq!(ape.symbol, "APEUSDC");
    assert_eq!(ape.buy_price, 100 * SCALE);
    assert_eq!(ape.sell_price, 108 * SCALE);
    assert_eq!(ape.qty, 3 * SCALE);
    assert_eq!(ape.profit, 24 * SCALE as i128);
    assert_eq!(ape.profit_pct, 8 * SCALE as i128);
    assert_eq!(ape.timestamp, Moment { secs: 16, nanos: 0 });
    assert_eq!(ape.trend, "SELL");
    let eth = &report[1];
    assert_eq!(eth.symbol, "ETHUSDC");
    assert_eq!(eth.buy_price, 20 * SCALE);
    assert_eq!(eth.sell_price, 19 * SCALE);
    assert_eq!(eth.profit, -5 * SCALE as i128);
    assert_eq!(eth.profit_pct, -5 * SCALE as i128);
    assert_eq!(eth.timestamp.secs, 26);
    assert!(generate_realized_report(&Vec::new()).is_empty());
}

#[test]
fn report_of_one_symbol() {
    let rows = ledger();
    let ape = realized_for_symbol("APEUSDC", &rows);
    assert_eq!(ape.len(), 1);
    assert_eq!(ape[0].profit, 24 * SCALE as i128);
    assert!(realized_for_symbol("BTCUSDC", &rows).is_empty());
    assert_eq!(realized_for_symbol("ETHUSDC", &rows).len(), 1);
    assert!(realized_for_symbol("NOPE", &rows).is_empty());
    assert_eq!(pending_position(&rows, "APEUSDC", 6), (Some(0), Some(4)));
    assert_eq!(pending_position(&rows, "APEUSDC", 7), (None, None));
    assert_eq!(pending_position(&rows, "BTCUSDC", 9), (Some(3), None));
    assert_eq!(pending_position(&rows, "ETHUSDC", 15), (Some(14), None));
    assert!(realize(&rows, 6).is_some());
    assert!(realize(&rows, 7).is_none());
    assert!(realize(&rows, 0).is_none());
}

#[test]
fn stop_update_must_be_later_than_the_buy() {
    let mut rows = vec![entry(10, "A", "BUY", 10, 1, 9), entry(10, "A", "SET", 10, 1, 9), entry(11, "A", "SELL", 9, 1, 0)];
    assert!(generate_realized_report(&rows).is_empty());
    rows[1].timestamp = Moment { secs: 10, nanos: 1 };
    assert_eq!(generate_realized_report(&rows).len(), 1);
}

#[test]
fn scaled_products() {
    assert_eq!(scaled_product(-5 * SCALE as i128, 3 * SCALE), -15 * SCALE as i128);
    assert_eq!(scaled_product(-(SCALE as i128), SCALE / 2), -50_000_000);
    assert_eq!(scaled_product(-1, 1), -1);
    assert_eq!(scaled_product(1, 1), 0);
    assert_eq!(scaled_product(0, u64::MAX), 0);
    assert_eq!(scaled_product(-(u64::MAX as i128), u64::MAX), -3_402_823_669_209_384_634_264_811_192_844);
    assert_eq!(scaled_product(u64::MAX as i128, u64::MAX), 3_402_823_669_209_384_634_264_811_192_843);
}

#[test]
fn summaries_by_calendar() {
    let trades = vec![
        trade("A", 1_431_648_000, 10, 1),
        trade("B", 1_431_648_000 + 3_600 * 23, -4, 2),
        trade("A", 1_431_907_200, 7, 3),
        trade("C", 1_735_689_599, 1, 4),
        trade("C", 1_735_689_600, -9, 5),
        trade("Z", i64::MAX, 100, 6),
    ];
    let day = |y: i64, m: u32, d: u32| GroupKey { a: y, b: m, c: d };
    assert_eq!(
        summarize_by_day(&trades).unwrap(),
        vec![
            GroupSummary { key: day(2015, 5, 15), profit: 6, qty: 3, trades: 2, wins: 1 },
            GroupSummary { key: day(2015, 5, 18), profit: 7, qty: 3, trades: 1, wins: 1 },
            GroupSummary { key: day(2024, 12, 31), profit: 1, qty: 4, trades: 1, wins: 1 },
            GroupSummary { key: day(2025, 1, 1), profit: -9, qty: 5, trades: 1, wins: 0 },
        ]
    );
    assert_eq!(
        summarize_by_month(&trades).unwrap(),
        vec![
            GroupSummary { key: day(2015, 5, 0), profit: 13, qty: 6, trades: 3, wins: 2 },
            GroupSummary { key: day(2024, 12, 0), profit: 1, qty: 4, trades: 1, wins: 1 },
            GroupSummary { key: day(2025, 1, 0), profit: -9, qty: 5, trades: 1, wins: 0 },
        ]
    );
    assert_eq!(
        summarize_by_week(&trades).unwrap(),
        vec![
            GroupSummary { key: day(2015, 20, 0), profit: 6, qty: 3, trades: 2, wins: 1 },
            GroupSummary { key: day(2015, 21, 0), profit: 7, qty: 3, trades: 1, wins: 1 },
            GroupSummary { key: day(2025, 1, 0), profit: -8, qty: 9, trades: 2, wins: 1 },
        ]
    );
    assert_eq!(summarize_by_day(&Vec::new()), Some(Vec::new()));
}

#[test]
fn summaries_by_hour_and_symbol() {
    let trades = vec![
        trade("A", 3_600 * 5 + 10, 10, 1),
        trade("B", 86_400 + 3_600 * 5, -4, 2),
        trade("A", -1, 7, 3),
        trade("B", 0, 0, 4),
    ];
    let key = |a: i64, b: u32| GroupKey { a, b, c: 0 };
    assert_eq!(
        analyze_hourly_trade_performance(&trades).unwrap(),
        vec![
            GroupSummary { key: key(0, 5), profit: 6, qty: 3, trades: 2, wins: 1 },
            GroupSummary { key: key(0, 23), profit: 7, qty: 3, trades: 1, wins: 1 },
            GroupSummary { key: key(0, 0), profit: 0, qty: 4, trades: 1, wins: 1 },
        ]
    );
    assert_eq!(
        summarize_by_symbol(&trades).unwrap(),
        vec![
            GroupSummary { key: key(0, 0), profit: 17, qty: 4, trades: 2, wins: 2 },
            GroupSummary { key: key(1, 0), profit: -4, qty: 6, trades: 2, wins: 1 },
        ]
    );
    let keys = vec![Some(key(7, 0)), None, Some(key(7, 0)), Some(key(8, 0))];
    assert_eq!(
        summarize(&keys, &trades).unwrap(),
        vec![
            GroupSummary { key: key(7, 0), profit: 17, qty: 4, trades: 2, wins: 2 },
            GroupSummary { key: key(8, 0), profit: 0, qty: 4, trades: 1, wins: 1 },
        ]
    );
    assert_eq!(hour(0), 0);
    assert_eq!(hour(-1), 23);
    assert_eq!(hour(-86_400), 0);
    assert_eq!(hour(-86_401), 23);
    assert_eq!(hour(3_599), 0);
    assert_eq!(hour(1_431_648_000 + 3_600 * 13 + 59), 13);
    assert_eq!(hour(i64::MIN), 8);
    assert_eq!(hour(i64::MAX), 15);
}

#[test]
fn underperforming_groups() {
    let group = |a: i64, profit: i128, trades: usize, wins: usize| GroupSummary {
        key: GroupKey { a, b: 0, c: 0 },
        profit,
        qty: 0,
        trades,
        wins,
    };
    let groups = vec![
        group(0, -10, 5, 1),
        group(1, -10, 4, 0),
        group(2, 10, 5, 1),
        group(3, -10, 5, 2),
        group(4, -1, 10, 3),
    ];
    // Win rate under 40 %, mean profit under zero.
    assert_eq!(
        find_underperforming_tokens_against_thresholds(&groups, 0, 40_000_000),
        vec![groups[0], groups[4]]
    );
    assert!(find_underperforming_tokens_against_thresholds(&groups, -2, 40_000_000).is_empty());
    assert_eq!(find_underperforming_tokens_against_thresholds(&groups, 3, 20_000_001).len(), 2);
    assert_eq!(find_underperforming_tokens_against_thresholds(&groups, 3, 20_000_000).len(), 0);
}

#[test]
fn win_and_loss_averages() {
    let trades = vec![trade("A", 0, 10, 1), trade("A", 0, -4, 1), trade("A", 0, 0, 1), trade("A", 0, -3, 1), trade("A", 0, 5, 1)];
    assert_eq!(
        compute_global_win_loss_averages(&trades),
        Some(WinLoss { avg_win: 5, avg_loss: -4, win_count: 3, loss_count: 2, win_rate: 6_000_000_000 })
    );
    assert_eq!(
        compute_global_win_loss_averages(&Vec::new()),
        Some(WinLoss { avg_win: 0, avg_loss: 0, win_count: 0, loss_count: 0, win_rate: 0 })
    );
    let thirds = vec![trade("A", 0, 1, 1), trade("A", 0, -1, 1), trade("A", 0, -1, 1)];
    assert_eq!(compute_global_win_loss_averages(&thirds).unwrap().win_rate, 3_333_333_333);
}

#[test]
fn day_start_and_stale_logs() {
    assert_eq!(start_of_day_millis(1_431_648_000_000 + 5_000), 1_431_648_000_000);
    assert_eq!(start_of_day_millis(86_399_999), 0);
    assert_eq!(start_of_day_millis(86_400_000), 86_400_000);
    assert!(log_is_stale(0, 31_536_001));
    assert!(!log_is_stale(0, 31_536_000));
    assert!(!log_is_stale(i64::MAX, i64::MIN));
    assert!(log_is_stale(i64::MIN, i64::MAX));
    assert!(Moment { secs: 1, nanos: 0 }.is_after(&Moment { secs: 0, nanos: 999 }));
    assert!(!Moment { secs: 1, nanos: 0 }.is_after(&Moment { secs: 1, nanos: 0 }));
}

#[test]
fn totals_beyond_the_limit_give_no_summary() {
    let limit: i128 = 1 << 126;
    let trades = vec![trade("A", 0, limit, 1), trade("B", 0, -5, 1), trade("A", 0, 1, 1)];
    assert_eq!(summarize_by_symbol(&trades), None);
    assert!(summarize_by_day(&trades).is_some());
    assert_eq!(compute_global_win_loss_averages(&trades), None);
    let fitting = vec![trade("A", 0, limit, 1), trade("B", 0, -5, 1), trade("A", 0, -1, 1)];
    let groups = summarize_by_symbol(&fitting).unwrap();
    assert_eq!(groups[0].profit, limit - 1);
    assert_eq!(groups[1].profit, -5);
    let figures = compute_global_win_loss_averages(&fitting).unwrap();
    assert_eq!(figures.avg_win, limit);
    assert_eq!(figures.avg_loss, -3);
    let losses = vec![trade("A", 0, -limit, 1), trade("A", 0, -1, 1)];
    assert_eq!(compute_global_win_loss_averages(&losses), None);
    assert_eq!(summarize_by_symbol(&losses), None);
    let many: Vec<GroupSummary> = summarize_by_symbol(&vec![
        trade("A", 0, -1, 1),
        trade("A", 0, -1, 1),
        trade("A", 0, -1, 1),
        trade("A", 0, -1, 1),
        trade("A", 0, -1, 1),
    ])
    .unwrap();
    assert_eq!(find_underperforming_tokens_against_thresholds(&many, i64::MAX, u64::MAX).len(), 1);
    assert_eq!(find_underperforming_tokens_against_thresholds(&many, i64::MIN, u64::MAX).len(), 0);
}
