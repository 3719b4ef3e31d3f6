use stock_pred::discovery::{
    calculate_fluctuations, candidates, collect_signals, evaluate_klines, expand_holdings_to_pairs,
    has_budget, invested_tokens, is_admitted, market_trend, passes_filter, read_price,
    plan_scan, read_window, scan_candidates, tradable_tokens, RawKline, WindowPrices,
};
use stock_pred::decimal::SCALE;
use stock_pred::types::{Ticker24hr, TrendDirection};

fn row(open: &str, high: &str, low: &str, close: &str) -> RawKline {
    RawKline {
        open: Some(open.to_string()),
        high: Some(high.to_string()),
        low: Some(low.to_string()),
        close: Some(close.to_string()),
        volume: Some("1000".to_string()),
    }
}

fn rising_window() -> Vec<RawKline> {
    vec![
        row("100", "103", "99", "102"),
        row("102", "109", "101", "108"),
        row("108.737864", "110.5", "108", "110"),
        row("110", "112.5", "109.5", "112"),
    ]
}

fn falling_window() -> Vec<RawKline> {
    vec![
        row("100", "101", "97", "98"),
        row("98", "99", "93", "94"),
        row("94", "95", "90", "91"),
        row("91", "92", "88", "89"),
    ]
}

fn ticker(symbol: &str, change: &str, volume: &str) -> Ticker24hr {
    Ticker24hr {
        symbol: symbol.to_string(),
        priceChangePercent: change.to_string(),
        quote_volume: volume.to_string(),
    }
}

fn names(list: &[&str]) -> Vec<String> {
    list.iter().map(|s| s.to_string()).collect()
}

#[test]
fn twelve_percent_window_gives_signal() {
    let signal = evaluate_klines("APEUSDC", &rising_window(), 4, 2, TrendDirection::Positive).unwrap();
    assert_eq!(signal.symbol, "APEUSDC");
    assert_eq!(signal.overall_growth, 1_200_000_000);
    assert_eq!(signal.recent_growth, 300_000_007);
    assert_eq!(signal.avg_fluct_raw, 437_500_000);
    assert_eq!(signal.avg_fluct_pct, 425_393_423);
}

#[test]
fn eight_percent_window_gives_no_signal() {
    let window = vec![
        row("100", "103", "99", "102"),
        row("102", "106", "101", "105"),
        row("105", "107", "104", "106.5"),
        row("106.5", "108.5", "106", "108"),
    ];
    assert!(evaluate_klines("APEUSDC", &window, 4, 2, TrendDirection::Positive).is_none());
}

#[test]
fn exactly_ten_percent_is_admitted() {
    let window = vec![
        row("100", "103", "99", "102"),
        row("102", "106", "101", "105"),
        row("105", "108", "104", "107"),
        row("107", "111", "106", "110"),
    ];
    let signal = evaluate_klines("X", &window, 4, 2, TrendDirection::Positive).unwrap();
    assert_eq!(signal.overall_growth, 10 * SCALE as i128);
}

#[test]
fn positive_rule_needs_every_condition() {
    // Last candle green by less than half a percent.
    let weak = vec![
        row("100", "103", "99", "102"),
        row("102", "109", "101", "108"),
        row("108", "112", "108", "111.6"),
        row("111.6", "112.5", "111", "112"),
    ];
    assert!(evaluate_klines("X", &weak, 4, 2, TrendDirection::Positive).is_none());
    // Last close not above the close before.
    let stalled = vec![
        row("100", "103", "99", "102"),
        row("102", "109", "101", "108"),
        row("108", "114", "108", "113"),
        row("111", "112.5", "110", "112"),
    ];
    assert!(evaluate_klines("X", &stalled, 4, 2, TrendDirection::Positive).is_none());
    // The rising window is no signal for a negative trend.
    assert!(evaluate_klines("X", &rising_window(), 4, 2, TrendDirection::Negative).is_none());
}

#[test]
fn falling_window_gives_negative_signal() {
    let signal = evaluate_klines("X", &falling_window(), 4, 2, TrendDirection::Negative).unwrap();
    assert_eq!(signal.overall_growth, -1_100_000_000);
    assert_eq!(signal.recent_growth, -531_914_894);
    assert_eq!(signal.avg_fluct_raw, 475_000_000);
    assert_eq!(signal.avg_fluct_pct, 516_908_358);
    assert!(evaluate_klines("X", &falling_window(), 4, 2, TrendDirection::Positive).is_none());
}

#[test]
fn short_or_malformed_window_gives_no_signal() {
    let window = rising_window();
    assert!(evaluate_klines("X", &window, 5, 2, TrendDirection::Positive).is_none());
    assert!(evaluate_klines("X", &window, 4, 0, TrendDirection::Positive).is_none());
    assert!(evaluate_klines("X", &window, 4, 5, TrendDirection::Positive).is_none());
    assert!(evaluate_klines("X", &Vec::new(), 0, 1, TrendDirection::Positive).is_none());
    let mut broken = rising_window();
    broken[3].close = Some("n/a".to_string());
    assert!(evaluate_klines("X", &broken, 4, 2, TrendDirection::Positive).is_none());
    let mut missing = rising_window();
    missing[0].open = None;
    assert!(evaluate_klines("X", &missing, 4, 2, TrendDirection::Positive).is_none());
    let mut zero = rising_window();
    zero[2].open = Some("0".to_string());
    assert!(evaluate_klines("X", &zero, 4, 2, TrendDirection::Positive).is_none());
    assert!(read_window(&window, 4, 2).is_some());
    assert_eq!(read_price(&Some("1.5".to_string())), Some(150_000_000));
    assert_eq!(read_price(&None), None);
}

#[test]
fn admission_on_prices() {
    let p = WindowPrices {
        first_open: 100 * SCALE,
        prev_open: 108 * SCALE,
        prev_close: 110 * SCALE,
        last_open: 110 * SCALE,
        last_close: 112 * SCALE,
        recent_open: 108 * SCALE,
    };
    assert!(is_admitted(&p, TrendDirection::Positive));
    assert!(!is_admitted(&p, TrendDirection::Negative));
    let q = WindowPrices { last_close: 10_999_999_999, ..p };
    assert!(!is_admitted(&q, TrendDirection::Positive));
}

#[test]
fn fluctuations_skip_unreadable_candles() {
    let mut window = rising_window();
    window[1].high = Some("oops".to_string());
    window[2].low = Some("0".to_string());
    let (raw, pct) = calculate_fluctuations(&window).unwrap();
    // Candles 0 and 3 remain: ranges 4 and 3, relative 4/99 and 3/109.5.
    assert_eq!(raw, 350_000_000);
    assert_eq!(pct, (404_040_404 + 273_972_602) / 2);
    assert_eq!(calculate_fluctuations(&Vec::new()), Some((0, 0)));
}

#[test]
fn holdings_expand_against_other_quotes() {
    let holdings = vec![("BTC".to_string(), 5), ("ETH".to_string(), 0), ("USDC".to_string(), 7)];
    let quotes = names(&["USDC", "USDT"]);
    assert_eq!(expand_holdings_to_pairs(&holdings, &quotes), names(&["BTCUSDC", "BTCUSDT", "USDCUSDT"]));
    assert!(expand_holdings_to_pairs(&Vec::new(), &quotes).is_empty());
    assert_eq!(
        invested_tokens(names(&["APEUSDC"]), &holdings, &quotes),
        names(&["APEUSDC", "BTCUSDC", "BTCUSDT", "USDCUSDT"])
    );
}

#[test]
fn market_trend_by_share_of_risers() {
    let up = vec![ticker("A", "1.0", "1"), ticker("B", "-2", "1")];
    assert_eq!(market_trend(&up), TrendDirection::Positive);
    let down = vec![ticker("A", "1.0", "1"), ticker("B", "-2", "1"), ticker("C", "bad", "1")];
    assert_eq!(market_trend(&down), TrendDirection::Negative);
    assert_eq!(market_trend(&Vec::new()), TrendDirection::Negative);
    assert_eq!(market_trend(&vec![ticker("A", "0", "1")]), TrendDirection::Negative);
}

#[test]
fn scan_filter() {
    let tickers = vec![
        ticker("apeusdc", "12.5", "600000"),
        ticker("THINUSDC", "30", "499999.99"),
        ticker("HELDUSDC", "3", "900000"),
        ticker("BADUSDC", "x", "900000"),
        ticker("SCAMUSDC", "3", "900000"),
        ticker("DOWNUSDT", "-4.25", "500000"),
        ticker("HUGEUSDT", "1", "9000000000000000"),
    ];
    let invested = names(&["HELDUSDC"]);
    let excluded = names(&["SCAMUSDC"]);
    let tokens = tradable_tokens(&tickers, 500_000, &invested, &excluded);
    assert_eq!(
        tokens,
        vec![
            ("APEUSDC".to_string(), 1_250_000_000),
            ("DOWNUSDT".to_string(), -425_000_000),
            ("HUGEUSDT".to_string(), 100_000_000),
        ]
    );
    assert_eq!(passes_filter(&tickers[0], 500_000, &invested, &excluded), Some(1_250_000_000));
    assert_eq!(passes_filter(&tickers[1], 500_000, &invested, &excluded), None);
    assert_eq!(candidates(&tokens, "USDC"), names(&["APEUSDC"]));
    assert_eq!(candidates(&tokens, "USDT"), names(&["DOWNUSDT", "HUGEUSDT"]));
    assert!(candidates(&tokens, "EUR").is_empty());
}

#[test]
fn budget_check() {
    let amounts = vec![25 * SCALE, 50 * SCALE];
    assert!(has_budget(25 * SCALE, &amounts, 0));
    assert!(!has_budget(25 * SCALE - 1, &amounts, 0));
    assert!(!has_budget(49 * SCALE, &amounts, 1));
    assert!(has_budget(10 * SCALE, &amounts, 2));
    assert!(!has_budget(10 * SCALE - 1, &amounts, 2));
}

#[test]
fn one_failed_fetch_does_not_stop_the_scan() {
    let symbols = names(&["AUSDC", "BUSDC", "CUSDC"]);
    let windows = vec![None, Some(rising_window()), Some(falling_window())];
    let signals = collect_signals(&symbols, &windows, 4, 2, TrendDirection::Positive);
    assert_eq!(signals.len(), 1);
    assert_eq!(signals[0].symbol, "BUSDC");
    assert_eq!(signals[0].overall_growth, 1_200_000_000);
}

#[test]
fn assets_without_budget_are_skipped() {
    let tokens = vec![
        ("APEUSDC".to_string(), 1i128),
        ("BTCUSDT".to_string(), 2),
        ("ETHUSDC".to_string(), 3),
        ("SOLEUR".to_string(), 4),
    ];
    let assets = names(&["USDC", "USDT", "EUR", "BTC"]);
    let balances = vec![Some(25 * SCALE), Some(SCALE), None, Some(10 * SCALE)];
    let amounts = vec![25 * SCALE, 50 * SCALE, SCALE];
    let lists = scan_candidates(&tokens, &assets, &balances, &amounts);
    assert_eq!(lists, vec![names(&["APEUSDC", "ETHUSDC"]), Vec::new(), Vec::new(), Vec::new()]);
    let richer = vec![Some(25 * SCALE), Some(50 * SCALE), Some(SCALE), None];
    assert_eq!(
        scan_candidates(&tokens, &assets, &richer, &amounts),
        vec![names(&["APEUSDC", "ETHUSDC"]), names(&["BTCUSDT"]), names(&["SOLEUR"]), Vec::new()]
    );
}

#[test]
fn long_windows_are_evaluated_like_short_ones() {
    let mut window = Vec::new();
    for _ in 0..70_000 {
        window.push(row("100", "101", "100", "100"));
    }
    window.extend(rising_window());
    let signal = evaluate_klines("LONG", &window, 4, 2, TrendDirection::Positive).unwrap();
    assert_eq!(signal.overall_growth, 1_200_000_000);
    let (raw, pct) = calculate_fluctuations(&window).unwrap();
    assert_eq!(raw, (70_000 * 100_000_000i128 + 4 * 437_500_000) / 70_004);
    assert_eq!(pct, (70_000 * 100_000_000i128 + 1_701_573_694) / 70_004);
}

#[test]
fn a_planned_scan_applies_every_filter() {
    let tickers = vec![
        ticker("apeusdc", "12.5", "600000"),
        ticker("THINUSDC", "30", "499999.99"),
        ticker("HELDUSDC", "3", "900000"),
        ticker("BADUSDC", "x", "900000"),
        ticker("SCAMUSDC", "3", "900000"),
        ticker("DOWNUSDT", "-4.25", "500000"),
        ticker("ETHUSDC", "1", "500000"),
    ];
    let lists = plan_scan(
        &tickers,
        500_000,
        &names(&["HELDUSDC"]),
        &names(&["SCAMUSDC"]),
        &names(&["USDC", "USDT", "EUR"]),
        &vec![Some(100 * SCALE), Some(SCALE), Some(100 * SCALE)],
        &vec![25 * SCALE, 50 * SCALE, 25 * SCALE],
    );
    assert_eq!(lists, vec![names(&["APEUSDC", "ETHUSDC"]), Vec::new(), Vec::new()]);
}
