use stock_pred::decimal::{parse_amount, SCALE};
use stock_pred::requests::{
    account_query, all_orders_query, cancel_query, klines_path, ledger_header, ledger_row,
    market_buy_query, order_status_query, stop_loss_limit_query, symbol_path, trade_history_query,
    trailing_stop_query,
};
use stock_pred::formatting::{format_amount, number_text};
use stock_pred::signing::{sign, signed_url};

#[test]
fn signature_matches_known_vectors() {
    assert_eq!(
        sign("key", "The quick brown fox jumps over the lazy dog"),
        "f7bc83f430538424b13298e6aa6fb143ef4d59a14946175997479dbc2d1a3cd8"
    );
    let secret = "NhqPtmdSJYdKjVHjA7PZj4Mge3R5YNiP1e3UZjInClVN65XAbvqqM6A7H5fATj0j";
    let query = "symbol=LTCBTC&side=BUY&type=LIMIT&timeInForce=GTC&quantity=1&price=0.1&recvWindow=5000&timestamp=1499827319559";
    assert_eq!(sign(secret, query), "c8db56825ae71d6d79447849e617115f4a920fa2acdcab2b053c4b2838bd6b71");
    assert_ne!(sign(secret, query), sign(secret, "timestamp=1"));
    assert_ne!(sign(secret, query), sign("other", query));
    assert_eq!(
        signed_url("https://api.binance.com/api/v3", "/order", query, secret),
        format!(
            "https://api.binance.com/api/v3/order?{}&signature=c8db56825ae71d6d79447849e617115f4a920fa2acdcab2b053c4b2838bd6b71",
            query
        )
    );
}

#[test]
fn numbers_and_amounts_as_text() {
    assert_eq!(number_text(0), "0");
    assert_eq!(number_text(7), "7");
    assert_eq!(number_text(1_499_827_319_559), "1499827319559");
    assert_eq!(number_text(u64::MAX), "18446744073709551615");
    assert_eq!(format_amount(12_345_678, 4), "0.1234");
    assert_eq!(format_amount(12_345_678, 8), "0.12345678");
    assert_eq!(format_amount(12_345_678, 0), "0");
    assert_eq!(format_amount(199_999_999, 1), "1.9");
    assert_eq!(format_amount(5 * SCALE, 1), "5.0");
    assert_eq!(format_amount(100_000_001, 5), "1.00000");
    assert_eq!(format_amount(u64::MAX, 8), "184467440737.09551615");
    assert_eq!(format_amount(0, 5), "0.00000");
}

#[test]
fn order_queries() {
    assert_eq!(
        market_buy_query("APEUSDC", 3_330_000_000, 1_700_000_000_123),
        "symbol=APEUSDC&side=BUY&type=MARKET&quantity=33.30000&recvWindow=5000&timestamp=1700000000123"
    );
    assert_eq!(
        trailing_stop_query("APEUSDC", 3_330_000_000, 5 * SCALE, None, 42),
        "symbol=APEUSDC&side=SELL&type=TRAILING_STOP_MARKET&quantity=33.30000&callbackRate=5.0&recvWindow=5000&timestamp=42"
    );
    assert_eq!(
        trailing_stop_query("APEUSDC", SCALE, 250_000_000, Some(150_000_000), 42),
        "symbol=APEUSDC&side=SELL&type=TRAILING_STOP_MARKET&quantity=1.00000&callbackRate=2.5&recvWindow=5000&timestamp=42&activationPrice=1.50000000"
    );
    assert_eq!(
        stop_loss_limit_query("APEUSDC", 3_330_000_000, 285_000_000, 285_000_000, 42),
        "symbol=APEUSDC&side=SELL&type=STOP_LOSS_LIMIT&quantity=33.30000&stopPrice=2.8500&price=2.8500&timeInForce=GTC&recvWindow=5000&timestamp=42"
    );
    assert_eq!(cancel_query("APEUSDC", 77, 42), "symbol=APEUSDC&orderId=77&recvWindow=5000&timestamp=42");
    assert_eq!(order_status_query("APEUSDC", 77, 42), "symbol=APEUSDC&orderId=77&timestamp=42&recvWindow=5000");
    assert_eq!(account_query(42), "timestamp=42&recvWindow=5000");
    assert_eq!(all_orders_query(10, 20), "startTime=10&endTime=20&timestamp=20&recvWindow=5000");
    assert_eq!(trade_history_query("APEUSDC", 42, None, None), "symbol=APEUSDC&timestamp=42");
    assert_eq!(
        trade_history_query("APEUSDC", 42, Some(1), Some(2)),
        "symbol=APEUSDC&timestamp=42&startTime=1&endTime=2"
    );
    assert_eq!(trade_history_query("APEUSDC", 42, None, Some(2)), "symbol=APEUSDC&timestamp=42&endTime=2");
    assert_eq!(klines_path("APEUSDC", "1h", 48), "/klines?symbol=APEUSDC&interval=1h&limit=48");
    assert_eq!(symbol_path("/ticker/price", "APEUSDC"), "/ticker/price?symbol=APEUSDC");
}

#[test]
fn ledger_rows() {
    assert_eq!(ledger_header(), "timestamp,symbol,action,price,qty,quote,stop_loss,reason,trend");
    assert_eq!(
        ledger_row("2025-03-03T10:00:00+00:00", "APEUSDC", "STOP_SET", 312_345_678, 3_330_000_000, 10_401_111_077, 285_000_000, "ratchet", "Positive"),
        "2025-03-03T10:00:00+00:00,APEUSDC,STOP_SET,3.1234,33.3000,104.0111,2.8500,ratchet,Positive\n"
    );
}

#[test]
fn written_amounts_read_back() {
    for units in [0u64, 1, 9, 10, 99_999_999, 100_000_000, 100_000_001, 12_345_678_901, u64::MAX - 1, u64::MAX] {
        assert_eq!(parse_amount(&format_amount(units, 8)), Some(units));
    }
    assert_eq!(parse_amount(&format_amount(123_456_789, 4)), Some(123_450_000));
    assert_eq!(parse_amount(&format_amount(123_456_789, 0)), Some(100_000_000));
}
