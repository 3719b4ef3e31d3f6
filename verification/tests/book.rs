use stock_pred::book::{Observation, PositionBook, TickResult};
use stock_pred::controller::{ReplaceOutcome, StopOrder, TickAction};
use stock_pred::decimal::SCALE;
use stock_pred::types::{ProtectionMode, SymbolFilters, TrackedPosition, TrendDirection};

fn position(symbol: &str, stop: u64) -> TrackedPosition {
    TrackedPosition::open(symbol.to_string(), 100 * SCALE, 2 * SCALE, stop, ProtectionMode::Synthetic)
}

fn filters() -> SymbolFilters {
    SymbolFilters { tick_size: 1_000_000, step_size: 10_000_000, min_qty: 0, min_price: 0, min_notional: 0 }
}

#[test]
fn one_position_per_symbol() {
    let mut book = PositionBook::new(TrendDirection::Positive);
    assert!(book.track(position("APEUSDC", 90 * SCALE)));
    assert!(book.track(position("BTCUSDC", 80 * SCALE)));
    assert!(!book.track(position("APEUSDC", 95 * SCALE)));
    assert_eq!(book.positions.len(), 2);
    assert_eq!(book.positions[0].current_stop_price, 90 * SCALE);
    assert_eq!(book.find("BTCUSDC"), Some(1));
    assert_eq!(book.find("ETHUSDC"), None);
    assert!(book.retire("APEUSDC"));
    assert!(!book.retire("APEUSDC"));
    assert_eq!(book.find("BTCUSDC"), Some(0));
    assert_eq!(book.positions.len(), 1);
    assert!(book.track(position("APEUSDC", 95 * SCALE)));
}

#[test]
fn recorded_stops_never_regress() {
    let mut book = PositionBook::new(TrendDirection::Positive);
    book.track(position("APEUSDC", 90 * SCALE));
    book.track(position("BTCUSDC", 80 * SCALE));
    let outcomes = [
        ReplaceOutcome::Placed(95 * SCALE),
        ReplaceOutcome::CancelFailed,
        ReplaceOutcome::Placed(93 * SCALE),
        ReplaceOutcome::PlaceFailed,
        ReplaceOutcome::Placed(95 * SCALE),
        ReplaceOutcome::Placed(99 * SCALE),
    ];
    let mut last = 90 * SCALE;
    let mut seen = Vec::new();
    for outcome in outcomes {
        let changed = book.record("APEUSDC", outcome);
        let stop = book.positions[0].current_stop_price;
        assert!(stop >= last);
        assert_eq!(changed, stop != last);
        last = stop;
        seen.push(stop);
        assert_eq!(book.positions[1].current_stop_price, 80 * SCALE);
        assert_eq!(book.positions[0].entry_price, 100 * SCALE);
        assert_eq!(book.positions[0].symbol, "APEUSDC");
    }
    assert_eq!(seen, vec![95 * SCALE, 95 * SCALE, 95 * SCALE, 95 * SCALE, 95 * SCALE, 99 * SCALE]);
    assert!(!book.record("GONEUSDC", ReplaceOutcome::Placed(1_000 * SCALE)));
}

#[test]
fn falling_book_only_lowers_stops() {
    let mut book = PositionBook::new(TrendDirection::Negative);
    book.track(position("APEUSDC", 110 * SCALE));
    assert!(!book.record("APEUSDC", ReplaceOutcome::Placed(111 * SCALE)));
    assert!(book.record("APEUSDC", ReplaceOutcome::Placed(105 * SCALE)));
    assert_eq!(book.positions[0].current_stop_price, 105 * SCALE);
}

#[test]
fn plan_through_the_book() {
    let mut book = PositionBook::new(TrendDirection::Positive);
    book.track(position("APEUSDC", 90 * SCALE));
    let f = filters();
    assert_eq!(book.plan("NOPE", true, true, Some(SCALE), &f, 10 * SCALE), None);
    assert_eq!(
        book.plan("APEUSDC", true, true, Some(110 * SCALE), &f, 10 * SCALE),
        Some(TickAction::Replace(StopOrder { quantity: 2 * SCALE, stop_price: 99 * SCALE }))
    );
    assert_eq!(book.plan("APEUSDC", true, true, Some(100 * SCALE), &f, 10 * SCALE), Some(TickAction::Hold));
    assert_eq!(book.plan("APEUSDC", true, true, None, &f, 10 * SCALE), Some(TickAction::Hold));
    assert_eq!(book.plan("APEUSDC", false, false, None, &f, 10 * SCALE), Some(TickAction::Retire));
}

#[test]
fn a_whole_tick() {
    let mut book = PositionBook::new(TrendDirection::Positive);
    book.track(position("AUSDC", 90 * SCALE));
    book.track(position("BUSDC", 95 * SCALE));
    book.track(position("CUSDC", 50 * SCALE));
    book.track(position("DUSDC", 50 * SCALE));
    let seen = |order_open: bool, held: bool, price: Option<u64>| Observation {
        order_open,
        held,
        price: price.map(|p| p * SCALE),
        filters: filters(),
    };
    let observations = vec![
        seen(true, true, Some(110)),
        seen(true, true, Some(100)),
        seen(false, false, None),
        seen(true, true, None),
    ];
    let actions = book.plan_all(&observations, 10 * SCALE);
    assert_eq!(
        actions,
        vec![
            TickAction::Replace(StopOrder { quantity: 2 * SCALE, stop_price: 99 * SCALE }),
            TickAction::Hold,
            TickAction::Retire,
            TickAction::Hold,
        ]
    );
    book.commit(&vec![
        TickResult::Attempted(ReplaceOutcome::Placed(99 * SCALE)),
        TickResult::Untouched,
        TickResult::Retired,
        TickResult::Attempted(ReplaceOutcome::PlaceFailed),
    ]);
    let stops: Vec<(String, u64)> =
        book.positions.iter().map(|p| (p.symbol.clone(), p.current_stop_price)).collect();
    assert_eq!(
        stops,
        vec![
            ("AUSDC".to_string(), 99 * SCALE),
            ("BUSDC".to_string(), 95 * SCALE),
            ("DUSDC".to_string(), 50 * SCALE),
        ]
    );
    assert_eq!(book.direction, TrendDirection::Positive);
    book.commit(&vec![TickResult::Retired, TickResult::Retired, TickResult::Retired]);
    assert!(book.positions.is_empty());
    book.commit(&Vec::new());
    assert!(book.positions.is_empty());
}
