use stock_pred::controller::{
    check_constraints, notional, plan_initial_stop, plan_ratchet, plan_restore, plan_tick,
    ReplaceOutcome, SkipReason, StopOrder, TickAction,
};
use stock_pred::decimal::{
    floor_div, growth, parse_amount, parse_amount_bytes, parse_amount_wide, parse_price,
    parse_signed_amount, round_to_step, SCALE,
};
use stock_pred::ratchet::{candidate_stop, is_more_protective, ratchet, ratchet_all, stop_level};
use stock_pred::types::{ProtectionMode, SymbolFilters, TrackedPosition, TrendDirection};

fn filters() -> SymbolFilters {
    SymbolFilters {
        tick_size: 1_000_000,
        step_size: 10_000_000,
        min_qty: 10_000_000,
        min_price: 1_000_000,
        min_notional: 5 * SCALE,
    }
}

fn position(stop: u64, quantity: u64, mode: ProtectionMode) -> TrackedPosition {
    TrackedPosition::open("APEUSDC".to_string(), 100 * SCALE, quantity, stop, mode)
}

#[test]
fn round_to_step_four_decimals() {
    // 0.123456 rounded to a step of 0.0001 is 0.1234.
    assert_eq!(round_to_step(12_345_600, 10_000), 12_340_000);
}

#[test]
fn round_to_step_properties() {
    for &(value, step) in &[(0u64, 1u64), (7, 3), (100, 100), (99, 100), (u64::MAX, 7), (12_345_678, 1_000)] {
        let rounded = round_to_step(value, step);
        assert!(rounded <= value);
        assert_eq!(rounded % step, 0);
        assert!(value - rounded < step);
    }
    assert_eq!(round_to_step(5, 0), 0);
    assert_eq!(round_to_step(u64::MAX, 0), 0);
    assert_eq!(round_to_step(7, 3), 6);
}

#[test]
fn stop_levels() {
    assert_eq!(stop_level(110 * SCALE, 10 * SCALE, TrendDirection::Positive), 99 * SCALE);
    assert_eq!(stop_level(125 * SCALE, 10 * SCALE, TrendDirection::Positive), 11_250_000_000);
    assert_eq!(stop_level(90 * SCALE, 10 * SCALE, TrendDirection::Negative), 99 * SCALE);
    assert_eq!(stop_level(100 * SCALE, 100 * SCALE, TrendDirection::Positive), 0);
    assert_eq!(stop_level(100 * SCALE, 250 * SCALE, TrendDirection::Positive), 0);
    assert_eq!(stop_level(u64::MAX, 100 * SCALE, TrendDirection::Negative), u64::MAX);
    assert_eq!(stop_level(3, 50 * SCALE, TrendDirection::Positive), 1);
    assert_eq!(stop_level(12_345, 0, TrendDirection::Positive), 12_345);
    assert_eq!(stop_level(12_345, 0, TrendDirection::Negative), 12_345);
}

#[test]
fn candidate_is_quantized() {
    // 123.456 less 5 % is 117.2832, cut to a tick of 0.01.
    assert_eq!(candidate_stop(12_345_600_000, 5 * SCALE, 1_000_000, TrendDirection::Positive), 11_728_000_000);
}

#[test]
fn ratchet_never_loosens() {
    let prices = [100u64, 120, 90, 130, 50, 131, 131];
    let mut stop = 0u64;
    let mut seen = Vec::new();
    for p in prices {
        let next = ratchet(stop, p * SCALE, 10 * SCALE, 1_000_000, TrendDirection::Positive);
        assert!(next >= stop);
        stop = next;
        seen.push(stop);
    }
    assert_eq!(
        seen,
        vec![90 * SCALE, 108 * SCALE, 108 * SCALE, 117 * SCALE, 117 * SCALE, 11_790_000_000, 11_790_000_000]
    );
    let all: Vec<u64> = prices.iter().map(|p| p * SCALE).collect();
    assert_eq!(ratchet_all(0, &all, 10 * SCALE, 1_000_000, TrendDirection::Positive), 11_790_000_000);
}

#[test]
fn ratchet_never_loosens_falling() {
    let mut stop = u64::MAX;
    for p in [100u64, 80, 95, 70, 200] {
        let next = ratchet(stop, p * SCALE, 10 * SCALE, 1_000_000, TrendDirection::Negative);
        assert!(next <= stop);
        stop = next;
    }
    assert_eq!(stop, 77 * SCALE);
    assert!(is_more_protective(1, 2, TrendDirection::Negative));
    assert!(!is_more_protective(2, 2, TrendDirection::Negative));
    assert!(is_more_protective(3, 2, TrendDirection::Positive));
}

#[test]
fn same_price_twice_no_second_replacement() {
    let f = filters();
    let mut p = position(90 * SCALE, 2 * SCALE, ProtectionMode::Synthetic);
    let first = plan_tick(&p, true, true, Some(110 * SCALE), &f, 10 * SCALE, TrendDirection::Positive);
    let order = StopOrder { quantity: 2 * SCALE, stop_price: 99 * SCALE };
    assert_eq!(first, TickAction::Replace(order));
    assert!(p.record(ReplaceOutcome::Placed(order.stop_price), TrendDirection::Positive));
    assert_eq!(p.current_stop_price, 99 * SCALE);
    let second = plan_tick(&p, true, true, Some(110 * SCALE), &f, 10 * SCALE, TrendDirection::Positive);
    assert_eq!(second, TickAction::Hold);
}

#[test]
fn lower_candidate_leaves_state_unchanged() {
    // Recorded stop 95; the price proposes 94: nothing is cancelled or placed.
    let f = filters();
    let mut p = position(95 * SCALE, 2 * SCALE, ProtectionMode::Synthetic);
    let price = 10_445_000_000u64;
    assert_eq!(candidate_stop(price, 10 * SCALE, f.tick_size, TrendDirection::Positive), 94 * SCALE);
    let action = plan_tick(&p, true, true, Some(price), &f, 10 * SCALE, TrendDirection::Positive);
    assert_eq!(action, TickAction::Hold);
    assert!(!p.record(ReplaceOutcome::Placed(94 * SCALE), TrendDirection::Positive));
    assert_eq!(p.current_stop_price, 95 * SCALE);
    assert_eq!(p.entry_price, 100 * SCALE);
    assert_eq!(p.quantity, 2 * SCALE);
}

#[test]
fn failed_replacement_keeps_the_record() {
    let mut p = position(95 * SCALE, 2 * SCALE, ProtectionMode::Synthetic);
    assert!(!p.record(ReplaceOutcome::CancelFailed, TrendDirection::Positive));
    assert!(!p.record(ReplaceOutcome::PlaceFailed, TrendDirection::Positive));
    assert_eq!(p.current_stop_price, 95 * SCALE);
    assert!(p.record(ReplaceOutcome::Placed(96 * SCALE), TrendDirection::Positive));
    assert_eq!(p.current_stop_price, 96 * SCALE);
    assert_eq!(p.protection_mode, ProtectionMode::Synthetic);
    assert_eq!(p.symbol, "APEUSDC");
}

#[test]
fn tick_decisions() {
    let f = filters();
    let up = TrendDirection::Positive;
    let native = position(90 * SCALE, 2 * SCALE, ProtectionMode::Native);
    assert_eq!(plan_tick(&native, true, true, Some(200 * SCALE), &f, 10 * SCALE, up), TickAction::Hold);
    assert_eq!(plan_tick(&native, false, true, Some(200 * SCALE), &f, 10 * SCALE, up), TickAction::Retire);
    let synthetic = position(90 * SCALE, 2 * SCALE, ProtectionMode::Synthetic);
    assert_eq!(plan_tick(&synthetic, true, true, None, &f, 10 * SCALE, up), TickAction::Hold);
    assert_eq!(plan_tick(&synthetic, false, false, Some(200 * SCALE), &f, 10 * SCALE, up), TickAction::Retire);
    assert_eq!(plan_tick(&synthetic, false, true, None, &f, 10 * SCALE, up), TickAction::Hold);
    // Held without an order: protected again, never under the recorded stop.
    assert_eq!(
        plan_tick(&synthetic, false, true, Some(50 * SCALE), &f, 10 * SCALE, up),
        TickAction::Restore(StopOrder { quantity: 2 * SCALE, stop_price: 90 * SCALE })
    );
    assert_eq!(
        plan_restore(90 * SCALE, 2 * SCALE, 200 * SCALE, &f, 10 * SCALE, up),
        TickAction::Restore(StopOrder { quantity: 2 * SCALE, stop_price: 180 * SCALE })
    );
    let falling = position(110 * SCALE, 2 * SCALE, ProtectionMode::Synthetic);
    assert_eq!(
        plan_tick(&falling, true, true, Some(90 * SCALE), &f, 10 * SCALE, TrendDirection::Negative),
        TickAction::Replace(StopOrder { quantity: 2 * SCALE, stop_price: 99 * SCALE })
    );
    assert_eq!(
        plan_tick(&falling, true, true, Some(120 * SCALE), &f, 10 * SCALE, TrendDirection::Negative),
        TickAction::Hold
    );
}

#[test]
fn skip_reasons() {
    let f = filters();
    let up = TrendDirection::Positive;
    assert_eq!(
        plan_ratchet(0, 5_000_000, 100 * SCALE, &f, 10 * SCALE, up),
        TickAction::Skip(SkipReason::ZeroQuantity)
    );
    let mut strict = f;
    strict.min_qty = 3 * SCALE;
    assert_eq!(
        plan_ratchet(0, 2 * SCALE, 100 * SCALE, &strict, 10 * SCALE, up),
        TickAction::Skip(SkipReason::BelowMinQty)
    );
    strict = f;
    strict.min_price = 91 * SCALE;
    assert_eq!(
        plan_ratchet(0, 2 * SCALE, 100 * SCALE, &strict, 10 * SCALE, up),
        TickAction::Skip(SkipReason::BelowMinPrice)
    );
    strict = f;
    strict.min_notional = 181 * SCALE;
    assert_eq!(
        plan_ratchet(0, 2 * SCALE, 100 * SCALE, &strict, 10 * SCALE, up),
        TickAction::Skip(SkipReason::BelowMinNotional)
    );
    strict.min_notional = 180 * SCALE;
    assert_eq!(
        plan_ratchet(0, 2 * SCALE, 100 * SCALE, &strict, 10 * SCALE, up),
        TickAction::Replace(StopOrder { quantity: 2 * SCALE, stop_price: 90 * SCALE })
    );
    assert_eq!(notional(90 * SCALE, 2 * SCALE), 180 * SCALE as u128);
    assert_eq!(
        check_constraints(&StopOrder { quantity: 2 * SCALE, stop_price: 0 }, &SymbolFilters::default()),
        Some(SkipReason::BelowMinPrice)
    );
}

#[test]
fn initial_stop_for_a_holding() {
    let f = filters();
    assert_eq!(
        plan_initial_stop(100 * SCALE, 250_000_000, &f, 10 * SCALE),
        Ok(StopOrder { quantity: 250_000_000, stop_price: 90 * SCALE })
    );
    // Half a unit at a price of 200: every minimum is met, so the stop is placed.
    let small = SymbolFilters {
        tick_size: SCALE,
        step_size: 10_000_000,
        min_qty: 10_000_000,
        min_price: SCALE,
        min_notional: 10 * SCALE,
    };
    assert_eq!(
        plan_initial_stop(200 * SCALE, 50_000_000, &small, 10 * SCALE),
        Ok(StopOrder { quantity: 50_000_000, stop_price: 180 * SCALE })
    );
    assert_eq!(
        plan_initial_stop(100 * SCALE, 99_000_000, &f, 10 * SCALE),
        Ok(StopOrder { quantity: 90_000_000, stop_price: 90 * SCALE })
    );
    assert_eq!(plan_initial_stop(100 * SCALE, 9_000_000, &f, 10 * SCALE), Err(SkipReason::BelowMinQty));
    assert_eq!(plan_initial_stop(0, 2 * SCALE, &f, 10 * SCALE), Err(SkipReason::BelowMinPrice));
    assert_eq!(plan_initial_stop(2 * SCALE, 2 * SCALE, &f, 10 * SCALE), Err(SkipReason::BelowMinNotional));
}

#[test]
fn decimal_parsing() {
    assert_eq!(parse_amount("0.123456"), Some(12_345_600));
    assert_eq!(parse_amount("100"), Some(100 * SCALE));
    assert_eq!(parse_amount("100."), Some(100 * SCALE));
    assert_eq!(parse_amount(".5"), Some(50_000_000));
    assert_eq!(parse_amount("0.000000019"), Some(1));
    assert_eq!(parse_amount("007.50"), Some(750_000_000));
    assert_eq!(parse_amount(""), None);
    assert_eq!(parse_amount("."), None);
    assert_eq!(parse_amount("-1"), None);
    assert_eq!(parse_amount("+1"), None);
    assert_eq!(parse_amount("1e3"), None);
    assert_eq!(parse_amount("1.2.3"), None);
    assert_eq!(parse_amount(" 1"), None);
    assert_eq!(parse_amount("184467440737.09551615"), Some(u64::MAX));
    assert_eq!(parse_amount("184467440737.09551616"), None);
    assert_eq!(parse_amount_bytes(b"2.5"), Some(250_000_000));
    assert_eq!(parse_amount_wide(b"184467440737.09551616"), Some(u64::MAX as u128 + 1));
    assert_eq!(parse_amount_wide(b"3402823669209384634633746074317.68211455"), Some(u128::MAX));
    assert_eq!(parse_amount_wide(b"3402823669209384634633746074317.68211456"), None);
    assert_eq!(parse_amount_wide(b"99999999999999999999999999999999999999999999"), None);
    assert_eq!(parse_price("0"), None);
    assert_eq!(parse_price("0.0"), None);
    assert_eq!(parse_price("0.00000001"), Some(1));
    assert_eq!(parse_signed_amount("-1.5"), Some(-150_000_000));
    assert_eq!(parse_signed_amount("1.5"), Some(150_000_000));
    assert_eq!(parse_signed_amount("-"), None);
    assert_eq!(parse_signed_amount("--1"), None);
    assert_eq!(parse_signed_amount("-0"), Some(0));
}

#[test]
fn growth_and_floor_division() {
    assert_eq!(growth(100 * SCALE, 112 * SCALE), 12 * SCALE as i128);
    assert_eq!(growth(100 * SCALE, 90 * SCALE), -10 * SCALE as i128);
    assert_eq!(growth(3, 4), 3_333_333_333);
    assert_eq!(growth(3, 2), -3_333_333_334);
    assert_eq!(floor_div(7, 2), 3);
    assert_eq!(floor_div(-7, 2), -4);
    assert_eq!(floor_div(-8, 2), -4);
    assert_eq!(floor_div(0, 5), 0);
    assert_eq!(floor_div(-1, 5), -1);
}
