use opra_statistical_profiler::contract::{ContractInfo, ContractType};
use opra_statistical_profiler::date::Date;
use opra_statistical_profiler::event::{Action, OptionsEvent, Side};
use opra_statistical_profiler::fraction::Fraction;
use opra_statistical_profiler::options_math::moneyness::{Moneyness, MoneynessBuckets};
use opra_statistical_profiler::session::underlying_estimate;

/// A price in dollars, in nanodollars; what is not a number is no price.
fn px(usd: f64) -> Option<i64> {
    if usd.is_nan() {
        None
    } else {
        Some((usd * 1e9).round() as i64)
    }
}

fn value(f: Fraction) -> f64 {
    f.num as f64 / f.den as f64
}

fn make_contract_call(strike: f64) -> ContractInfo {
    ContractInfo {
        instrument_id: 1,
        underlying: "NVDA".to_string(),
        expiration: Date::from_ymd_opt(2025, 11, 14).unwrap(),
        contract_type: ContractType::Call,
        strike: (strike * 1000.0) as u64,
        occ_symbol: format!("NVDA  251114C{:08}", (strike * 1000.0) as u64),
    }
}

fn make_quote_event<'a>(
    contract: &'a ContractInfo,
    bid: f64,
    ask: f64,
    dte: i64,
    moneyness: Moneyness,
) -> OptionsEvent<'a> {
    let underlying_price = Fraction { num: 190, den: 1 };
    OptionsEvent {
        ts_event: 14 * 3_600_000_000_000 + 35 * 60_000_000_000,
        instrument_id: contract.instrument_id,
        contract,
        action: Action::Quote,
        side: Side::Unspecified,
        trade_price: None,
        trade_size: 0,
        bid_px: px(bid),
        ask_px: px(ask),
        bid_sz: 10,
        ask_sz: 10,
        dte,
        moneyness,
        moneyness_ratio: MoneynessBuckets::ratio(contract.strike, underlying_price),
        underlying_price,
        publisher_id: 0,
        bid_pb: 0,
        ask_pb: 0,
        ts_in_delta: 0,
        flags: 0,
        ts_recv: 0,
    }
}

#[test]
fn test_bbo_normal_ask_gt_bid_all_accessors_finite() {
    let contract = make_contract_call(190.0);
    let event = make_quote_event(&contract, 2.00, 2.10, 0, Moneyness::Atm);

    assert!(event.option_mid().is_some(), "option_mid should be finite for normal quote");
    assert!(event.spread().is_some(), "spread should be finite for normal quote");
    assert!(event.spread_pct().is_some(), "spread_pct should be finite for normal quote");
    assert!(event.has_valid_bbo(), "has_valid_bbo should be true for normal quote");
}

#[test]
fn test_bbo_locked_ask_eq_bid_all_accessors_nan() {
    // Locked quote: ask == bid. All 4 accessors reject this.
    let contract = make_contract_call(190.0);
    let event = make_quote_event(&contract, 2.00, 2.00, 0, Moneyness::Atm);

    assert!(event.option_mid().is_none(), "option_mid must be NaN for locked quote (ask==bid)");
    assert!(event.spread().is_none(), "spread must be NaN for locked quote");
    assert!(event.spread_pct().is_none(), "spread_pct must be NaN for locked quote");
    assert!(!event.has_valid_bbo(), "has_valid_bbo must be false for locked quote");
}

#[test]
fn test_bbo_crossed_ask_lt_bid_all_accessors_nan() {
    // Crossed quote: ask < bid. Strictly invalid for all 4 accessors.
    let contract = make_contract_call(190.0);
    let event = make_quote_event(&contract, 2.10, 2.00, 0, Moneyness::Atm);

    assert!(event.option_mid().is_none(), "option_mid must be NaN for crossed quote (ask<bid)");
    assert!(event.spread().is_none(), "spread must be NaN for crossed quote");
    assert!(event.spread_pct().is_none(), "spread_pct must be NaN for crossed quote");
    assert!(!event.has_valid_bbo(), "has_valid_bbo must be false for crossed quote");
}

#[test]
fn test_bbo_nan_bid_all_accessors_nan() {
    let contract = make_contract_call(190.0);
    let event = make_quote_event(&contract, f64::NAN, 2.10, 0, Moneyness::Atm);

    assert!(event.option_mid().is_none(), "option_mid must be NaN for undefined bid");
    assert!(event.spread().is_none(), "spread must be NaN for undefined bid");
    assert!(event.spread_pct().is_none(), "spread_pct must be NaN for undefined bid");
    assert!(!event.has_valid_bbo(), "has_valid_bbo must be false for undefined bid");
}

#[test]
fn test_bbo_nan_ask_all_accessors_nan() {
    let contract = make_contract_call(190.0);
    let event = make_quote_event(&contract, 2.00, f64::NAN, 0, Moneyness::Atm);

    assert!(event.option_mid().is_none(), "option_mid must be NaN for undefined ask");
    assert!(event.spread().is_none(), "spread must be NaN for undefined ask");
    assert!(event.spread_pct().is_none(), "spread_pct must be NaN for undefined ask");
    assert!(!event.has_valid_bbo(), "has_valid_bbo must be false for undefined ask");
}

#[test]
fn test_invariant_finiteness_agrees_across_option_mid_spread_spread_pct() {
    // Locks the cross-accessor invariant: none of {option_mid, spread,
    // spread_pct} accepts a case that the others reject.
    let contract = make_contract_call(190.0);
    let cases: &[(f64, f64, &str)] = &[
        (2.00, 2.10, "normal"),
        (2.00, 2.00, "locked"),
        (2.10, 2.00, "crossed"),
        (f64::NAN, 2.10, "nan_bid"),
        (2.00, f64::NAN, "nan_ask"),
    ];

    for (bid, ask, label) in cases {
        let event = make_quote_event(&contract, *bid, *ask, 0, Moneyness::Atm);
        let m = event.option_mid().is_some();
        let s = event.spread().is_some();
        let p = event.spread_pct().is_some();
        assert_eq!(m, s, "[{}] option_mid.finite={} but spread.finite={}", label, m, s);
        assert_eq!(m, p, "[{}] option_mid.finite={} but spread_pct.finite={}", label, m, p);
    }
}

/// Distinct events at distinct intraday times have distinct underlying prices
/// when the market moves.
#[test]
fn test_intraday_underlying_reflected_in_event_underlying_price() {
    // NVDA opens at $190 (09:30 ET) and closes at $200.
    let at = |hour: i64| underlying_estimate(190_000_000_000, 200_000_000_000, -5, hour * 3_600_000_000_000);
    let early = at(15); // 10:00 ET
    let late = at(20); // 15:00 ET
    assert_ne!(value(early), value(late));
    assert!(value(early) < value(late));
}

#[test]
fn accessors_have_the_values_of_the_quote() {
    let contract = make_contract_call(190.0);
    let event = make_quote_event(&contract, 2.00, 2.10, 0, Moneyness::Atm);
    assert!((value(event.option_mid().unwrap()) - 2.05).abs() < 1e-12);
    assert!((value(event.spread().unwrap()) - 0.10).abs() < 1e-12);
    assert!((value(event.spread_pct().unwrap()) - 0.10 / 2.05 * 100.0).abs() < 1e-9);
}

#[test]
fn a_mid_price_that_is_not_positive_has_no_percentage() {
    let contract = make_contract_call(190.0);
    let event = make_quote_event(&contract, -2.00, 1.00, 0, Moneyness::Atm);
    assert!(event.option_mid().is_some());
    assert!(event.spread().is_some());
    assert!(event.spread_pct().is_none());
    assert!(!event.has_valid_bbo());
}

#[test]
fn predicates_read_their_fields() {
    let contract = make_contract_call(190.0);
    let mut event = make_quote_event(&contract, 2.00, 2.10, 0, Moneyness::Atm);
    assert!(event.is_zero_dte() && event.is_atm() && event.is_call() && !event.is_trade());
    event.dte = 1;
    event.moneyness = Moneyness::Otm;
    event.action = Action::Trade;
    assert!(!event.is_zero_dte() && !event.is_atm() && event.is_trade());
}

#[test]
fn extreme_prices_do_not_overflow() {
    let contract = make_contract_call(190.0);
    let mut event = make_quote_event(&contract, 2.00, 2.10, 0, Moneyness::Atm);
    event.bid_px = Some(i64::MIN);
    event.ask_px = Some(i64::MAX);
    assert_eq!(event.spread().unwrap().num, i64::MAX as i128 - i64::MIN as i128);
    assert_eq!(event.option_mid().unwrap().num, -1);
}
