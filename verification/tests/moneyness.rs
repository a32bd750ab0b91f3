use opra_statistical_profiler::contract::ContractType;
use opra_statistical_profiler::fraction::Fraction;
use opra_statistical_profiler::options_math::moneyness::{Moneyness, MoneynessBuckets};

fn buckets() -> MoneynessBuckets {
    MoneynessBuckets::default()
}

/// A strike in dollars, in thousandths.
fn strike(usd: f64) -> u64 {
    (usd * 1000.0).round() as u64
}

/// A price in dollars; what is not a number is no price.
fn price(usd: f64) -> Fraction {
    if usd.is_nan() {
        Fraction { num: 0, den: 0 }
    } else {
        Fraction { num: (usd * 1e9).round() as i128, den: 1_000_000_000 }
    }
}

#[test]
fn test_call_atm() {
    let m = buckets().classify(strike(190.0), price(190.0), ContractType::Call).unwrap();
    assert_eq!(m, Moneyness::Atm);
}

#[test]
fn test_call_atm_edge() {
    // 2% range: 190 * 0.98 = 186.2, 190 * 1.02 = 193.8
    // Strike 192 is within ATM range
    let m = buckets().classify(strike(192.0), price(190.0), ContractType::Call).unwrap();
    assert_eq!(m, Moneyness::Atm, "192/190 = 1.0105, within 2% ATM");
}

#[test]
fn test_call_itm() {
    // Strike 180, stock 190 → ratio = 0.947, below 0.98 ATM boundary
    let m = buckets().classify(strike(180.0), price(190.0), ContractType::Call).unwrap();
    assert_eq!(m, Moneyness::Itm);
}

#[test]
fn test_call_deep_itm() {
    // Strike 150, stock 190 → ratio = 0.789, below 0.90 deep boundary
    let m = buckets().classify(strike(150.0), price(190.0), ContractType::Call).unwrap();
    assert_eq!(m, Moneyness::DeepItm);
}

#[test]
fn test_call_otm() {
    // Strike 200, stock 190 → ratio = 1.053, above 1.02 ATM boundary
    let m = buckets().classify(strike(200.0), price(190.0), ContractType::Call).unwrap();
    assert_eq!(m, Moneyness::Otm);
}

#[test]
fn test_call_deep_otm() {
    // Strike 250, stock 190 → ratio = 1.316, above 1.10 deep boundary
    let m = buckets().classify(strike(250.0), price(190.0), ContractType::Call).unwrap();
    assert_eq!(m, Moneyness::DeepOtm);
}

#[test]
fn test_put_atm() {
    let m = buckets().classify(strike(190.0), price(190.0), ContractType::Put).unwrap();
    assert_eq!(m, Moneyness::Atm);
}

#[test]
fn test_put_itm() {
    // Put ITM: strike > underlying. Strike 200, stock 190 → ratio 1.053
    let m = buckets().classify(strike(200.0), price(190.0), ContractType::Put).unwrap();
    assert_eq!(m, Moneyness::Itm);
}

#[test]
fn test_put_otm() {
    // Put OTM: strike < underlying. Strike 180, stock 190 → ratio 0.947
    let m = buckets().classify(strike(180.0), price(190.0), ContractType::Put).unwrap();
    assert_eq!(m, Moneyness::Otm);
}

#[test]
fn test_invalid_underlying() {
    assert!(buckets().classify(strike(190.0), price(0.0), ContractType::Call).is_none());
    assert!(buckets().classify(strike(190.0), price(-10.0), ContractType::Call).is_none());
    assert!(buckets().classify(strike(190.0), price(f64::NAN), ContractType::Call).is_none());
}

#[test]
fn test_moneyness_ratio() {
    let r = MoneynessBuckets::ratio(strike(185.0), price(190.0)).unwrap();
    let r = (r.strike as f64 / 1000.0)
        / (r.underlying_price.num as f64 / r.underlying_price.den as f64);
    assert!((r - 185.0 / 190.0).abs() < 1e-10);
}

#[test]
fn ratio_needs_a_positive_price() {
    assert!(MoneynessBuckets::ratio(strike(185.0), price(0.0)).is_none());
    assert!(MoneynessBuckets::ratio(strike(185.0), price(-1.0)).is_none());
    assert!(MoneynessBuckets::ratio(strike(185.0), price(f64::NAN)).is_none());
}

#[test]
fn band_edges_belong_to_the_inner_class() {
    let at = |k: u64| buckets().classify(k, price(100.0), ContractType::Call).unwrap();
    assert_eq!(at(98_000), Moneyness::Atm);
    assert_eq!(at(97_999), Moneyness::Itm);
    assert_eq!(at(102_000), Moneyness::Atm);
    assert_eq!(at(102_001), Moneyness::Otm);
    assert_eq!(at(90_000), Moneyness::Itm);
    assert_eq!(at(89_999), Moneyness::DeepItm);
    assert_eq!(at(110_000), Moneyness::Otm);
    assert_eq!(at(110_001), Moneyness::DeepOtm);
}

#[test]
fn puts_mirror_calls() {
    for k in [150_000, 180_000, 190_000, 200_000, 250_000] {
        let call = buckets().classify(k, price(190.0), ContractType::Call).unwrap();
        let put = buckets().classify(k, price(190.0), ContractType::Put).unwrap();
        let expected = match call {
            Moneyness::DeepItm => Moneyness::DeepOtm,
            Moneyness::Itm => Moneyness::Otm,
            Moneyness::Atm => Moneyness::Atm,
            Moneyness::Otm => Moneyness::Itm,
            Moneyness::DeepOtm => Moneyness::DeepItm,
        };
        assert_eq!(put, expected);
    }
}

#[test]
fn extreme_strikes_and_prices_are_compared_exactly() {
    let tiny = Fraction { num: 1, den: 23_400_000_000_000_000_000_000 };
    assert_eq!(
        buckets().classify(u64::MAX, tiny, ContractType::Call),
        Some(Moneyness::DeepOtm)
    );
    let huge = Fraction { num: i128::MAX, den: 1 };
    assert_eq!(
        buckets().classify(u64::MAX, huge, ContractType::Call),
        Some(Moneyness::DeepItm)
    );
    // Ranges beyond one: nothing is below zero, everything is above less than it.
    let wide = MoneynessBuckets { atm_range: 2_000_000_000, deep_range: 3_000_000_000 };
    assert_eq!(wide.classify(0, price(190.0), ContractType::Call), Some(Moneyness::Atm));
    let odd = MoneynessBuckets { atm_range: -2_000_000_000, deep_range: -2_000_000_000 };
    assert_eq!(odd.classify(0, price(190.0), ContractType::Put), Some(Moneyness::DeepItm));
}

#[test]
fn labels_name_the_classes() {
    assert_eq!(Moneyness::DeepItm.label(), "deep_itm");
    assert_eq!(Moneyness::Itm.label(), "itm");
    assert_eq!(Moneyness::Atm.label(), "atm");
    assert_eq!(Moneyness::Otm.label(), "otm");
    assert_eq!(Moneyness::DeepOtm.label(), "deep_otm");
}
