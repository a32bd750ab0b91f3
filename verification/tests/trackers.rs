use std::collections::HashMap;

use opra_statistical_profiler::contract::{ContractInfo, ContractType};
use opra_statistical_profiler::date::Date;
use opra_statistical_profiler::event::{Action, DayContext, OptionsEvent, Side};
use opra_statistical_profiler::fraction::Fraction;
use opra_statistical_profiler::observation::{
    Channel, Effect, IvProblem, IvSolution, Sample, Statistic,
};
use opra_statistical_profiler::options_math::moneyness::{Moneyness, MoneynessBuckets};
use opra_statistical_profiler::report::{Key, Row, Value};
use opra_statistical_profiler::trackers::effective_spread::size_bucket_index;
use opra_statistical_profiler::trackers::greeks::is_finite;
use opra_statistical_profiler::trackers::{
    GreeksTracker, OptionsEffectiveSpreadTracker, PremiumDecayTracker, PutCallRatioTracker,
    QualityTracker, SpreadTracker, VolumeTracker, ZeroDteTracker,
};
use opra_statistical_profiler::OptionsTracker;

const NS_PER_HOUR: i64 = 3_600_000_000_000;
const NS_PER_MINUTE: i64 = 60_000_000_000;

/// RTH open: 14:30 UTC = 09:30 ET (EST)
const RTH_OPEN_UTC_NS: i64 = 14 * NS_PER_HOUR + 30 * NS_PER_MINUTE;

/// 5% in billionths.
const RATE: i64 = 50_000_000;

/// A price in dollars, in nanodollars; what is not a number is no price.
fn px(usd: f64) -> Option<i64> {
    if usd.is_nan() {
        None
    } else {
        Some((usd * 1e9).round() as i64)
    }
}

fn make_day_context() -> DayContext {
    DayContext {
        trading_date: Date::from_ymd_opt(2025, 11, 14).unwrap(),
        utc_offset: -5,
        day_epoch_ns: 0,
        underlying_open: 190_000_000_000,
        underlying_close: 190_000_000_000,
    }
}

fn make_contract(instrument_id: u32, contract_type: ContractType, strike: f64) -> ContractInfo {
    ContractInfo {
        instrument_id,
        underlying: "NVDA".to_string(),
        expiration: Date::from_ymd_opt(2025, 11, 14).unwrap(),
        contract_type,
        strike: (strike * 1000.0) as u64,
        occ_symbol: String::new(),
    }
}

fn make_contract_call(strike: f64) -> ContractInfo {
    make_contract(1, ContractType::Call, strike)
}

fn make_contract_put(strike: f64) -> ContractInfo {
    make_contract(2, ContractType::Put, strike)
}

fn make_quote_event<'a>(
    contract: &'a ContractInfo,
    bid: f64,
    ask: f64,
    dte: i64,
    moneyness: Moneyness,
) -> OptionsEvent<'a> {
    let underlying_price = Fraction { num: 190, den: 1 };
    OptionsEvent {
        ts_event: RTH_OPEN_UTC_NS + 5 * NS_PER_MINUTE,
        instrument_id: contract.instrument_id,
        contract,
        action: Action::Quote,
        side: Side::Unspecified,
        trade_price: None,
        trade_size: 0,
        bid_px: px(bid),
        ask_px: px(ask),
        bid_sz: 10,
        ask_sz: 10,
        dte,
        moneyness,
        moneyness_ratio: MoneynessBuckets::ratio(contract.strike, underlying_price),
        underlying_price,
        publisher_id: 0,
        bid_pb: 0,
        ask_pb: 0,
        ts_in_delta: 0,
        flags: 0,
        ts_recv: 0,
    }
}

fn make_trade_event<'a>(
    contract: &'a ContractInfo,
    price: f64,
    size: u32,
    bid: f64,
    ask: f64,
    dte: i64,
    moneyness: Moneyness,
) -> OptionsEvent<'a> {
    let mut event = make_quote_event(contract, bid, ask, dte, moneyness);
    event.ts_event = RTH_OPEN_UTC_NS + 10 * NS_PER_MINUTE;
    event.action = Action::Trade;
    event.side = Side::Ask;
    event.trade_price = px(price);
    event.trade_size = size;
    event
}

/// The values that entered each channel.
#[derive(Default)]
struct Observed {
    values: HashMap<Channel, Vec<f64>>,
    traces: Vec<(Channel, i64, f64, i32)>,
    problems: Vec<IvProblem>,
}

fn number(sample: Sample) -> f64 {
    match sample {
        Sample::Exact(f) => f.num as f64 / f.den as f64,
        Sample::Binary64(bits) => f64::from_bits(bits),
    }
}

impl Observed {
    fn take(&mut self, effects: Vec<Effect>) {
        for effect in effects {
            match effect {
                Effect::Observe { channel, value } => {
                    assert_ne!(channel.statistic(), Statistic::Curve);
                    self.values.entry(channel).or_default().push(number(value));
                }
                Effect::Trace { channel, ts_event, value, utc_offset } => {
                    assert_eq!(channel.statistic(), Statistic::Curve);
                    self.traces.push((channel, ts_event, number(value), utc_offset));
                }
                Effect::SolveIv(problem) => self.problems.push(problem),
            }
        }
    }

    fn count(&self, channel: Channel) -> usize {
        self.values.get(&channel).map_or(0, |v| v.len())
    }

    fn mean(&self, channel: Channel) -> f64 {
        let v = &self.values[&channel];
        v.iter().sum::<f64>() / v.len() as f64
    }

    fn traced(&self, channel: Channel) -> Vec<f64> {
        self.traces.iter().filter(|t| t.0 == channel).map(|t| t.2).collect()
    }
}

fn find(rows: &[Row], key: Key) -> Option<Value> {
    rows.iter().find(|r| r.key == key).map(|r| r.value)
}

fn count(rows: &[Row], name: &'static str) -> u64 {
    match find(rows, Key::One(name)) {
        Some(Value::Count(n)) => n,
        other => panic!("{} is {:?}", name, other),
    }
}

fn ratio(value: Option<Value>) -> f64 {
    match value {
        Some(Value::Number(f)) => f.num as f64 / f.den as f64,
        other => panic!("{:?} is no number", other),
    }
}

// ─── QualityTracker ──────────────────────────────────────────────────────────

#[test]
fn test_counts_quotes_and_trades() {
    let mut t = QualityTracker::new();
    t.begin_day(&make_day_context());
    let c = make_contract_call(190.0);
    let q = make_quote_event(&c, 1.0, 1.05, 0, Moneyness::Atm);
    t.process_event(&q, 3);
    t.process_event(&q, 3);
    let tr = make_trade_event(&c, 1.02, 10, 1.0, 1.05, 0, Moneyness::Atm);
    t.process_event(&tr, 3);
    t.end_of_day(0);
    let r = t.finalize();
    assert_eq!(count(&r, "total_events"), 3);
    assert_eq!(count(&r, "quote_events"), 2);
    assert_eq!(count(&r, "trade_events"), 1);
}

#[test]
fn quality_test_dte_bucketing() {
    let mut t = QualityTracker::new();
    t.begin_day(&make_day_context());
    let c = make_contract_call(190.0);
    let e0 = make_quote_event(&c, 1.0, 1.05, 0, Moneyness::Atm);
    let e5 = make_quote_event(&c, 1.0, 1.05, 5, Moneyness::Atm);
    let e30 = make_quote_event(&c, 1.0, 1.05, 30, Moneyness::Atm);
    t.process_event(&e0, 3);
    t.process_event(&e5, 3);
    t.process_event(&e30, 3);
    t.end_of_day(0);
    let r = t.finalize();
    assert_eq!(find(&r, Key::Two("dte_distribution", "0dte")), Some(Value::Count(1)));
    assert_eq!(find(&r, Key::Two("dte_distribution", "2_7dte")), Some(Value::Count(1)));
    assert_eq!(find(&r, Key::Two("dte_distribution", "other")), Some(Value::Count(1)));
    assert_eq!(find(&r, Key::Two("dte_distribution", "1dte")), Some(Value::Count(0)));
}

#[test]
fn quality_test_day_rollover() {
    let mut t = QualityTracker::new();
    t.begin_day(&make_day_context());
    let c = make_contract_call(190.0);
    let e = make_quote_event(&c, 1.0, 1.05, 0, Moneyness::Atm);
    t.process_event(&e, 3);
    t.end_of_day(0);
    t.reset_day();
    t.begin_day(&make_day_context());
    t.process_event(&e, 3);
    t.process_event(&e, 3);
    t.end_of_day(1);
    let r = t.finalize();
    assert_eq!(count(&r, "n_days"), 2);
    assert_eq!(count(&r, "total_events"), 3);
}

#[test]
fn quality_test_finalize_structure() {
    let t = QualityTracker::new();
    let r = t.finalize();
    assert_eq!(find(&r, Key::One("tracker")), Some(Value::Text("QualityTracker")));
    assert!(find(&r, Key::One("total_events")).is_some());
    assert!(find(&r, Key::Two("dte_distribution", "0dte")).is_some());
    assert!(find(&r, Key::One("events_per_day")).is_some());
}

#[test]
fn quality_counts_contracts_once_and_sentinels() {
    let mut t = QualityTracker::default();
    let mut seen = Observed::default();
    let call = make_contract_call(190.0);
    let put = make_contract_put(190.0);
    let valid = make_quote_event(&call, 1.0, 1.05, 0, Moneyness::Atm);
    let sentinel = make_quote_event(&put, f64::NAN, 1.05, 1, Moneyness::Atm);
    let blind_trade = make_trade_event(&put, 1.0, 3, f64::NAN, f64::NAN, 1, Moneyness::Atm);
    for e in [&valid, &valid, &sentinel, &blind_trade] {
        assert!(t.process_event(e, 0).is_empty());
    }
    seen.take(t.end_of_day(0));
    assert_eq!(seen.values[&Channel::EventsPerDay], vec![4.0]);
    assert_eq!(seen.values[&Channel::TradesPerDay], vec![1.0]);
    assert_eq!(seen.values[&Channel::ContractsPerDay], vec![2.0]);
    t.reset_day();
    t.process_event(&valid, 0);
    seen.take(t.end_of_day(1));
    assert_eq!(seen.values[&Channel::ContractsPerDay], vec![2.0, 1.0]);
    assert_eq!(seen.values[&Channel::TradesPerDay], vec![1.0, 0.0]);
    let r = t.finalize();
    assert_eq!(count(&r, "unique_contracts_total"), 2);
    assert_eq!(count(&r, "sentinel_events"), 1);
    assert_eq!(ratio(find(&r, Key::One("trade_pct"))), 20.0);
    assert_eq!(ratio(find(&r, Key::One("sentinel_pct"))), 20.0);
    assert_eq!(ratio(find(&r, Key::One("quote_to_trade_ratio"))), 4.0);
    assert!(t.has_room());
    assert_eq!(t.name(), "QualityTracker");
}

#[test]
fn quality_without_events_has_no_ratio() {
    let r = QualityTracker::new().finalize();
    assert_eq!(ratio(find(&r, Key::One("trade_pct"))), 0.0);
    assert_eq!(find(&r, Key::One("quote_to_trade_ratio")), Some(Value::Null));
}

// ─── SpreadTracker ───────────────────────────────────────────────────────────

#[test]
fn test_spread_computation() {
    let mut t = SpreadTracker::new(1000);
    let mut seen = Observed::default();
    t.begin_day(&make_day_context());
    let c = make_contract_call(190.0);
    let e = make_quote_event(&c, 1.00, 1.05, 0, Moneyness::Atm);
    seen.take(t.process_event(&e, 3));
    seen.take(t.end_of_day(0));
    let r = t.finalize();
    assert_eq!(find(&r, Key::One("all_spread_usd")), Some(Value::Summary(Channel::SpreadUsd)));
    let mean = seen.mean(Channel::SpreadUsd);
    assert!((mean - 0.05).abs() < 1e-10, "Spread: expected 0.05, got {}", mean);
}

#[test]
fn test_sentinel_filtered() {
    let mut t = SpreadTracker::new(1000);
    let mut seen = Observed::default();
    t.begin_day(&make_day_context());
    let c = make_contract_call(190.0);
    let e = make_quote_event(&c, f64::NAN, f64::NAN, 0, Moneyness::Atm);
    seen.take(t.process_event(&e, 3));
    seen.take(t.end_of_day(0));
    assert_eq!(seen.count(Channel::SpreadUsd), 0);
}

#[test]
fn test_dte0_atm_tracking() {
    let mut t = SpreadTracker::new(1000);
    let mut seen = Observed::default();
    t.begin_day(&make_day_context());
    let c = make_contract_call(190.0);
    let atm = make_quote_event(&c, 1.00, 1.03, 0, Moneyness::Atm);
    let otm = make_quote_event(&c, 0.10, 0.15, 0, Moneyness::Otm);
    seen.take(t.process_event(&atm, 3));
    seen.take(t.process_event(&otm, 3));
    seen.take(t.end_of_day(0));
    assert_eq!(seen.count(Channel::Dte0AtmSpreadUsd), 1, "Only ATM 0DTE should be counted");
}

#[test]
fn spread_test_finalize_structure() {
    let t = SpreadTracker::new(1000);
    let r = t.finalize();
    assert_eq!(find(&r, Key::One("tracker")), Some(Value::Text("SpreadTracker")));
    assert!(find(&r, Key::Two("spread_by_moneyness", "atm")).is_some());
    assert!(find(&r, Key::Two("spread_by_dte", "0dte")).is_some());
    assert!(find(&r, Key::One("dte0_atm_intraday_spread_curve")).is_some());
}

#[test]
fn spreads_go_to_their_buckets_and_curves() {
    let mut t = SpreadTracker::new(7);
    let mut seen = Observed::default();
    let mut ctx = make_day_context();
    ctx.utc_offset = -4;
    t.begin_day(&ctx);
    let c = make_contract_call(190.0);
    seen.take(t.process_event(&make_quote_event(&c, 1.0, 1.5, 0, Moneyness::Atm), 0));
    seen.take(t.process_event(&make_quote_event(&c, 1.0, 3.0, 9, Moneyness::DeepOtm), 0));
    assert_eq!(seen.values[&Channel::SpreadByMoneyness(2)], vec![0.5]);
    assert_eq!(seen.values[&Channel::SpreadByMoneyness(4)], vec![2.0]);
    assert_eq!(seen.values[&Channel::SpreadByDte(0)], vec![0.5]);
    assert_eq!(seen.values[&Channel::SpreadByDte(3)], vec![2.0]);
    assert_eq!(seen.values[&Channel::SpreadPct], vec![40.0, 100.0]);
    assert_eq!(seen.values[&Channel::Dte0AtmSpreadPct], vec![40.0]);
    assert_eq!(seen.traced(Channel::Dte0AtmSpreadCurve), vec![0.5]);
    assert_eq!(seen.traced(Channel::Dte0AtmMidCurve), vec![1.25]);
    assert!(seen.traces.iter().all(|t| t.1 == RTH_OPEN_UTC_NS + 5 * NS_PER_MINUTE && t.3 == -4));
    assert_eq!(t.reservoir_capacity(), 7);
}

// ─── ZeroDteTracker ──────────────────────────────────────────────────────────

#[test]
fn test_filters_non_0dte() {
    let mut t = ZeroDteTracker::new(1000);
    t.begin_day(&make_day_context());
    let c = make_contract_call(190.0);
    let weekly = make_quote_event(&c, 5.0, 5.10, 7, Moneyness::Atm);
    t.process_event(&weekly, 3);
    t.end_of_day(0);
    let r = t.finalize();
    assert_eq!(count(&r, "total_0dte_atm_events"), 0);
}

#[test]
fn test_filters_non_atm() {
    let mut t = ZeroDteTracker::new(1000);
    t.begin_day(&make_day_context());
    let c = make_contract_call(250.0);
    let otm = make_quote_event(&c, 0.01, 0.02, 0, Moneyness::DeepOtm);
    t.process_event(&otm, 3);
    t.end_of_day(0);
    let r = t.finalize();
    assert_eq!(count(&r, "total_0dte_atm_events"), 0);
}

#[test]
fn test_counts_0dte_atm() {
    let mut t = ZeroDteTracker::new(1000);
    t.begin_day(&make_day_context());
    let c = make_contract_call(190.0);
    let e = make_quote_event(&c, 1.00, 1.05, 0, Moneyness::Atm);
    t.process_event(&e, 3);
    t.process_event(&e, 3);
    t.end_of_day(0);
    let r = t.finalize();
    assert_eq!(count(&r, "total_0dte_atm_events"), 2);
    assert_eq!(count(&r, "n_0dte_days"), 1);
}

#[test]
fn test_call_put_separation() {
    let mut t = ZeroDteTracker::new(1000);
    let mut seen = Observed::default();
    t.begin_day(&make_day_context());
    let call = make_contract_call(190.0);
    let put = make_contract_put(190.0);
    let qc = make_quote_event(&call, 1.00, 1.05, 0, Moneyness::Atm);
    let qp = make_quote_event(&put, 0.80, 0.85, 0, Moneyness::Atm);
    seen.take(t.process_event(&qc, 3));
    seen.take(t.process_event(&qp, 3));
    seen.take(t.end_of_day(0));
    assert_eq!(seen.count(Channel::AtmCallSpread), 1);
    assert_eq!(seen.count(Channel::AtmPutSpread), 1);
}

#[test]
fn zero_dte_trades_and_imbalances() {
    let mut t = ZeroDteTracker::new(1000);
    let mut seen = Observed::default();
    t.begin_day(&make_day_context());
    let c = make_contract_call(190.0);
    let mut e = make_trade_event(&c, 1.02, 30, 1.00, 1.10, 0, Moneyness::Atm);
    e.bid_sz = 30;
    e.ask_sz = 10;
    seen.take(t.process_event(&e, 0));
    e.bid_sz = 0;
    e.ask_sz = 0;
    e.trade_size = 0;
    seen.take(t.process_event(&e, 0));
    assert_eq!(seen.values[&Channel::AtmBidAskImbalance], vec![0.5]);
    assert_eq!(seen.values[&Channel::AtmTradeSize], vec![30.0]);
    assert_eq!(seen.traced(Channel::AtmTradeVolumeCurve), vec![30.0]);
    assert_eq!(seen.traced(Channel::AtmTradeCountCurve), vec![1.0]);
    assert_eq!(seen.count(Channel::AtmCallPremium), 2);
    seen.take(t.end_of_day(0));
    assert_eq!(seen.values[&Channel::TradesPer0dteDay], vec![1.0]);
    assert_eq!(seen.values[&Channel::VolumePer0dteDay], vec![30.0]);
    t.reset_day();
    // A day without such events is a day, but adds nothing to the statistics.
    assert!(t.end_of_day(1).is_empty());
    let r = t.finalize();
    assert_eq!(count(&r, "n_days"), 2);
    assert_eq!(count(&r, "n_0dte_days"), 1);
    assert_eq!(count(&r, "total_0dte_atm_trades"), 1);
    assert_eq!(count(&r, "total_0dte_atm_events"), 2);
}

// ─── PremiumDecayTracker ─────────────────────────────────────────────────────

#[test]
fn test_tracks_first_last_premium() {
    let mut t = PremiumDecayTracker::new(RATE);
    let mut seen = Observed::default();
    t.begin_day(&make_day_context());
    let c = make_contract_call(190.0);
    let e1 = make_quote_event(&c, 2.00, 2.10, 0, Moneyness::Atm);
    let e2 = make_quote_event(&c, 0.50, 0.60, 0, Moneyness::Atm);
    seen.take(t.process_event(&e1, 3));
    seen.take(t.process_event(&e2, 3));
    seen.take(t.end_of_day(0));
    let decay = seen.mean(Channel::DailyCallDecayPct);
    // First mid = 2.05, last mid = 0.55. Decay = (2.05 - 0.55) / 2.05 * 100 = 73.2%
    assert!(decay > 70.0 && decay < 75.0, "Decay should be ~73%, got {}", decay);
    assert!((decay - 1.5 / 2.05 * 100.0).abs() < 1e-9);
}

#[test]
fn test_empty_day_handling() {
    let mut t = PremiumDecayTracker::new(RATE);
    t.begin_day(&make_day_context());
    t.end_of_day(0);
    let r = t.finalize();
    assert_eq!(count(&r, "n_0dte_days"), 0);
}

#[test]
fn premium_decay_test_finalize_structure() {
    let t = PremiumDecayTracker::new(RATE);
    let r = t.finalize();
    assert_eq!(find(&r, Key::One("tracker")), Some(Value::Text("PremiumDecayTracker")));
    assert!(find(&r, Key::One("daily_call_decay_pct")).is_some());
    assert!(find(&r, Key::One("intraday_call_premium_curve")).is_some());
}

#[test]
fn premiums_are_traced_and_reset_with_the_day() {
    let mut t = PremiumDecayTracker::new(RATE);
    let mut seen = Observed::default();
    t.begin_day(&make_day_context());
    let put = make_contract_put(190.0);
    seen.take(t.process_event(&make_quote_event(&put, 1.0, 3.0, 0, Moneyness::Atm), 0));
    assert_eq!(seen.traced(Channel::PutPremiumCurve), vec![2.0]);
    assert_eq!(seen.traced(Channel::PutPremiumToSpreadCurve), vec![1.0]);
    seen.take(t.end_of_day(0));
    assert_eq!(seen.values[&Channel::DailyPutDecayPct], vec![0.0]);
    assert_eq!(seen.count(Channel::DailyCallDecayPct), 0);
    t.reset_day();
    assert!(t.end_of_day(1).is_empty());
    // A premium that rises decays by less than nothing.
    t.reset_day();
    seen.take(t.process_event(&make_quote_event(&put, 1.0, 3.0, 0, Moneyness::Atm), 0));
    seen.take(t.process_event(&make_quote_event(&put, 2.0, 4.0, 0, Moneyness::Atm), 0));
    seen.take(t.end_of_day(2));
    assert_eq!(seen.values[&Channel::DailyPutDecayPct], vec![0.0, -50.0]);
    assert_eq!(count(&t.finalize(), "n_0dte_days"), 2);
    assert_eq!(t.risk_free_rate(), RATE);
}

// ─── VolumeTracker ───────────────────────────────────────────────────────────

#[test]
fn test_counts_trades_only() {
    let mut t = VolumeTracker::new(1000);
    t.begin_day(&make_day_context());
    let c = make_contract_call(190.0);
    let q = make_quote_event(&c, 1.0, 1.05, 0, Moneyness::Atm);
    let tr = make_trade_event(&c, 1.02, 50, 1.0, 1.05, 0, Moneyness::Atm);
    t.process_event(&q, 3);
    t.process_event(&tr, 3);
    t.end_of_day(0);
    let r = t.finalize();
    assert_eq!(count(&r, "total_trades"), 1);
    assert_eq!(count(&r, "total_volume"), 50);
}

#[test]
fn test_pcr_zero_calls() {
    let mut t = VolumeTracker::new(1000);
    t.begin_day(&make_day_context());
    let p = make_contract_put(190.0);
    let tr = make_trade_event(&p, 0.80, 10, 0.75, 0.85, 0, Moneyness::Atm);
    t.process_event(&tr, 3);
    t.end_of_day(0);
    let r = t.finalize();
    assert_eq!(
        find(&r, Key::One("put_call_ratio_volume")),
        Some(Value::Null),
        "PCR should be NaN/null when no calls"
    );
}

#[test]
fn volume_test_dte_bucketing() {
    let mut t = VolumeTracker::new(1000);
    t.begin_day(&make_day_context());
    let c = make_contract_call(190.0);
    let t0 = make_trade_event(&c, 1.0, 10, 0.95, 1.05, 0, Moneyness::Atm);
    let t7 = make_trade_event(&c, 1.0, 20, 0.95, 1.05, 7, Moneyness::Atm);
    t.process_event(&t0, 3);
    t.process_event(&t7, 3);
    t.end_of_day(0);
    let r = t.finalize();
    assert_eq!(find(&r, Key::Three("volume_by_dte", "0dte", "volume")), Some(Value::Count(10)));
    assert_eq!(find(&r, Key::Three("volume_by_dte", "2_7dte", "volume")), Some(Value::Count(20)));
}

#[test]
fn volume_test_finalize_structure() {
    let t = VolumeTracker::new(1000);
    let r = t.finalize();
    assert_eq!(find(&r, Key::One("tracker")), Some(Value::Text("VolumeTracker")));
    assert!(find(&r, Key::Three("volume_by_dte", "0dte", "volume")).is_some());
    assert!(find(&r, Key::One("put_call_ratio_volume")).is_some());
}

#[test]
fn volumes_split_by_kind_class_and_day() {
    let mut t = VolumeTracker::new(1000);
    let mut seen = Observed::default();
    t.begin_day(&make_day_context());
    let call = make_contract_call(190.0);
    let put = make_contract_put(190.0);
    seen.take(t.process_event(&make_trade_event(&call, 1.0, 40, 0.9, 1.1, 0, Moneyness::Itm), 0));
    seen.take(t.process_event(&make_trade_event(&put, 1.0, 10, 0.9, 1.1, 1, Moneyness::Otm), 0));
    seen.take(t.process_event(&make_trade_event(&put, 1.0, 0, 0.9, 1.1, 1, Moneyness::Otm), 0));
    seen.take(t.end_of_day(0));
    assert_eq!(seen.values[&Channel::TradeSize], vec![40.0, 10.0]);
    assert_eq!(seen.values[&Channel::CallTradeSize], vec![40.0]);
    assert_eq!(seen.values[&Channel::PutTradeSize], vec![10.0]);
    assert_eq!(seen.traced(Channel::AllVolumeCurve), vec![40.0, 10.0]);
    assert_eq!(seen.traced(Channel::Dte0VolumeCurve), vec![40.0]);
    assert_eq!(seen.values[&Channel::DailyVolume], vec![50.0]);
    assert_eq!(seen.values[&Channel::DailyTrades], vec![2.0]);
    let r = t.finalize();
    assert_eq!(count(&r, "call_volume"), 40);
    assert_eq!(count(&r, "put_volume"), 10);
    assert_eq!(ratio(find(&r, Key::One("put_call_ratio_volume"))), 0.25);
    assert_eq!(ratio(find(&r, Key::One("dte0_volume_share_pct"))), 80.0);
    assert_eq!(find(&r, Key::Two("volume_by_moneyness", "itm")), Some(Value::Count(40)));
    assert_eq!(find(&r, Key::Two("volume_by_moneyness", "otm")), Some(Value::Count(10)));
    assert_eq!(find(&r, Key::Three("volume_by_dte", "1dte", "trades")), Some(Value::Count(1)));
    t.reset_day();
    seen.take(t.end_of_day(1));
    assert_eq!(seen.values[&Channel::DailyVolume], vec![50.0, 0.0]);
}

// ─── GreeksTracker ───────────────────────────────────────────────────────────

/// An answer of volatility 0.3 with plain Greeks.
fn solved() -> IvSolution {
    IvSolution {
        sigma: Some(0.3f64.to_bits()),
        delta: 0.5f64.to_bits(),
        gamma: 0.1f64.to_bits(),
        vega: 0.2f64.to_bits(),
    }
}

fn answer(t: &mut GreeksTracker, seen: &mut Observed, effects: Vec<Effect>, with: IvSolution) {
    let before = seen.problems.len();
    seen.take(effects);
    for problem in seen.problems[before..].to_vec() {
        assert!(t.awaits_solution(&problem));
        let effects = t.resolve(&problem, &with);
        assert!(!t.awaits_solution(&problem));
        seen.take(effects);
    }
}

#[test]
fn test_iv_computation_fires_for_atm() {
    let mut t = GreeksTracker::with_sample_interval(RATE, 1000, 1);
    let mut seen = Observed::default();
    t.begin_day(&make_day_context());
    let c = make_contract_call(190.0);
    let e = make_quote_event(&c, 1.50, 1.60, 0, Moneyness::Atm);
    let effects = t.process_event(&e, 3);
    answer(&mut t, &mut seen, effects, solved());
    t.end_of_day(0);
    let r = t.finalize();
    let computed = count(&r, "iv_computed");
    assert!(
        computed >= 1 || count(&r, "iv_failed") >= 1,
        "Should attempt at least 1 IV computation"
    );
}

#[test]
fn test_multiple_iv_computations_with_sampling() {
    let mut t = GreeksTracker::with_sample_interval(RATE, 1000, 10);
    let mut seen = Observed::default();
    t.begin_day(&make_day_context());
    let c = make_contract_call(190.0);
    for _ in 0..500 {
        let e = make_quote_event(&c, 1.50, 1.60, 0, Moneyness::Atm);
        let effects = t.process_event(&e, 3);
        answer(&mut t, &mut seen, effects, solved());
    }
    t.end_of_day(0);
    let r = t.finalize();
    let computed = count(&r, "iv_computed");
    let failed = count(&r, "iv_failed");
    let total_attempts = computed + failed;
    assert_eq!(count(&r, "atm_quote_count"), 500);
    assert_eq!(
        total_attempts, 50,
        "500 events / interval 10 = 50 attempts, got {}",
        total_attempts
    );
}

#[test]
fn test_non_atm_ignored() {
    let mut t = GreeksTracker::new(RATE, 1000);
    t.begin_day(&make_day_context());
    let c = make_contract_call(250.0);
    let e = make_quote_event(&c, 0.01, 0.02, 0, Moneyness::DeepOtm);
    assert!(t.process_event(&e, 3).is_empty());
    t.end_of_day(0);
    let r = t.finalize();
    assert_eq!(count(&r, "iv_computed") + count(&r, "iv_failed"), 0);
}

#[test]
fn greeks_test_finalize_structure() {
    let t = GreeksTracker::new(RATE, 1000);
    let r = t.finalize();
    assert_eq!(find(&r, Key::One("tracker")), Some(Value::Text("GreeksTracker")));
    assert!(find(&r, Key::Two("iv_by_dte", "0dte")).is_some());
    assert!(find(&r, Key::One("dte0_atm_call_iv")).is_some());
    assert!(find(&r, Key::One("intraday_dte0_atm_iv_curve")).is_some());
    assert_eq!(
        find(&r, Key::One("dte0_atm_delta_call")),
        Some(Value::Summary(Channel::Dte0AtmDeltaCall))
    );
    assert_eq!(count(&r, "iv_sample_interval"), 100);
}

#[test]
fn the_first_quote_of_each_day_is_sampled() {
    let mut t = GreeksTracker::with_sample_interval(RATE, 1000, 4);
    let c = make_contract_call(190.0);
    let e = make_quote_event(&c, 1.50, 1.60, 0, Moneyness::Atm);
    for day in 0..2 {
        t.begin_day(&make_day_context());
        let sampled: Vec<bool> = (0..6).map(|_| !t.process_event(&e, 0).is_empty()).collect();
        assert_eq!(sampled, vec![true, false, false, false, true, false]);
        t.end_of_day(day);
        t.reset_day();
    }
    assert_eq!(count(&t.finalize(), "atm_quote_count"), 12);
}

#[test]
fn problems_state_the_quote() {
    let mut t = GreeksTracker::with_sample_interval(RATE, 9, 0);
    t.begin_day(&make_day_context());
    let put = make_contract_put(185.0);
    let effects = t.process_event(&make_quote_event(&put, 1.5, 1.6, 3, Moneyness::Atm), 0);
    let problem = match effects[0] {
        Effect::SolveIv(problem) => problem,
        _ => panic!("no problem"),
    };
    assert_eq!(problem.strike, 185_000);
    assert_eq!(problem.mid, Fraction { num: 3_100_000_000, den: 2_000_000_000 });
    assert_eq!(problem.underlying_price, Fraction { num: 190, den: 1 });
    assert_eq!(problem.years, Fraction { num: 3, den: 365 });
    assert_eq!(problem.risk_free_rate, RATE);
    assert!(!problem.is_call);
    assert_eq!(t.reservoir_capacity(), 9);
}

#[test]
fn answers_go_to_the_distributions_of_their_kind() {
    let mut t = GreeksTracker::with_sample_interval(RATE, 1000, 1);
    let mut seen = Observed::default();
    t.begin_day(&make_day_context());
    let call = make_contract_call(190.0);
    let put = make_contract_put(190.0);
    let effects = t.process_event(&make_quote_event(&call, 1.5, 1.6, 0, Moneyness::Atm), 0);
    answer(&mut t, &mut seen, effects, solved());
    let mut other = solved();
    other.delta = (-0.5f64).to_bits();
    other.gamma = f64::NAN.to_bits();
    other.vega = f64::INFINITY.to_bits();
    let effects = t.process_event(&make_quote_event(&put, 1.5, 1.6, 0, Moneyness::Atm), 0);
    answer(&mut t, &mut seen, effects, other);
    let effects = t.process_event(&make_quote_event(&put, 1.5, 1.6, 30, Moneyness::Atm), 0);
    answer(&mut t, &mut seen, effects, solved());
    assert_eq!(seen.values[&Channel::IvByDte(0)], vec![0.3, 0.3]);
    assert_eq!(seen.values[&Channel::IvByDte(3)], vec![0.3]);
    assert_eq!(seen.values[&Channel::Dte0AtmCallIv], vec![0.3]);
    assert_eq!(seen.values[&Channel::Dte0AtmPutIv], vec![0.3]);
    assert_eq!(seen.values[&Channel::Dte0AtmDeltaCall], vec![0.5]);
    assert_eq!(seen.values[&Channel::Dte0AtmDeltaPut], vec![-0.5]);
    assert_eq!(seen.values[&Channel::Dte0AtmGamma], vec![0.1]);
    assert_eq!(seen.values[&Channel::Dte0AtmVega], vec![0.2]);
    assert_eq!(seen.traced(Channel::Dte0AtmIvCurve), vec![0.3, 0.3]);
    let r = t.finalize();
    assert_eq!(count(&r, "iv_computed"), 3);
    assert_eq!(ratio(find(&r, Key::One("iv_success_rate"))), 1.0);
}

#[test]
fn volatilities_beyond_the_cap_fail() {
    let mut t = GreeksTracker::with_sample_interval(RATE, 1000, 1);
    let mut seen = Observed::default();
    t.begin_day(&make_day_context());
    let c = make_contract_call(190.0);
    let e = make_quote_event(&c, 1.5, 1.6, 0, Moneyness::Atm);
    let sigmas = [
        None,
        Some(5.0),
        Some(7.0),
        Some(0.0),
        Some(-0.3),
        Some(f64::NAN),
        Some(f64::INFINITY),
        Some(4.999),
    ];
    for sigma in sigmas {
        let mut s = solved();
        s.sigma = sigma.map(f64::to_bits);
        let effects = t.process_event(&e, 0);
        answer(&mut t, &mut seen, effects, s);
    }
    assert_eq!(seen.values[&Channel::Dte0AtmCallIv], vec![4.999]);
    let r = t.finalize();
    assert_eq!((count(&r, "iv_computed"), count(&r, "iv_failed")), (1, 7));
    t.set_max_iv(10.0f64.to_bits());
    let mut s = solved();
    s.sigma = Some(7.0f64.to_bits());
    let effects = t.process_event(&e, 0);
    answer(&mut t, &mut seen, effects, s);
    assert_eq!(count(&t.finalize(), "iv_computed"), 2);
}

#[test]
fn answers_are_sorted_by_their_own_problems() {
    let mut t = GreeksTracker::with_sample_interval(RATE, 1000, 1);
    let mut seen = Observed::default();
    t.begin_day(&make_day_context());
    let (call, put) = (make_contract_call(190.0), make_contract_put(190.0));
    let first = t.process_event(&make_quote_event(&call, 1.50, 1.60, 0, Moneyness::Atm), 0);
    let second = t.process_event(&make_quote_event(&put, 1.50, 1.60, 3, Moneyness::Atm), 0);
    seen.take(first);
    seen.take(second);
    let problems = seen.problems.clone();
    assert_eq!(problems.len(), 2);
    // The later day has another offset; the answers keep that of their events.
    let mut ctx = make_day_context();
    ctx.utc_offset = -4;
    t.begin_day(&ctx);
    for problem in problems.iter().rev() {
        assert!(t.awaits_solution(problem));
        for effect in t.resolve(problem, &solved()) {
            if let Effect::Trace { utc_offset, ts_event, .. } = effect {
                assert_eq!((utc_offset, ts_event), (-5, problem.ts_event));
            }
            seen.take(vec![effect]);
        }
        assert!(!t.awaits_solution(problem));
    }
    assert_eq!(seen.values[&Channel::IvByDte(2)], vec![0.3]);
    assert_eq!(seen.values[&Channel::IvByDte(0)], vec![0.3]);
    assert_eq!(seen.values[&Channel::Dte0AtmDeltaCall], vec![0.5]);
    assert!(!seen.values.contains_key(&Channel::Dte0AtmPutIv));
    let r = t.finalize();
    assert_eq!((count(&r, "iv_computed"), count(&r, "iv_failed")), (2, 0));
}

#[test]
fn trackers_without_problems_await_no_answer() {
    let mut greeks = GreeksTracker::with_sample_interval(RATE, 1000, 1);
    let mut seen = Observed::default();
    greeks.begin_day(&make_day_context());
    let c = make_contract_call(190.0);
    let e = make_quote_event(&c, 1.50, 1.60, 0, Moneyness::Atm);
    seen.take(greeks.process_event(&e, 0));
    let problem = seen.problems[0];
    let mut volume = VolumeTracker::new(10);
    volume.process_event(&e, 0);
    assert!(!volume.awaits_solution(&problem) && greeks.awaits_solution(&problem));
    assert!(volume.resolve(&problem, &solved()).is_empty());
    let mut other = problem;
    other.is_call = false;
    assert!(greeks.resolve(&other, &solved()).is_empty());
    assert_eq!(count(&greeks.finalize(), "iv_computed"), 0);
    assert!(greeks.awaits_solution(&problem));
}

#[test]
fn counters_are_those_of_the_history() {
    let (call, put) = (make_contract_call(190.0), make_contract_put(190.0));
    let mut quality = QualityTracker::new();
    let mut volume = VolumeTracker::new(100);
    let mut effective = OptionsEffectiveSpreadTracker::new();
    let (mut q, mut v, mut e) =
        (Observed::default(), Observed::default(), Observed::default());
    for day in 0..3u32 {
        quality.begin_day(&make_day_context());
        volume.begin_day(&make_day_context());
        effective.begin_day(&make_day_context());
        for event in [
            make_quote_event(&call, 1.00, 1.10, 0, Moneyness::Atm),
            make_trade_event(&call, 1.08, 5, 1.00, 1.10, 0, Moneyness::Atm),
            make_trade_event(&put, 1.10, 60, 1.00, 1.10, 9, Moneyness::Otm),
            make_trade_event(&put, 1.00, 0, 1.00, 1.10, 9, Moneyness::Otm),
        ] {
            q.take(quality.process_event(&event, 0));
            v.take(volume.process_event(&event, 0));
            e.take(effective.process_event(&event, 0));
        }
        q.take(quality.end_of_day(day));
        v.take(volume.end_of_day(day));
        e.take(effective.end_of_day(day));
        quality.reset_day();
        volume.reset_day();
        effective.reset_day();
    }
    let r = quality.finalize();
    assert_eq!((count(&r, "total_events"), count(&r, "trade_events")), (12, 9));
    assert_eq!(q.values[&Channel::EventsPerDay], vec![4.0, 4.0, 4.0]);
    let r = volume.finalize();
    assert_eq!((count(&r, "total_trades"), count(&r, "total_volume")), (6, 195));
    assert_eq!(v.values[&Channel::TradeSize].len(), 6);
    assert_eq!(v.values[&Channel::PutTradeSize], vec![60.0, 60.0, 60.0]);
    assert_eq!(v.values[&Channel::DailyVolume], vec![65.0, 65.0, 65.0]);
    assert_eq!(count(&effective.finalize(), "total_trades"), 6);
    assert_eq!(e.values[&Channel::EffectiveSpread(0, 2)].len(), 3);
    assert_eq!(e.values[&Channel::QuotedSpread(3, 3)].len(), 3);
    assert_eq!(e.values[&Channel::EffectiveSpreadBySize(4)].len(), 3);
}

#[test]
fn finiteness_is_read_from_the_encoding() {
    for x in [0.0, -0.0, 1.5, -1.5, f64::MAX, f64::MIN, f64::MIN_POSITIVE] {
        assert!(is_finite(x.to_bits()));
    }
    for x in [f64::NAN, -f64::NAN, f64::INFINITY, f64::NEG_INFINITY] {
        assert!(!is_finite(x.to_bits()));
    }
}

// ─── PutCallRatioTracker ─────────────────────────────────────────────────────

#[test]
fn test_pcr_computation() {
    let mut t = PutCallRatioTracker::new();
    let mut seen = Observed::default();
    t.begin_day(&make_day_context());
    let call = make_contract_call(190.0);
    let put = make_contract_put(190.0);
    let tc = make_trade_event(&call, 1.0, 100, 0.95, 1.05, 0, Moneyness::Atm);
    let tp = make_trade_event(&put, 0.8, 50, 0.75, 0.85, 0, Moneyness::Atm);
    seen.take(t.process_event(&tc, 3));
    seen.take(t.process_event(&tp, 3));
    seen.take(t.end_of_day(0));
    let pcr = seen.mean(Channel::PcrVolumeDaily);
    assert!((pcr - 0.5).abs() < 1e-10, "PCR: 50/100 = 0.5, got {}", pcr);
}

#[test]
fn test_no_calls_no_pcr() {
    let mut t = PutCallRatioTracker::new();
    let mut seen = Observed::default();
    t.begin_day(&make_day_context());
    let put = make_contract_put(190.0);
    let tp = make_trade_event(&put, 0.8, 50, 0.75, 0.85, 0, Moneyness::Atm);
    seen.take(t.process_event(&tp, 3));
    seen.take(t.end_of_day(0));
    assert_eq!(seen.count(Channel::PcrVolumeDaily), 0, "No PCR when no call volume");
}

#[test]
fn put_call_test_day_rollover() {
    let mut t = PutCallRatioTracker::new();
    t.begin_day(&make_day_context());
    let call = make_contract_call(190.0);
    let tc = make_trade_event(&call, 1.0, 100, 0.95, 1.05, 0, Moneyness::Atm);
    t.process_event(&tc, 3);
    t.end_of_day(0);
    t.reset_day();
    t.begin_day(&make_day_context());
    t.end_of_day(1);
    let r = t.finalize();
    assert_eq!(count(&r, "n_days"), 2);
}

#[test]
fn put_call_test_finalize_structure() {
    let t = PutCallRatioTracker::new();
    let r = t.finalize();
    assert_eq!(find(&r, Key::One("tracker")), Some(Value::Text("PutCallRatioTracker")));
    assert!(find(&r, Key::One("pcr_volume_daily")).is_some());
    assert!(find(&r, Key::One("pcr_0dte_daily")).is_some());
}

#[test]
fn put_call_ratios_are_per_day_and_kind() {
    let mut t = PutCallRatioTracker::default();
    let mut seen = Observed::default();
    let call = make_contract_call(190.0);
    let put = make_contract_put(190.0);
    seen.take(t.process_event(&make_trade_event(&call, 1.0, 10, 0.9, 1.1, 0, Moneyness::Atm), 0));
    seen.take(t.process_event(&make_trade_event(&call, 1.0, 30, 0.9, 1.1, 4, Moneyness::Atm), 0));
    seen.take(t.process_event(&make_trade_event(&put, 1.0, 5, 0.9, 1.1, 0, Moneyness::Atm), 0));
    seen.take(t.process_event(&make_trade_event(&put, 1.0, 15, 0.9, 1.1, 4, Moneyness::Atm), 0));
    seen.take(t.process_event(&make_trade_event(&put, 1.0, 20, 0.9, 1.1, 4, Moneyness::Atm), 0));
    seen.take(t.end_of_day(0));
    assert_eq!(seen.values[&Channel::PcrVolumeDaily], vec![1.0]);
    assert_eq!(seen.values[&Channel::PcrTradesDaily], vec![1.5]);
    assert_eq!(seen.values[&Channel::Pcr0dteDaily], vec![0.5]);
    assert_eq!(seen.traced(Channel::CallVolumeCurve), vec![10.0, 30.0]);
    assert_eq!(seen.traced(Channel::Dte0CallVolumeCurve), vec![10.0]);
    assert_eq!(seen.traced(Channel::PutVolumeCurve), vec![5.0, 15.0, 20.0]);
    assert_eq!(seen.traced(Channel::Dte0PutVolumeCurve), vec![5.0]);
    t.reset_day();
    assert!(t.end_of_day(1).is_empty());
}

// ─── OptionsEffectiveSpreadTracker ───────────────────────────────────────────

#[test]
fn test_size_bucket_index() {
    assert_eq!(size_bucket_index(1), 0);   // "1"
    assert_eq!(size_bucket_index(3), 1);   // "2-5"
    assert_eq!(size_bucket_index(5), 1);   // "2-5"
    assert_eq!(size_bucket_index(10), 2);  // "6-10"
    assert_eq!(size_bucket_index(50), 3);  // "11-50"
    assert_eq!(size_bucket_index(100), 4); // "51-100"
    assert_eq!(size_bucket_index(500), 5); // "100+"
}

#[test]
fn test_effective_spread_formula() {
    // Effective spread = 2 * |trade_price - mid| (Lee & Ready 1991)
    // bid=1.00, ask=1.10 => mid=1.05, trade=1.08 => eff=2*|1.08-1.05|=0.06
    let mut t = OptionsEffectiveSpreadTracker::new();
    let mut seen = Observed::default();
    t.begin_day(&make_day_context());
    let c = make_contract_call(190.0);
    let e = make_trade_event(&c, 1.08, 5, 1.00, 1.10, 0, Moneyness::Atm);
    seen.take(t.process_event(&e, 0));
    seen.take(t.end_of_day(0));
    let r = t.finalize();
    assert_eq!(count(&r, "total_trades"), 1);
    let channel = |name: &'static str| match find(&r, Key::Four("by_dte_moneyness", "0dte", "atm", name)) {
        Some(Value::MeanStdCount(channel)) => channel,
        other => panic!("{} is {:?}", name, other),
    };
    let eff_mean = seen.mean(channel("effective_spread"));
    let quot_mean = seen.mean(channel("quoted_spread"));
    assert!(
        (eff_mean - 0.06).abs() < 1e-10,
        "Effective spread: 2*|1.08-1.05| = 0.06, got {}",
        eff_mean
    );
    assert!(
        (quot_mean - 0.10).abs() < 1e-10,
        "Quoted spread: 1.10-1.00 = 0.10, got {}",
        quot_mean
    );
}

#[test]
fn test_trade_through_classification() {
    let mut t = OptionsEffectiveSpreadTracker::new();
    t.begin_day(&make_day_context());
    let c = make_contract_call(190.0);
    // Inside BBO: trade at 1.05, between bid=1.00 and ask=1.10
    let inside = make_trade_event(&c, 1.05, 1, 1.00, 1.10, 0, Moneyness::Atm);
    // At BBO: trade at exactly bid=1.00
    let at_bbo = make_trade_event(&c, 1.00, 1, 1.00, 1.10, 0, Moneyness::Atm);
    // Outside BBO: trade at 1.15, above ask=1.10
    let outside = make_trade_event(&c, 1.15, 1, 1.00, 1.10, 0, Moneyness::Atm);
    t.process_event(&inside, 0);
    t.process_event(&at_bbo, 0);
    t.process_event(&outside, 0);
    t.end_of_day(0);
    let r = t.finalize();
    let loc = |name: &'static str| find(&r, Key::Three("trade_location", "all", name));
    assert_eq!(loc("inside_bbo"), Some(Value::Count(1)));
    assert_eq!(loc("at_bbo"), Some(Value::Count(1)));
    assert_eq!(loc("outside_bbo"), Some(Value::Count(1)));
    let ttr = ratio(loc("trade_through_rate"));
    assert!(
        (ttr - 1.0 / 3.0).abs() < 1e-10,
        "Trade-through rate: 1/3, got {}",
        ttr
    );
}

#[test]
fn test_quotes_ignored() {
    let mut t = OptionsEffectiveSpreadTracker::new();
    t.begin_day(&make_day_context());
    let c = make_contract_call(190.0);
    let q = make_quote_event(&c, 1.00, 1.10, 0, Moneyness::Atm);
    t.process_event(&q, 0);
    t.end_of_day(0);
    let r = t.finalize();
    assert_eq!(count(&r, "total_trades"), 0, "Quote events should not be counted as trades");
}

#[test]
fn test_zero_size_trade_ignored() {
    let mut t = OptionsEffectiveSpreadTracker::new();
    t.begin_day(&make_day_context());
    let c = make_contract_call(190.0);
    let e = make_trade_event(&c, 1.05, 0, 1.00, 1.10, 0, Moneyness::Atm);
    t.process_event(&e, 0);
    t.end_of_day(0);
    let r = t.finalize();
    assert_eq!(count(&r, "total_trades"), 0, "Zero-size trades should be filtered");
}

#[test]
fn effective_spread_test_finalize_structure() {
    let t = OptionsEffectiveSpreadTracker::new();
    let r = t.finalize();
    assert_eq!(
        find(&r, Key::One("tracker")),
        Some(Value::Text("OptionsEffectiveSpreadTracker"))
    );
    assert!(find(&r, Key::Three("trade_location", "all", "inside_bbo")).is_some());
    assert!(find(&r, Key::One("by_dte_moneyness")).is_some());
    assert!(find(&r, Key::One("by_size_bucket")).is_some());
    assert!(find(&r, Key::One("intraday_effective_spread_0dte_atm")).is_some());
    assert!(find(&r, Key::One("intraday_quoted_spread_0dte_atm")).is_some());
}

#[test]
fn reports_hold_the_cells_and_sizes_that_have_trades() {
    let mut t = OptionsEffectiveSpreadTracker::default();
    let mut seen = Observed::default();
    let c = make_contract_call(190.0);
    // Below the bid: twice the distance from the mid-price, whichever the side.
    seen.take(t.process_event(&make_trade_event(&c, 0.9, 60, 1.0, 1.5, 8, Moneyness::DeepOtm), 0));
    seen.take(t.process_event(&make_trade_event(&c, 1.5, 2, 1.0, 1.5, 0, Moneyness::Atm), 0));
    assert!((seen.values[&Channel::EffectiveSpread(3, 4)][0] - 0.7).abs() < 1e-12);
    assert_eq!(seen.values[&Channel::EffectiveSpread(0, 2)], vec![0.5]);
    assert_eq!(seen.values[&Channel::QuotedSpread(0, 2)], vec![0.5]);
    assert_eq!(seen.count(Channel::EffectiveSpreadBySize(4)), 1);
    assert_eq!(seen.count(Channel::EffectiveSpreadBySize(1)), 1);
    assert_eq!(seen.traced(Channel::EffectiveSpreadCurve), vec![0.5]);
    assert_eq!(seen.traced(Channel::QuotedSpreadCurve), vec![0.5]);
    let r = t.finalize();
    let cells: Vec<Key> = r
        .iter()
        .map(|row| row.key)
        .filter(|key| matches!(key, Key::Four(_, _, _, "effective_vs_quoted_ratio")))
        .collect();
    assert_eq!(
        cells,
        vec![
            Key::Four("by_dte_moneyness", "0dte", "atm", "effective_vs_quoted_ratio"),
            Key::Four("by_dte_moneyness", "other", "deep_otm", "effective_vs_quoted_ratio"),
        ]
    );
    let sizes: Vec<Value> = r
        .iter()
        .filter(|row| row.key == Key::One("by_size_bucket"))
        .map(|row| row.value)
        .collect();
    assert_eq!(
        sizes,
        vec![
            Value::EmptyArray,
            Value::SizeBucket { label: "2-5", channel: Channel::EffectiveSpreadBySize(1) },
            Value::SizeBucket { label: "51-100", channel: Channel::EffectiveSpreadBySize(4) },
        ]
    );
    let atm = |name: &'static str| find(&r, Key::Three("trade_location", "0dte_atm", name));
    assert_eq!(atm("at_bbo"), Some(Value::Count(1)));
    assert_eq!(atm("outside_bbo"), Some(Value::Count(0)));
    assert_eq!(ratio(atm("price_improvement_rate")), 0.0);
}

#[test]
fn trades_without_a_price_or_a_quote_are_ignored() {
    let mut t = OptionsEffectiveSpreadTracker::new();
    let c = make_contract_call(190.0);
    let no_price = make_trade_event(&c, f64::NAN, 5, 1.0, 1.1, 0, Moneyness::Atm);
    let no_bid = make_trade_event(&c, 1.0, 5, f64::NAN, 1.1, 0, Moneyness::Atm);
    let crossed = make_trade_event(&c, 1.0, 5, 1.2, 1.1, 0, Moneyness::Atm);
    let negative = make_trade_event(&c, -1.0, 5, 1.0, 1.1, 0, Moneyness::Atm);
    for e in [&no_price, &no_bid, &crossed, &negative] {
        assert!(t.process_event(e, 0).is_empty());
    }
    assert_eq!(count(&t.finalize(), "total_trades"), 0);
}
