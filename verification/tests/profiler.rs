use opra_statistical_profiler::cli::{
    load_nvda_fallback_prices, parse_args, price_source, PriceSource,
};
use opra_statistical_profiler::config::{
    BucketConfig, InputConfig, OsRatioConfig, OutputConfig, ProfilerConfig, TrackerConfig,
};
use opra_statistical_profiler::contract::{parse_occ_symbol, ContractMap};
use opra_statistical_profiler::date::Date;
use opra_statistical_profiler::discovery::{
    discover_files, file_date, find_placeholder, plan_days, DiscoveryError,
};
use opra_statistical_profiler::event::{Action, DayContext, Side};
use opra_statistical_profiler::loader::{
    CbboFields, Cmbp1Record, Cmbp1RecordIterator, Decoded, RecordSource,
};
use opra_statistical_profiler::observation::{Channel, Effect, IvProblem, IvSolution};
use opra_statistical_profiler::options_math::moneyness::{Moneyness, MoneynessBuckets};
use opra_statistical_profiler::profiler::{
    all_volumes_zero, enrich, price_or_nan, DailyUnderlyingPrice, Profiler, OUTPUT_SCHEMA_VERSION,
};
use opra_statistical_profiler::report::{Key, Value};
use opra_statistical_profiler::trackers::{GreeksTracker, QualityTracker, VolumeTracker};
use opra_statistical_profiler::underlying::{
    day_context, find_price, parse_trading_date, prices_from_bars, OhlcvBar,
};

const HOUR: u64 = 3_600_000_000_000;

fn input() -> InputConfig {
    InputConfig {
        data_dir: "/data".to_string(),
        filename_pattern: "opra-{date}.cmbp-1.dbn.zst".to_string(),
        symbol: "NVDA".to_string(),
        underlying_prices_file: None,
        risk_free_rate: 50_000_000,
        date_start: None,
        date_end: None,
    }
}

fn date(day: u32) -> Date {
    Date::from_ymd_opt(2025, 11, day).unwrap()
}

fn context(day: u32) -> DayContext {
    DayContext {
        trading_date: date(day),
        utc_offset: -5,
        day_epoch_ns: 0,
        underlying_open: 190_000_000_000,
        underlying_close: 190_000_000_000,
    }
}

fn record(id: u32, action: u8, size: u32) -> Cmbp1Record {
    Cmbp1Record {
        source: RecordSource::Cmbp1,
        instrument_id: id,
        ts_event: 15 * HOUR,
        publisher_id: 3,
        price: 2_050_000_000,
        size,
        action,
        side: b'B',
        flags: 0,
        ts_in_delta: 11,
        ts_recv: 15 * HOUR + 5,
        bid_px: 2_000_000_000,
        ask_px: 2_100_000_000,
        bid_sz: 10,
        ask_sz: 20,
        bid_pb: 4,
        ask_pb: 5,
    }
}

fn contracts() -> ContractMap {
    ContractMap::from_symbols(&vec![
        (1, "NVDA  251114C00190000".to_string()),
        (2, "NVDA  251128P00250000".to_string()),
    ])
}

// ─── Enrichment ──────────────────────────────────────────────────────────────

#[test]
fn prices_are_defined_where_positive_and_not_the_sentinel() {
    assert_eq!(price_or_nan(i64::MAX), None);
    assert_eq!(price_or_nan(0), None);
    assert_eq!(price_or_nan(-5), None);
    assert_eq!(price_or_nan(1_500_000_000), Some(1_500_000_000));
}

#[test]
fn records_become_events() {
    let contract = parse_occ_symbol("NVDA  251121C00210000", 9).unwrap();
    let mut ctx = context(14);
    ctx.underlying_close = 203_000_000_000;
    let (event, fallback) =
        enrich(&ctx, &MoneynessBuckets::default(), &contract, &record(9, b'T', 40));
    assert!(!fallback);
    assert_eq!(event.action, Action::Trade);
    assert_eq!(event.side, Side::Bid);
    assert_eq!(event.dte, 7);
    assert_eq!(event.trade_size, 40);
    assert_eq!(event.trade_price, Some(2_050_000_000));
    assert_eq!((event.bid_px, event.ask_px), (Some(2_000_000_000), Some(2_100_000_000)));
    assert_eq!((event.bid_sz, event.ask_sz), (10, 20));
    // Half an hour after the open: 190 + 13/13.
    let u = event.underlying_price;
    assert_eq!(u.num as f64 / u.den as f64, 191.0);
    // 210 / 191 = 1.0995
    assert_eq!(event.moneyness, Moneyness::Otm);
    assert_eq!(event.moneyness_ratio.unwrap().strike, 210_000);
    assert_eq!((event.publisher_id, event.bid_pb, event.ask_pb), (3, 4, 5));
    assert_eq!((event.ts_in_delta, event.ts_recv), (11, (15 * HOUR + 5) as i64));
}

#[test]
fn quotes_have_no_trade_and_other_bytes_no_meaning() {
    let contract = parse_occ_symbol("NVDA  251121C00210000", 9).unwrap();
    let buckets = MoneynessBuckets::default();
    let (quote, _) = enrich(&context(14), &buckets, &contract, &record(9, b'A', 40));
    assert_eq!((quote.action, quote.trade_size), (Action::Quote, 0));
    assert_eq!(quote.trade_price, None);
    let mut r = record(9, b'C', 40);
    r.side = b'N';
    let (other, _) = enrich(&context(14), &buckets, &contract, &r);
    assert_eq!((other.action, other.side, other.trade_size), (Action::Other, Side::Unspecified, 0));
    assert_eq!(other.trade_price, None);
    let mut unpriced = record(9, b'T', 40);
    unpriced.price = i64::MAX;
    assert_eq!(enrich(&context(14), &buckets, &contract, &unpriced).0.trade_price, None);
    r.side = b'A';
    assert_eq!(enrich(&context(14), &buckets, &contract, &r).0.side, Side::Ask);
}

#[test]
fn without_a_positive_price_moneyness_falls_back() {
    let contract = parse_occ_symbol("NVDA  251121C00190000", 9).unwrap();
    let mut ctx = context(14);
    ctx.underlying_open = 0;
    ctx.underlying_close = 0;
    let (event, fallback) =
        enrich(&ctx, &MoneynessBuckets::default(), &contract, &record(9, b'A', 0));
    assert!(fallback);
    assert_eq!(event.moneyness, Moneyness::Otm);
    assert!(event.moneyness_ratio.is_none());
}

// ─── Engine ──────────────────────────────────────────────────────────────────

fn engine() -> Profiler {
    Profiler::new(&ProfilerConfig::with_defaults(input()))
}

fn finish_problems(p: &mut Profiler, effects: Vec<Effect>) {
    for effect in effects {
        if let Effect::SolveIv(problem) = effect {
            assert!(p.awaits_solution(&problem));
            let solution = IvSolution {
                sigma: Some(0.4f64.to_bits()),
                delta: 0,
                gamma: 0,
                vega: 0,
            };
            p.resolve(&problem, &solution);
            assert!(!p.awaits_solution(&problem));
        }
    }
}

/// Takes records and ends the day with their file.
fn take(p: &mut Profiler, records: &[Cmbp1Record]) {
    let mut it = Cmbp1RecordIterator::new();
    for r in records {
        it.next(Decoded::Record(*r));
        p.process_record(&contracts(), r);
    }
    assert!(p.has_taken(&it) && p.has_room_for(&it));
    p.end_day(&it);
}

#[test]
fn every_record_is_accounted_for() {
    let mut p = engine();
    let map = contracts();
    let mut it = Cmbp1RecordIterator::new();
    assert!(!p.in_day());
    p.begin_day(&context(14));
    assert!(p.in_day());
    let mut flagged = record(1, b'A', 0);
    flagged.flags = 0x04 | 0x08;
    let mut snapshot = record(1, b'X', 0);
    snapshot.flags = 0x20;
    for r in [record(1, b'T', 10), record(2, b'T', 7), record(77, b'T', 5), flagged, snapshot] {
        it.next(Decoded::Record(r));
        assert!(p.has_room());
        let effects = p.process_record(&map, &r);
        finish_problems(&mut p, effects);
    }
    it.next(Decoded::DecodeError);
    it.next(Decoded::UnsupportedRtype(1));
    assert!(p.has_room_for(&it) && p.has_taken(&it));
    p.end_day(&it);
    assert!(!p.in_day());
    let d = p.diagnostics();
    assert_eq!((d.total_decoded, d.unknown_instrument, d.dispatched), (5, 1, 4));
    assert_eq!((d.decode_errors, d.unsupported_rtype, d.cbbo_action_unavailable), (1, 1, 0));
    let o = d.observability;
    assert_eq!((o.action_trade, o.action_quote, o.action_other), (2, 1, 1));
    assert_eq!((o.bad_book_flagged, o.bad_ts_flagged, o.snapshot_flagged), (1, 1, 1));
    assert_eq!(o.moneyness_fallback, 0);
    let prices = vec![DailyUnderlyingPrice { date: date(14), open: 1, close: 1, volume: 700 }];
    let result = p.finish(&prices);
    assert_eq!((result.n_days, result.total_events, result.total_decode_errors), (1, 4, 1));
    assert!(result.diagnostics.conservation_check());
    // Only the trade of the contract that is 14 days from expiry is in the band.
    let os = result.os_report.unwrap();
    assert_eq!(os.per_day[0].opvol, 7);
    assert_eq!(os.per_day[0].eqvol_shares, Some(700));
    let ratio = os.per_day[0].os_ratio.unwrap();
    assert_eq!(ratio.num as f64 / ratio.den as f64, 1.0);
    assert_eq!((os.dte_min, os.dte_max, os.rolling_window_days), (5, 35, 6));
    let names: Vec<&str> = result.reports.iter().map(|r| r.0).collect();
    assert_eq!(
        names,
        vec![
            "QualityTracker",
            "SpreadTracker",
            "ZeroDteTracker",
            "PremiumDecayTracker",
            "VolumeTracker",
            "GreeksTracker",
            "PutCallRatioTracker",
            "OptionsEffectiveSpreadTracker",
        ]
    );
    let quality = &result.reports[0].1;
    assert!(quality.iter().any(|r| r.key == Key::One("total_events") && r.value == Value::Count(4)));
    let greeks = &result.reports[5].1;
    assert!(greeks.iter().any(|r| r.key == Key::One("iv_computed") && r.value == Value::Count(1)));
}

#[test]
fn decoded_records_are_those_of_the_files() {
    let mut p = engine();
    let files = [(14u32, 3usize), (17, 0), (18, 5)];
    for (day, n) in files {
        p.begin_day(&context(day));
        let records: Vec<Cmbp1Record> = (0..n).map(|i| record(i as u32, b'T', 1)).collect();
        take(&mut p, &records);
    }
    assert_eq!(p.diagnostics().total_decoded, 8);
    assert!(p.diagnostics().conservation_check());
    assert_eq!(p.finish(&Vec::new()).n_days, 3);
}

#[test]
fn a_file_that_yielded_other_records_is_told_apart() {
    let mut p = engine();
    p.begin_day(&context(14));
    let mut it = Cmbp1RecordIterator::new();
    assert!(p.has_taken(&it));
    it.next(Decoded::Record(record(1, b'A', 0)));
    assert!(!p.has_taken(&it));
    p.process_record(&contracts(), &record(1, b'A', 0));
    assert!(p.has_taken(&it));
    p.process_record(&contracts(), &record(77, b'A', 0));
    assert!(!p.has_taken(&it));
}

#[test]
fn only_stated_problems_await_an_answer() {
    let mut p = engine();
    p.begin_day(&context(14));
    let effects = p.process_record(&contracts(), &record(1, b'A', 0));
    let problems: Vec<IvProblem> = effects
        .iter()
        .filter_map(|e| match e {
            Effect::SolveIv(problem) => Some(*problem),
            _ => None,
        })
        .collect();
    assert_eq!(problems.len(), 1);
    let problem = problems[0];
    assert_eq!((problem.dte, problem.is_call, problem.strike), (0, true, 190_000));
    let mut other = problem;
    other.dte = 9;
    assert!(p.awaits_solution(&problem) && !p.awaits_solution(&other));
    finish_problems(&mut p, effects);
}

#[test]
fn trackers_may_be_chosen_and_ordered() {
    let config = ProfilerConfig::with_defaults(input());
    let group = (((), VolumeTracker::new(10)), GreeksTracker::new(0, 10));
    let mut p = Profiler::with_trackers(&config, (group, QualityTracker::new()));
    p.begin_day(&context(14));
    let mut it = Cmbp1RecordIterator::new();
    for r in [record(1, b'T', 4), record(2, b'T', 3), record(9, b'T', 8)] {
        it.next(Decoded::Record(r));
        for effect in p.process_record(&contracts(), &r) {
            if let Effect::SolveIv(problem) = effect {
                assert!(p.awaits_solution(&problem));
                let none = IvSolution { sigma: None, delta: 0, gamma: 0, vega: 0 };
                assert!(p.resolve(&problem, &none).is_empty());
                assert!(!p.awaits_solution(&problem));
            }
        }
    }
    assert!(p.has_room());
    let channels: Vec<Channel> = p
        .end_day(&it)
        .into_iter()
        .filter_map(|e| match e {
            Effect::Observe { channel, .. } => Some(channel),
            _ => None,
        })
        .collect();
    assert_eq!(
        channels,
        vec![
            Channel::DailyVolume,
            Channel::DailyTrades,
            Channel::EventsPerDay,
            Channel::TradesPerDay,
            Channel::ContractsPerDay,
        ]
    );
    let reports = p.finish(&Vec::new()).reports;
    let names: Vec<&str> = reports.iter().map(|r| r.0).collect();
    assert_eq!(names, vec!["VolumeTracker", "GreeksTracker", "QualityTracker"]);
    let has = |i: usize, key: &'static str, n: u64| {
        reports[i].1.iter().any(|r| r.key == Key::One(key) && r.value == Value::Count(n))
    };
    assert!(has(0, "total_volume", 7) && has(1, "iv_failed", 1) && has(2, "total_events", 2));
}

#[test]
fn a_run_may_have_no_trackers() {
    let mut p = Profiler::with_trackers(&ProfilerConfig::with_defaults(input()), ());
    p.begin_day(&context(14));
    let mut it = Cmbp1RecordIterator::new();
    let r = record(2, b'T', 6);
    it.next(Decoded::Record(r));
    assert!(p.has_room());
    assert!(p.process_record(&contracts(), &r).is_empty());
    assert!(p.end_day(&it).is_empty());
    let result = p.finish(&Vec::new());
    assert!(result.reports.is_empty());
    assert_eq!(result.os_report.unwrap().per_day[0].opvol, 6);
}

#[test]
fn disabled_trackers_do_not_report() {
    let mut config = ProfilerConfig::with_defaults(input());
    config.trackers.quality = false;
    config.trackers.greeks = false;
    config.os_ratio.enabled = false;
    let mut p = Profiler::new(&config);
    p.begin_day(&context(14));
    take(&mut p, &[record(2, b'T', 7)]);
    let result = p.finish(&Vec::new());
    assert!(result.os_report.is_none());
    assert_eq!(result.reports.len(), 6);
    assert_eq!(result.reports[0].0, "SpreadTracker");
    assert_eq!(result.total_events, 1);
    let volume = &result.reports[3];
    assert_eq!(volume.0, "VolumeTracker");
    assert!(volume.1.iter().any(|r| r.key == Key::One("total_volume") && r.value == Value::Count(7)));
}

#[test]
fn volumes_in_the_band_are_summed_by_day() {
    let mut p = engine();
    for (day, sizes) in [(14u32, vec![3u32, 4]), (17, vec![]), (25, vec![100])] {
        p.begin_day(&context(day));
        let mut records = Vec::new();
        for size in sizes {
            records.push(record(2, b'T', size));
            records.push(record(2, b'A', size));
        }
        take(&mut p, &records);
    }
    let os = p.finish(&Vec::new()).os_report.unwrap();
    // On 25 November the contract is 3 days from expiry, outside of the band.
    let volumes: Vec<u64> = os.per_day.iter().map(|d| d.opvol).collect();
    assert_eq!(volumes, vec![7, 0, 0]);
    assert_eq!(os.n_join_miss, 3);
}

#[test]
fn cbbo_records_are_other_events_without_volume() {
    let mut p = engine();
    let mut it = Cmbp1RecordIterator::new();
    let msg = CbboFields {
        instrument_id: 2,
        ts_event: 15 * HOUR,
        publisher_id: 0,
        price: 1_000_000_000,
        size: 50,
        side: b'A',
        flags: 0,
        ts_recv: 0,
        bid_px: 1,
        ask_px: 2,
        bid_sz: 1,
        ask_sz: 1,
        bid_pb: 0,
        ask_pb: 0,
    };
    let r = Cmbp1Record::from_cbbo(&msg);
    p.begin_day(&context(14));
    it.next(Decoded::Record(r));
    p.process_record(&contracts(), &r);
    p.end_day(&it);
    let d = p.diagnostics();
    assert_eq!(d.observability.action_other, 1);
    assert_eq!(d.cbbo_action_unavailable, 1);
    let os = p.finish(&Vec::new()).os_report.unwrap();
    assert_eq!(os.per_day[0].opvol, 0);
}

#[test]
fn cbbo_records_of_unknown_instruments_lack_no_action() {
    let mut p = engine();
    let mut it = Cmbp1RecordIterator::new();
    let mut msg = CbboFields {
        instrument_id: 77,
        ts_event: 15 * HOUR,
        publisher_id: 0,
        price: 1_000_000_000,
        size: 50,
        side: b'A',
        flags: 0,
        ts_recv: 0,
        bid_px: 1,
        ask_px: 2,
        bid_sz: 1,
        ask_sz: 1,
        bid_pb: 0,
        ask_pb: 0,
    };
    p.begin_day(&context(14));
    for (id, known) in [(77, 0), (1, 1), (78, 1), (2, 2)] {
        msg.instrument_id = id;
        let r = Cmbp1Record::from_cbbo(&msg);
        it.next(Decoded::Record(r));
        p.process_record(&contracts(), &r);
        let d = p.diagnostics();
        assert_eq!((d.cbbo_action_unavailable, d.dispatched), (known, known));
        assert_eq!(d.observability.action_other, known);
    }
    let other = record(1, b'X', 0);
    it.next(Decoded::Record(other));
    p.process_record(&contracts(), &other);
    assert!(p.has_taken(&it));
    p.end_day(&it);
    let d = p.diagnostics();
    assert_eq!((d.cbbo_action_unavailable, d.observability.action_other), (2, 3));
    assert_eq!((d.total_decoded, d.unknown_instrument, d.dispatched), (5, 2, 3));
}

#[test]
fn volumes_may_all_be_zero() {
    let p = |volume: u64| DailyUnderlyingPrice { date: date(14), open: 1, close: 1, volume };
    assert!(all_volumes_zero(&vec![p(0), p(0)]));
    assert!(!all_volumes_zero(&vec![p(0), p(1)]));
    assert!(all_volumes_zero(&Vec::new()));
    assert!(all_volumes_zero(&load_nvda_fallback_prices()));
    assert_eq!(OUTPUT_SCHEMA_VERSION, "2.1.0");
}

// ─── Days and prices ─────────────────────────────────────────────────────────

#[test]
fn trading_dates_are_parsed() {
    assert_eq!(parse_trading_date("2025-11-14").unwrap(), date(14));
    for text in ["2025/11/14", "2025-11-14 and more", "2025-+1-14", "+025-11-14", "20251114"] {
        let e = parse_trading_date(text).unwrap_err();
        assert_eq!(e.message(), format!("Malformed date: {}", text));
    }
    let e = parse_trading_date("2025-13-14").unwrap_err();
    assert_eq!(e.message(), "Invalid date: 2025-13-14");
    let e = parse_trading_date("2025-xx-14").unwrap_err();
    assert_eq!(e.message(), "Malformed date: 2025-xx-14");
    assert!(parse_trading_date("2025-1").is_err());
}

#[test]
fn a_day_needs_an_underlying_price() {
    let prices = load_nvda_fallback_prices();
    let ctx = day_context("2025-11-14", date(14), -5, 42, &prices).unwrap();
    assert_eq!(ctx.underlying_open, 182_860_000_000);
    assert_eq!(ctx.underlying_close, 190_170_000_000);
    assert_eq!((ctx.utc_offset, ctx.day_epoch_ns), (-5, 42));
    let e = day_context("2025-11-15", date(15), -5, 42, &prices).unwrap_err();
    assert_eq!(
        e.message(),
        "No underlying price for trading date 2025-11-15. Configure underlying_prices_file to cover this date, or extend the built-in fallback prices."
    );
}

#[test]
fn the_first_price_of_a_date_counts() {
    let p = |open: i64| DailyUnderlyingPrice { date: date(14), open, close: 1, volume: 0 };
    assert_eq!(find_price(&vec![p(1), p(2)], date(14)), Some(p(1)));
    assert_eq!(find_price(&vec![p(1)], date(13)), None);
}

#[test]
fn bars_become_sorted_prices() {
    let bar = |day: u64, open: i64, close: i64, volume: u64| OhlcvBar {
        ts_event: day * 86_400_000_000_000 + 1,
        open,
        close,
        volume,
    };
    let prices = prices_from_bars(&vec![
        bar(20_406, 5, 6, 7),
        bar(20_405, 0, 6, 7),
        bar(20_404, 1, 2, 3),
        bar(20_405, 6, -1, 7),
        bar(20_404, 9, 9, 9),
    ]);
    let opens: Vec<i64> = prices.iter().map(|p| p.open).collect();
    assert_eq!(opens, vec![1, 9, 5]);
    // 20406 days after the epoch is 14 November 2025.
    assert_eq!(prices[2].date, date(14));
    assert_eq!((prices[2].close, prices[2].volume), (6, 7));
    let last = prices_from_bars(&vec![OhlcvBar { ts_event: u64::MAX, open: 1, close: 1, volume: 0 }]);
    assert_eq!(last[0].date.to_text(), "2554-07-21");
}

#[test]
fn built_in_prices_are_the_eight_days() {
    let prices = load_nvda_fallback_prices();
    let days: Vec<String> = prices.iter().map(|p| p.date.to_text()).collect();
    assert_eq!(
        days,
        vec![
            "2025-11-13", "2025-11-14", "2025-11-17", "2025-11-18", "2025-11-19", "2025-11-20",
            "2025-11-21", "2025-11-24",
        ]
    );
    assert_eq!((prices[5].open, prices[5].close), (195_950_000_000, 180_640_000_000));
}

// ─── Discovery ───────────────────────────────────────────────────────────────

fn names(list: &[&str]) -> Vec<String> {
    list.iter().map(|s| s.to_string()).collect()
}

#[test]
fn files_are_found_by_pattern_and_sorted_by_date() {
    let listing = names(&[
        "opra-20251117.cmbp-1.dbn.zst",
        "opra-2025111.cmbp-1.dbn.zst",
        "opra-20251114.cmbp-1.dbn.zst",
        "opra-2025111x.cmbp-1.dbn.zst",
        "other-20251114.cmbp-1.dbn.zst",
        "opra-20251114.cmbp-1.dbn",
        "opra-20241231.cmbp-1.dbn.zst",
        "",
    ]);
    let files = discover_files(&input(), true, &listing).unwrap();
    let found: Vec<(&str, usize)> = files.iter().map(|f| (f.date.as_str(), f.index)).collect();
    assert_eq!(found, vec![("2024-12-31", 6), ("2025-11-14", 2), ("2025-11-17", 0)]);
    assert_eq!(files[1].yyyymmdd, 20_251_114);
}

#[test]
fn ranges_include_their_ends() {
    let listing = names(&[
        "opra-20251113.cmbp-1.dbn.zst",
        "opra-20251114.cmbp-1.dbn.zst",
        "opra-20251117.cmbp-1.dbn.zst",
        "opra-20251118.cmbp-1.dbn.zst",
    ]);
    let mut i = input();
    i.date_start = Some("2025-11-14".to_string());
    i.date_end = Some("2025-11-17".to_string());
    let files = discover_files(&i, true, &listing).unwrap();
    let found: Vec<&str> = files.iter().map(|f| f.date.as_str()).collect();
    assert_eq!(found, vec!["2025-11-14", "2025-11-17"]);
    // Dates are compared as texts.
    i.date_start = Some("2025-11-17!".to_string());
    i.date_end = None;
    let files = discover_files(&i, true, &listing).unwrap();
    assert_eq!(files.len(), 1);
    assert_eq!(files[0].date, "2025-11-18");
}

#[test]
fn discovery_fails_without_directory_placeholder_or_files() {
    let none = names(&[]);
    assert_eq!(discover_files(&input(), false, &none).unwrap_err(), DiscoveryError::NoDirectory);
    let mut i = input();
    i.filename_pattern = "opra-{day}.dbn.zst".to_string();
    assert_eq!(discover_files(&i, true, &none).unwrap_err(), DiscoveryError::NoPlaceholder);
    assert!(discover_files(&input(), true, &none).unwrap().is_empty());
    assert_eq!(plan_days(&input(), true, &none).unwrap_err(), DiscoveryError::NoFiles);
    assert_eq!(plan_days(&input(), false, &none).unwrap_err(), DiscoveryError::NoDirectory);
    assert_eq!(plan_days(&i, true, &none).unwrap_err(), DiscoveryError::NoPlaceholder);
    let one = names(&["opra-20251114.cmbp-1.dbn.zst"]);
    assert_eq!(plan_days(&input(), true, &one).unwrap().len(), 1);
    assert_eq!(DiscoveryError::NoDirectory.message(), "Data directory does not exist");
    assert_eq!(
        DiscoveryError::NoPlaceholder.message(),
        "filename_pattern must contain {date} placeholder"
    );
    assert_eq!(
        DiscoveryError::NoFiles.message(),
        "No OPRA .dbn.zst files found matching the configuration"
    );
}

#[test]
fn the_first_placeholder_counts() {
    assert_eq!(find_placeholder("a{date}b{date}"), Some(1));
    assert_eq!(find_placeholder("{date"), None);
    assert_eq!(find_placeholder(""), None);
    let (number, text) = file_date("a20250102b{date}", "a{date}b{date}", 1).unwrap();
    assert_eq!((number, text.as_str()), (20_250_102, "2025-01-02"));
    assert!(file_date("a20250102b20250102", "a{date}b{date}", 1).is_none());
}

#[test]
fn overlapping_prefix_and_suffix_do_not_match() {
    let mut i = input();
    i.filename_pattern = "20251114{date}20251114".to_string();
    assert!(discover_files(&i, true, &names(&["20251114"])).unwrap().is_empty());
}

// ─── Command line and configuration ──────────────────────────────────────────

#[test]
fn the_configuration_follows_its_flag() {
    assert_eq!(parse_args(&names(&["prog", "--config", "a.toml"])), Some(2));
    assert_eq!(parse_args(&names(&["prog", "x", "--config", "--config", "b"])), Some(3));
    assert_eq!(parse_args(&names(&["prog", "--config"])), None);
    assert_eq!(parse_args(&names(&["--config", "a"])), None);
    assert_eq!(parse_args(&names(&[])), None);
}

#[test]
fn built_in_prices_are_for_one_symbol_alone() {
    let file = Some("p.dbn.zst".to_string());
    match price_source(&file, &"AMD".to_string()) {
        Ok(PriceSource::File(path)) => assert_eq!(path, "p.dbn.zst"),
        other => panic!("{:?}", other),
    }
    assert!(matches!(price_source(&None, &"NVDA".to_string()), Ok(PriceSource::Fallback)));
    assert_eq!(price_source(&None, &"AMD".to_string()).unwrap_err().symbol, "AMD");
}

#[test]
fn everything_has_a_default() {
    let c = ProfilerConfig::with_defaults(input());
    assert_eq!(c.trackers, TrackerConfig::default());
    assert!(c.trackers.quality && c.trackers.effective_spread && c.trackers.zero_dte);
    assert_eq!(c.buckets, BucketConfig::default());
    assert_eq!((c.buckets.atm_range_pct, c.buckets.deep_range_pct), (20_000_000, 100_000_000));
    assert_eq!(c.os_ratio, OsRatioConfig::default());
    assert!(c.os_ratio.enabled);
    assert_eq!(c.os_ratio.rolling_window_days, 6);
    assert_eq!((c.os_ratio.dte_min, c.os_ratio.dte_max), (5, 35));
    assert_eq!(OutputConfig::default().output_dir, "output_opra");
    assert!(c.output.write_summaries);
    assert_eq!(c.reservoir_capacity, 10_000);
}
