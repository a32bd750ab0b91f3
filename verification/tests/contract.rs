use opra_statistical_profiler::contract::{parse_occ_symbol, ContractMap, ContractType};
use opra_statistical_profiler::date::Date;

fn usd(strike: u64) -> f64 {
    strike as f64 / 1000.0
}

#[test]
fn test_parse_standard_call() {
    let info = parse_occ_symbol("NVDA  251114C00185000", 12345).unwrap();
    assert_eq!(info.underlying, "NVDA");
    assert_eq!(info.expiration, Date::from_ymd_opt(2025, 11, 14).unwrap());
    assert_eq!(info.contract_type, ContractType::Call);
    assert!((usd(info.strike) - 185.0).abs() < 1e-10, "Strike: {}", info.strike);
    assert_eq!(info.instrument_id, 12345);
}

#[test]
fn test_parse_standard_put() {
    let info = parse_occ_symbol("NVDA  251114P00190000", 99999).unwrap();
    assert_eq!(info.contract_type, ContractType::Put);
    assert!((usd(info.strike) - 190.0).abs() < 1e-10);
}

#[test]
fn test_parse_fractional_strike() {
    // $152.50 = 00152500
    let info = parse_occ_symbol("NVDA  251121C00152500", 1).unwrap();
    assert!((usd(info.strike) - 152.5).abs() < 1e-10, "Strike: {}", info.strike);
}

#[test]
fn test_parse_small_strike() {
    // $3.50 = 00003500
    let info = parse_occ_symbol("NVDA  251219C00003500", 1).unwrap();
    assert!((usd(info.strike) - 3.5).abs() < 1e-10, "Strike: {}", info.strike);
}

#[test]
fn test_parse_large_strike() {
    // $420 = 00420000
    let info = parse_occ_symbol("NVDA  251114C00420000", 1).unwrap();
    assert!((usd(info.strike) - 420.0).abs() < 1e-10);
}

#[test]
fn test_parse_leaps_expiry() {
    // 2028-01-21
    let info = parse_occ_symbol("NVDA  280121C00130000", 1).unwrap();
    assert_eq!(info.expiration, Date::from_ymd_opt(2028, 1, 21).unwrap());
}

#[test]
fn test_dte_calculation() {
    let info = parse_occ_symbol("NVDA  251121C00150000", 1).unwrap();
    let trading_date = Date::from_ymd_opt(2025, 11, 14).unwrap();
    assert_eq!(info.dte(trading_date), 7);
}

#[test]
fn test_zero_dte() {
    let info = parse_occ_symbol("NVDA  251114C00190000", 1).unwrap();
    let trading_date = Date::from_ymd_opt(2025, 11, 14).unwrap();
    assert!(info.is_zero_dte(trading_date));
    assert_eq!(info.dte(trading_date), 0);
}

#[test]
fn test_parse_malformed_too_short() {
    assert!(parse_occ_symbol("NV", 1).is_none());
}

#[test]
fn test_parse_malformed_bad_type() {
    assert!(parse_occ_symbol("NVDA  251114X00190000", 1).is_none());
}

#[test]
fn test_parse_malformed_bad_date() {
    assert!(parse_occ_symbol("NVDA  251332C00190000", 1).is_none());
}

#[test]
fn test_parse_empty_root() {
    assert!(parse_occ_symbol("      251114C00190000", 1).is_none());
}

#[test]
fn trailing_space_is_ignored_and_the_symbol_is_kept_without_it() {
    let info = parse_occ_symbol("NVDA  251114C00185000 \t\u{a0}", 7).unwrap();
    assert_eq!(info.occ_symbol, "NVDA  251114C00185000");
    let again = parse_occ_symbol(&info.occ_symbol, 7).unwrap();
    assert_eq!(again.occ_symbol, info.occ_symbol);
    assert_eq!(again.strike, info.strike);
}

#[test]
fn dates_and_strikes_are_digits_alone() {
    // A sign is no digit, nor is white space.
    assert!(parse_occ_symbol("NVDA  +51114C00190000", 1).is_none());
    assert!(parse_occ_symbol("NVDA  -11114C00190000", 1).is_none());
    assert!(parse_occ_symbol("NVDA  25+114C00190000", 1).is_none());
    assert!(parse_occ_symbol("NVDA  25 114C00190000", 1).is_none());
    assert!(parse_occ_symbol("NVDA  2511-4C00190000", 1).is_none());
    assert!(parse_occ_symbol("NVDA  251114C+0190000", 1).is_none());
    assert!(parse_occ_symbol("NVDA  251114C-0190000", 1).is_none());
    assert!(parse_occ_symbol("NVDA  251114C0019000x", 1).is_none());
}

#[test]
fn characters_of_several_bytes_are_malformed() {
    assert!(parse_occ_symbol("NVDA é251114C00190000", 1).is_none());
    assert!(parse_occ_symbol("NVDA  2511é4C00190000", 1).is_none());
    assert_eq!(parse_occ_symbol("NVDÄ 251114C00190000", 1).unwrap().underlying, "NVDÄ");
}

#[test]
fn strike_has_eight_digits_or_more() {
    assert!(parse_occ_symbol("NVDA  251114C0019000", 1).is_none());
    assert_eq!(parse_occ_symbol("NVDA  251114C00000000", 1).unwrap().strike, 0);
    assert_eq!(parse_occ_symbol("NVDA  251114C99999999", 1).unwrap().strike, 99_999_999);
    assert_eq!(parse_occ_symbol("NVDA  251114C000190000", 1).unwrap().strike, 190_000);
    assert_eq!(parse_occ_symbol("NVDA  251114C123456789", 1).unwrap().strike, 123_456_789);
    assert_eq!(
        parse_occ_symbol("NVDA  251114C18446744073709551615", 1).unwrap().strike,
        u64::MAX
    );
    assert!(parse_occ_symbol("NVDA  251114C18446744073709551616", 1).is_none());
    assert!(parse_occ_symbol("NVDA  251114C00190000x", 1).is_none());
}

#[test]
fn parsing_undoes_formatting() {
    for root in ["A", "NVDA", "BRK B", "GOOGL1"] {
        for (yy, month, day) in [(0, 1, 1), (24, 2, 29), (25, 11, 14), (99, 12, 31)] {
            for (letter, contract_type) in [("C", ContractType::Call), ("P", ContractType::Put)] {
                for strike in [0u64, 5, 190_000, 99_999_999, 100_000_000, u64::MAX] {
                    let text =
                        format!("{:6}{:02}{:02}{:02}{}{:08}", root, yy, month, day, letter, strike);
                    let padded = format!("{}   ", text);
                    for symbol in [&text, &padded] {
                        let info = parse_occ_symbol(symbol, 8).unwrap();
                        assert_eq!(info.underlying, root);
                        assert_eq!(
                            info.expiration,
                            Date::from_ymd_opt(2000 + yy, month, day).unwrap()
                        );
                        assert_eq!(info.contract_type, contract_type);
                        assert_eq!(info.strike, strike);
                        assert_eq!(info.occ_symbol, text);
                    }
                }
            }
        }
    }
    // A root of white space denotes no underlying.
    assert!(parse_occ_symbol("\t     251114C00190000", 8).is_none());
}

#[test]
fn leap_days_exist_in_leap_years_alone() {
    assert!(parse_occ_symbol("NVDA  280229C00190000", 1).is_some());
    assert!(parse_occ_symbol("NVDA  250229C00190000", 1).is_none());
}

#[test]
fn contracts_clone_whole() {
    let info = parse_occ_symbol("NVDA  251114P00190000", 3).unwrap();
    let copy = info.clone();
    assert_eq!(copy.occ_symbol, info.occ_symbol);
    assert_eq!(copy.underlying, info.underlying);
    assert_eq!(copy.instrument_id, 3);
    assert_eq!(copy.contract_type, ContractType::Put);
}

fn map() -> ContractMap {
    ContractMap::from_symbols(&vec![
        (1, "NVDA  251114C00185000".to_string()),
        (2, "NVDA  251114P00185000".to_string()),
        (3, "not an option".to_string()),
        (4, "NVDA  251121C00190000".to_string()),
    ])
}

#[test]
fn map_holds_the_contracts_of_well_formed_symbols() {
    let map = map();
    assert_eq!(map.len(), 3);
    assert!(!map.is_empty());
    assert_eq!(map.get(1).unwrap().contract_type, ContractType::Call);
    assert_eq!(map.get(2).unwrap().contract_type, ContractType::Put);
    assert!(map.get(3).is_none());
    assert_eq!(map.get(4).unwrap().strike, 190_000);
    assert!(map.get(5).is_none());
    assert_eq!(map.count_by_type(), (2, 1));
}

#[test]
fn map_lists_each_contract_once() {
    let map = map();
    let mut ids: Vec<u32> = map.iter().iter().map(|(id, info)| {
        assert_eq!(**id, info.instrument_id);
        **id
    }).collect();
    ids.sort();
    assert_eq!(ids, vec![1, 2, 4]);
}

#[test]
fn map_without_symbols_is_empty() {
    let map = ContractMap::from_symbols(&Vec::new());
    assert!(map.is_empty());
    assert_eq!(map.len(), 0);
    assert_eq!(map.count_by_type(), (0, 0));
    assert!(map.iter().is_empty());
}

fn day(y: i32, m: u8, d: u8) -> time::Date {
    time::Date::from_calendar_date(y, time::Month::try_from(m).unwrap(), d).unwrap()
}

fn metadata() -> dbn::Metadata {
    let mapping = |raw: &str, id: &str| dbn::SymbolMapping {
        raw_symbol: raw.to_string(),
        intervals: vec![dbn::MappingInterval {
            start_date: day(2025, 11, 13),
            end_date: day(2025, 11, 15),
            symbol: id.to_string(),
        }],
    };
    dbn::Metadata::builder()
        .dataset("OPRA.PILLAR".to_string())
        .schema(Some(dbn::Schema::Cmbp1))
        .start(1_762_992_000_000_000_000) // 2025-11-13
        .stype_in(Some(dbn::SType::RawSymbol))
        .stype_out(dbn::SType::InstrumentId)
        .mappings(vec![
            mapping("NVDA  251114C00185000", "11"),
            mapping("NVDA  251114P00190000", "12"),
            mapping("garbage", "13"),
        ])
        .build()
}

#[test]
fn metadata_symbols_of_the_date_become_contracts() {
    let map = ContractMap::from_dbn_metadata(&metadata(), Date::from_ymd_opt(2025, 11, 14).unwrap());
    assert_eq!(map.len(), 2);
    assert_eq!(map.get(11).unwrap().strike, 185_000);
    assert_eq!(map.get(11).unwrap().instrument_id, 11);
    assert_eq!(map.get(12).unwrap().contract_type, ContractType::Put);
    assert!(map.get(13).is_none());
}

#[test]
fn metadata_without_symbols_for_the_date_gives_an_empty_map() {
    // After the interval of the mappings.
    let map = ContractMap::from_dbn_metadata(&metadata(), Date::from_ymd_opt(2025, 11, 15).unwrap());
    assert!(map.is_empty());
    // Before the start of the file, where the lookup itself fails.
    let map = ContractMap::from_dbn_metadata(&metadata(), Date::from_ymd_opt(2025, 11, 12).unwrap());
    assert!(map.is_empty());
}
