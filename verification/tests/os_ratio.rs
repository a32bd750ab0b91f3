use opra_statistical_profiler::date::Date;
use opra_statistical_profiler::fraction::Fraction;
use opra_statistical_profiler::os_ratio::{compute_os_series, DeltaOs, CAVEATS, ROUND_LOT_SIZE};

fn d(day: u32) -> Date {
    Date::from_ymd_opt(2025, 11, day).unwrap()
}

fn value(f: Fraction) -> f64 {
    f.num as f64 / f.den as f64
}

fn deviation(delta: &DeltaOs) -> f64 {
    let mean = delta.prior.iter().map(|f| value(*f)).sum::<f64>() / delta.prior.len() as f64;
    (value(delta.current) - mean) / mean
}

/// Formula (Eq. 9), stored as a FRACTION: opvol=1000 contracts, eqvol=10M shares
/// → eqvol_round_lots = 100,000 → O/S = 1000/100,000 = 0.01 (= 1.0%). Locks the
/// /100 round-lot conversion AND the fraction-not-percent storage convention.
#[test]
fn test_os_formula_is_fraction_with_round_lot_conversion() {
    let opvol = vec![(d(13), 1000u64)];
    let eqvol = vec![(d(13), 10_000_000u64)];
    let report = compute_os_series(&opvol, &eqvol, 6, 5, 35);
    let os = value(report.per_day[0].os_ratio.unwrap());
    assert!(
        (os - 0.01).abs() < 1e-12,
        "O/S must be the fraction 0.01 (= 1000/(10M/100)), got {}",
        os
    );
    // Summary echoes the single finite value.
    assert_eq!(report.os_n_finite, 1);
    assert!((value(report.os_min.unwrap()) - 0.01).abs() < 1e-12);
    assert!((value(report.os_max.unwrap()) - 0.01).abs() < 1e-12);
    // Provenance fields.
    assert_eq!(report.dte_min, 5);
    assert_eq!(report.dte_max, 35);
    assert_eq!(ROUND_LOT_SIZE, 100);
}

/// ΔO/S worked series: eqvol = 100M shares (round_lots = 1M) every day; opvol = 1M
/// for days 1-6 (O/S=1.0) and 2M for day 7 (O/S=2.0), window=6. day-7 ΔO/S =
/// (2.0 − mean(1,1,1,1,1,1)) / 1.0 = (2−1)/1 = 1.0. Days 1-6 are warmup-null.
#[test]
fn test_delta_os_worked_series_and_warmup_nulls() {
    let mut opvol = Vec::new();
    let mut eqvol = Vec::new();
    for i in 0..6 {
        opvol.push((d(13 + i), 1_000_000u64)); // O/S = 1.0
        eqvol.push((d(13 + i), 100_000_000u64));
    }
    opvol.push((d(19), 2_000_000u64)); // O/S = 2.0
    eqvol.push((d(19), 100_000_000u64));

    let report = compute_os_series(&opvol, &eqvol, 6, 5, 35);
    let per_day = &report.per_day;
    // Days 0..6 (the first `window` days) are warmup-null for ΔO/S.
    for (i, day) in per_day.iter().enumerate().take(6) {
        assert!(day.delta_os.is_none(), "day {} must be ΔO/S warmup-null", i);
    }
    // Day 6 (index 6) is the first non-warmup ΔO/S = 1.0.
    let delta7 = deviation(per_day[6].delta_os.as_ref().unwrap());
    assert!(
        (delta7 - 1.0).abs() < 1e-12,
        "day-7 ΔO/S must be (2-1)/1 = 1.0, got {}",
        delta7
    );
    assert_eq!(report.n_warmup_null, 6);
    assert_eq!(report.delta_n_finite, 1);
}

/// Boundary: with window=6, index 5 (window-1) is the LAST warmup-null and
/// index 6 (window) is the FIRST non-null ΔO/S. The classic off-by-one site.
#[test]
fn test_delta_os_boundary_first_nonnull_at_window_index() {
    let mut opvol = Vec::new();
    let mut eqvol = Vec::new();
    for i in 0..7 {
        opvol.push((d(13 + i), 1_000_000u64 * (i as u64 + 1)));
        eqvol.push((d(13 + i), 100_000_000u64));
    }
    let report = compute_os_series(&opvol, &eqvol, 6, 5, 35);
    assert!(report.per_day[5].delta_os.is_none(), "index window-1 must be null");
    assert!(
        report.per_day[6].delta_os.is_some(),
        "index window must be the first non-null ΔO/S"
    );
    let prior: Vec<f64> =
        report.per_day[6].delta_os.as_ref().unwrap().prior.iter().map(|f| value(*f)).collect();
    assert_eq!(prior, vec![1.0, 2.0, 3.0, 4.0, 5.0, 6.0]);
}

/// OPVOL_d = 0 → O/S_d = 0.0 (FINITE, not null). Realistic on a 0DTE-dominated
/// window where the 5-35-DTE band can be empty on a given day.
#[test]
fn test_opvol_zero_yields_finite_zero_os() {
    let opvol = vec![(d(13), 0u64)];
    let eqvol = vec![(d(13), 10_000_000u64)];
    let report = compute_os_series(&opvol, &eqvol, 6, 5, 35);
    let os = report.per_day[0].os_ratio;
    assert!(os.is_some(), "OPVOL=0 must give a FINITE O/S (0.0), not null");
    assert_eq!(value(os.unwrap()), 0.0);
    assert_eq!(report.os_n_finite, 1);
}

/// EQVOL_d = 0 (fallback-price mode) → O/S_d = null.
#[test]
fn test_eqvol_zero_yields_null_os() {
    let opvol = vec![(d(13), 1000u64)];
    let eqvol = vec![(d(13), 0u64)];
    let report = compute_os_series(&opvol, &eqvol, 6, 5, 35);
    assert!(report.per_day[0].os_ratio.is_none());
    assert_eq!(report.os_n_finite, 0);
    assert!(report.os_min.is_none() && report.os_max.is_none());
}

/// All-zero OPVOL → O/S all 0.0; the rolling mean is 0 → ΔO/S null (no /0).
#[test]
fn test_all_zero_opvol_delta_null_on_zero_mean() {
    let mut opvol = Vec::new();
    let mut eqvol = Vec::new();
    for i in 0..7 {
        opvol.push((d(13 + i), 0u64));
        eqvol.push((d(13 + i), 100_000_000u64));
    }
    let report = compute_os_series(&opvol, &eqvol, 6, 5, 35);
    assert_eq!(value(report.per_day[6].os_ratio.unwrap()), 0.0);
    assert!(
        report.per_day[6].delta_os.is_none(),
        "ΔO/S must be null when the prior-window mean is 0 (no division by zero)"
    );
}

/// Date-join miss: an opvol day absent from eqvol emits null O/S, increments
/// n_join_miss, and STILL appears in per_day (recorded, not dropped).
#[test]
fn test_date_join_miss_recorded_not_dropped() {
    let opvol = vec![(d(13), 1000u64), (d(14), 2000u64)];
    let eqvol = vec![(d(13), 10_000_000u64)]; // d(14) missing
    let report = compute_os_series(&opvol, &eqvol, 6, 5, 35);
    assert_eq!(report.n_join_miss, 1);
    assert_eq!(report.per_day.len(), 2, "the missing day must still appear in per_day");
    assert!(report.per_day[1].os_ratio.is_none());
    assert!(report.per_day[1].eqvol_shares.is_none());
}

/// Determinism: identical inputs → identical output, regardless of input order
/// (the function sorts by date internally).
#[test]
fn test_determinism_and_date_sort() {
    let opvol_a = vec![(d(13), 1000u64), (d(14), 2000u64), (d(17), 3000u64)];
    let opvol_b = vec![(d(17), 3000u64), (d(13), 1000u64), (d(14), 2000u64)]; // shuffled
    let eqvol = vec![
        (d(13), 10_000_000u64),
        (d(14), 10_000_000u64),
        (d(17), 10_000_000u64),
    ];
    let ra = compute_os_series(&opvol_a, &eqvol, 6, 5, 35);
    let rb = compute_os_series(&opvol_b, &eqvol, 6, 5, 35);
    assert_eq!(
        format!("{:?}", ra),
        format!("{:?}", rb),
        "output must be order-independent (sorted by date) and deterministic"
    );
}

/// Shape: per_day length == n_days; every day has its date, volumes and ratios.
#[test]
fn test_shape_per_day_keys() {
    let opvol = vec![(d(13), 1000u64), (d(14), 2000u64)];
    let eqvol = vec![(d(13), 10_000_000u64), (d(14), 10_000_000u64)];
    let report = compute_os_series(&opvol, &eqvol, 6, 5, 35);
    assert_eq!(report.n_days, 2);
    assert_eq!(report.per_day.len(), 2);
    for (i, day) in report.per_day.iter().enumerate() {
        assert_eq!(day.date, d(13 + i as u32));
        assert_eq!(day.opvol, 1000 * (i as u64 + 1));
        assert_eq!(day.eqvol_shares, Some(10_000_000));
        assert_eq!(value(day.eqvol_round_lots.unwrap()), 100_000.0);
        assert!(day.os_ratio.is_some());
        assert!(day.delta_os.is_none());
    }
    assert!(CAVEATS.contains("UNESTABLISHED"));
}

/// Invariant: n_warmup_null == min(window, n_days) even when n_days < window.
#[test]
fn test_n_warmup_null_clamps_to_n_days() {
    let opvol = vec![(d(13), 1000u64), (d(14), 2000u64), (d(17), 3000u64)];
    let eqvol = vec![
        (d(13), 10_000_000u64),
        (d(14), 10_000_000u64),
        (d(17), 10_000_000u64),
    ];
    // window=6 > n_days=3 → every day is warmup; n_warmup_null = 3.
    let report = compute_os_series(&opvol, &eqvol, 6, 5, 35);
    assert_eq!(report.n_warmup_null, 3);
    for day in &report.per_day {
        assert!(day.delta_os.is_none());
    }
}

/// No look-ahead: ΔO/S_d depends ONLY on O/S_d and the strictly-prior
/// window. Two series identical through day d but differing at day d+1 must
/// produce the SAME ΔO/S_d.
#[test]
fn test_no_lookahead_future_day_does_not_affect_delta() {
    let eqvol: Vec<(Date, u64)> = (0..8).map(|i| (d(13 + i), 100_000_000u64)).collect();
    let mut base: Vec<(Date, u64)> = (0..7).map(|i| (d(13 + i), 1_000_000u64)).collect();
    base.push((d(20), 2_000_000u64)); // day 7 (index 7)
    let mut alt = base.clone();
    alt[7] = (d(20), 9_000_000u64); // change ONLY the future day (index 7)

    let r_base = compute_os_series(&base, &eqvol, 6, 5, 35);
    let r_alt = compute_os_series(&alt, &eqvol, 6, 5, 35);
    // ΔO/S at index 6 must be identical (it depends only on indices 0..6).
    assert_eq!(
        format!("{:?}", r_base.per_day[6].delta_os),
        format!("{:?}", r_alt.per_day[6].delta_os),
        "ΔO/S_6 must not depend on the future day index 7 (no look-ahead)"
    );
    assert!(r_base.per_day[6].delta_os.is_some());
}

#[test]
fn later_equity_volumes_do_not_affect_a_deviation() {
    let opvol: Vec<(Date, u64)> = (0..8).map(|i| (d(13 + i), 1_000_000u64)).collect();
    let eqvol: Vec<(Date, u64)> = (0..8).map(|i| (d(13 + i), 100_000_000u64)).collect();
    let mut alt = eqvol.clone();
    alt[7].1 = 5;
    alt.push((d(27), 9));
    let r = compute_os_series(&opvol, &eqvol, 6, 5, 35);
    let q = compute_os_series(&opvol, &alt, 6, 5, 35);
    for i in 0..7 {
        assert_eq!(r.per_day[i].os_ratio, q.per_day[i].os_ratio);
        assert_eq!(
            format!("{:?}", r.per_day[i].delta_os),
            format!("{:?}", q.per_day[i].delta_os)
        );
    }
    assert_ne!(r.per_day[7].os_ratio, q.per_day[7].os_ratio);
}

#[test]
fn inputs_that_agree_up_to_a_day_agree_in_their_series() {
    // The later days stand anywhere in the lists.
    let a = vec![(d(20), 9u64), (d(13), 100), (d(14), 200), (d(17), 300)];
    let b = vec![(d(13), 100u64), (d(21), 7), (d(14), 200), (d(17), 300), (d(19), 1)];
    let eqvol_a = vec![(d(13), 1000u64), (d(14), 1000), (d(17), 2000), (d(20), 5)];
    let eqvol_b = vec![(d(13), 1000u64), (d(21), 8), (d(14), 1000), (d(17), 2000)];
    let r = compute_os_series(&a, &eqvol_a, 2, 5, 35);
    let q = compute_os_series(&b, &eqvol_b, 2, 5, 35);
    for i in 0..3 {
        assert_eq!(format!("{:?}", r.per_day[i]), format!("{:?}", q.per_day[i]));
    }
    assert!(r.per_day[2].delta_os.is_some());
    assert_eq!((r.per_day[3].date, q.per_day[3].date), (d(20), d(19)));
}

#[test]
fn the_first_of_equal_extremes_is_given() {
    let opvol = vec![(d(13), 1u64), (d(14), 2), (d(17), 1)];
    let eqvol = vec![(d(13), 100u64), (d(14), 200), (d(17), 100)];
    let r = compute_os_series(&opvol, &eqvol, 2, 5, 35);
    assert_eq!(r.os_min, r.per_day[0].os_ratio);
    assert_eq!(r.os_max, r.per_day[0].os_ratio);
    assert_ne!(r.os_min, r.per_day[1].os_ratio);
    assert_eq!(value(r.os_min.unwrap()), value(r.per_day[1].os_ratio.unwrap()));
}

#[test]
fn the_order_of_equity_volumes_does_not_matter() {
    let opvol = vec![(d(13), 1000u64), (d(14), 2000u64), (d(17), 3000u64)];
    let shuffled = vec![(d(17), 3000u64), (d(13), 1000u64), (d(14), 2000u64)];
    let eqvol = vec![(d(13), 10_000u64), (d(14), 20_000u64), (d(18), 7u64)];
    let reversed: Vec<(Date, u64)> = eqvol.iter().rev().cloned().collect();
    let r = compute_os_series(&opvol, &eqvol, 2, 5, 35);
    let q = compute_os_series(&shuffled, &reversed, 2, 5, 35);
    assert_eq!(format!("{:?}", r), format!("{:?}", q));
    assert_eq!(r.per_day[1].eqvol_shares, Some(20_000));
    assert_eq!((r.n_join_miss, r.os_n_finite), (1, 2));
}

#[test]
fn extremes_and_counts_are_those_of_the_days() {
    let opvol = vec![(d(13), 3000u64), (d(14), 1000u64), (d(17), 2000u64), (d(18), 5u64)];
    let eqvol = vec![(d(13), 100_000u64), (d(14), 100_000u64), (d(17), 100_000u64)];
    let r = compute_os_series(&opvol, &eqvol, 0, 5, 35);
    assert_eq!(r.os_n_finite, 3);
    assert_eq!(value(r.os_min.unwrap()), 1.0);
    assert_eq!(value(r.os_max.unwrap()), 3.0);
    assert_eq!(r.n_join_miss, 1);
    // A window of no days gives no deviation.
    assert_eq!(r.delta_n_finite, 0);
    assert_eq!(r.n_warmup_null, 0);
}

#[test]
fn a_gap_in_the_window_leaves_no_deviation() {
    let opvol: Vec<(Date, u64)> = (0..4).map(|i| (d(13 + i), 100u64)).collect();
    let mut eqvol: Vec<(Date, u64)> = (0..4).map(|i| (d(13 + i), 1000u64)).collect();
    eqvol[1].1 = 0;
    let r = compute_os_series(&opvol, &eqvol, 2, 5, 35);
    assert!(r.per_day[2].delta_os.is_none());
    assert!(r.per_day[3].delta_os.is_none());
}

#[test]
fn a_day_given_twice_has_its_later_equity_volume() {
    let opvol = vec![(d(13), 100u64)];
    let eqvol = vec![(d(13), 1000u64), (d(13), 5000u64)];
    let r = compute_os_series(&opvol, &eqvol, 2, 5, 35);
    assert_eq!(r.per_day[0].eqvol_shares, Some(5000));
    assert_eq!(value(r.per_day[0].os_ratio.unwrap()), 2.0);
}

#[test]
fn no_days_give_an_empty_series() {
    let r = compute_os_series(&[], &[], 6, 5, 35);
    assert_eq!(r.n_days, 0);
    assert!(r.per_day.is_empty());
    assert_eq!(r.n_warmup_null, 0);
}
