use opra_statistical_profiler::fraction::{quotient_less, Fraction};
use opra_statistical_profiler::options_math::bsm::minutes_to_years;
use opra_statistical_profiler::session::{
    rth_close_utc_ns, rth_open_utc_ns, time_of_day_ns, time_to_expiry, timestamp_as_signed,
    underlying_estimate,
};

const HOUR: i64 = 3_600_000_000_000;
const MINUTE: i64 = 60_000_000_000;

fn value(f: Fraction) -> f64 {
    f.num as f64 / f.den as f64
}

#[test]
fn test_minutes_to_years() {
    let t = value(minutes_to_years(Fraction { num: 390, den: 1 }));
    assert!(
        (t - 1.0 / 252.0).abs() < 1e-10,
        "390 min = 1 trading day = 1/252 years, got {}",
        t
    );
}

#[test]
fn test_minutes_to_years_clamped() {
    let t = value(minutes_to_years(Fraction { num: 0, den: 1 }));
    assert!(t >= 1e-6, "Should clamp to MIN_T");
    assert_eq!(minutes_to_years(Fraction { num: 1, den: 1_000_000_000 }).den, 1_000_000);
    assert_eq!(minutes_to_years(Fraction { num: -5, den: 1 }).den, 1_000_000);
}

#[test]
fn session_bounds_follow_the_offset() {
    // 09:30 and 16:00 Eastern are 14:30 and 21:00 UTC in winter, 13:30 and 20:00
    // in summer.
    assert_eq!(rth_open_utc_ns(-5), (14 * HOUR + 30 * MINUTE) as i128);
    assert_eq!(rth_close_utc_ns(-5), (21 * HOUR) as i128);
    assert_eq!(rth_open_utc_ns(-4), (13 * HOUR + 30 * MINUTE) as i128);
    assert_eq!(rth_close_utc_ns(-4), (20 * HOUR) as i128);
}

#[test]
fn estimates_run_from_open_to_close() {
    let (open, close) = (190_000_000_000, 203_000_000_000);
    let at = |tod: i64| value(underlying_estimate(open, close, -5, 86_400_000_000_000 * 3 + tod));
    assert_eq!(at(0), 190.0);
    assert_eq!(at(14 * HOUR + 30 * MINUTE), 190.0);
    assert!((at(15 * HOUR) - 191.0).abs() < 1e-12);
    assert!((at(17 * HOUR + 45 * MINUTE) - 196.5).abs() < 1e-12);
    assert_eq!(at(21 * HOUR), 203.0);
    assert_eq!(at(23 * HOUR), 203.0);
}

#[test]
fn estimates_fall_with_the_market() {
    let at = |tod: i64| value(underlying_estimate(203_000_000_000, 190_000_000_000, -4, tod));
    let (a, b, c) = (at(14 * HOUR), at(15 * HOUR), at(16 * HOUR));
    assert!(203.0 > a && a > b && b > c && c > 190.0);
}

#[test]
fn extreme_prices_are_interpolated() {
    let f = underlying_estimate(i64::MIN, i64::MAX, -5, 21 * HOUR - 1);
    assert!(value(f) < i64::MAX as f64 / 1e9);
    assert!(f.num > 0);
}

#[test]
fn timestamps_are_read_as_signed() {
    assert_eq!(timestamp_as_signed(5), 5);
    assert_eq!(timestamp_as_signed(i64::MAX as u64), i64::MAX);
    assert_eq!(timestamp_as_signed(u64::MAX), -1);
    assert_eq!(timestamp_as_signed(1u64 << 63), i64::MIN);
}

#[test]
fn time_of_day_is_the_remainder() {
    assert_eq!(time_of_day_ns(86_400_000_000_000 * 2 + 7), 7);
    assert_eq!(time_of_day_ns(-7), -7);
    assert_eq!(time_of_day_ns(-86_400_000_000_000 - 7), -7);
    assert_eq!(time_of_day_ns(i64::MIN), i64::MIN % 86_400_000_000_000);
}

#[test]
fn expiry_today_is_in_trading_time() {
    // Two hours before the close.
    let t = value(time_to_expiry(0, -5, 19 * HOUR));
    assert!((t - 120.0 / (252.0 * 390.0)).abs() < 1e-15);
    // Before the open at most a session is left.
    let t = value(time_to_expiry(0, -5, 9 * HOUR));
    assert!((t - 1.0 / 252.0).abs() < 1e-15);
    // After the close the clamp holds.
    assert_eq!(value(time_to_expiry(0, -5, 22 * HOUR)), 1e-6);
}

#[test]
fn later_expiries_are_in_calendar_time() {
    assert_eq!(time_to_expiry(7, -5, 0), Fraction { num: 7, den: 365 });
    assert_eq!(value(time_to_expiry(-3, -5, 0)), 1e-6);
}

#[test]
fn fractions_compare_by_value() {
    let f = |num: i128, den: u128| Fraction { num, den };
    assert!(f(1, 3).less_than(&f(1, 2)));
    assert!(!f(1, 2).less_than(&f(2, 4)));
    assert!(!f(2, 4).less_than(&f(1, 2)));
    assert!(f(-1, 2).less_than(&f(-1, 3)));
    assert!(f(-1, 2).less_than(&f(0, 1)));
    assert!(!f(0, 1).less_than(&f(-1, 2)));
    assert!(f(i128::MIN, 1).less_than(&f(i128::MIN + 1, 1)));
    assert!(f(i128::MAX - 1, u128::MAX).less_than(&f(i128::MAX, u128::MAX)));
    assert!(f(i128::MAX, u128::MAX).less_than(&f(i128::MAX, u128::MAX - 1)));
    assert_eq!(Fraction::whole(7), f(7, 1));
}

#[test]
fn quotients_compare_without_products() {
    assert!(quotient_less(u128::MAX - 1, u128::MAX, 1, 1));
    assert!(!quotient_less(1, 1, u128::MAX - 1, u128::MAX));
    assert!(quotient_less(u128::MAX - 2, u128::MAX - 1, u128::MAX - 1, u128::MAX));
    assert!(!quotient_less(0, 5, 0, 7));
}
