//! The regular trading session: its hours in UTC, the estimate of the
//! underlying price within it, and the time that remains to expiry.

use crate::fraction::Fraction;
use crate::options_math::bsm::minutes_to_years;
use vstd::prelude::*;

verus! {

/// Nanoseconds of one day.
pub const DAY_NS: i64 = 86_400_000_000_000;

/// Nanoseconds of one hour.
pub const HOUR_NS: i128 = 3_600_000_000_000;

/// Nanoseconds of one minute.
pub const MINUTE_NS: i128 = 60_000_000_000;

/// Nanoseconds of the regular session, 09:30 to 16:00.
pub const SESSION_NS: i128 = 23_400_000_000_000;

/// The UTC offset that holds before the first day begins: Eastern Standard Time.
pub const DEFAULT_UTC_OFFSET: i32 = -5;

/// Nanodollars of one dollar.
pub const NANOS_PER_DOLLAR: u128 = 1_000_000_000;

/// Denominator of an interpolated price: `SESSION_NS * NANOS_PER_DOLLAR`.
pub const INTERPOLATION_DEN: u128 = 23_400_000_000_000_000_000_000;

/// An unsigned 64-bit timestamp read as a two's complement signed one.
pub open spec fn signed_timestamp(ts: u64) -> int {
    if ts <= i64::MAX {
        ts as int
    } else {
        ts - 0x1_0000_0000_0000_0000
    }
}

/// Nanoseconds since midnight UTC; before the epoch, the negative distance to
/// the next midnight.
pub open spec fn time_of_day(ts: int) -> int {
    if ts >= 0 {
        ts % (DAY_NS as int)
    } else {
        -((-ts) % (DAY_NS as int))
    }
}

/// 09:30 Eastern in nanoseconds since midnight UTC, for an offset in hours.
pub open spec fn session_open_ns(utc_offset: int) -> int {
    (9 - utc_offset) * HOUR_NS + 30 * MINUTE_NS
}

/// 16:00 Eastern in nanoseconds since midnight UTC, for an offset in hours.
pub open spec fn session_close_ns(utc_offset: int) -> int {
    (16 - utc_offset) * HOUR_NS
}

/// The underlying price in dollars at a time of day: the open until 09:30, the
/// close from 16:00 on, and the straight line between them during the session.
/// `open` and `close` are in nanodollars.
pub open spec fn underlying_at(open: int, close: int, utc_offset: int, tod: int) -> Fraction {
    if tod <= session_open_ns(utc_offset) {
        Fraction { num: open as i128, den: NANOS_PER_DOLLAR }
    } else if tod >= session_close_ns(utc_offset) {
        Fraction { num: close as i128, den: NANOS_PER_DOLLAR }
    } else {
        Fraction {
            num: (open * SESSION_NS + (tod - session_open_ns(utc_offset)) * (close
                - open)) as i128,
            den: INTERPOLATION_DEN,
        }
    }
}

/// Minutes left in the session at a time of day, at most a whole session.
pub open spec fn minutes_remaining(utc_offset: int, tod: int) -> Fraction {
    let left = session_close_ns(utc_offset) - tod;
    if left <= 0 {
        Fraction { num: 0, den: MINUTE_NS as u128 }
    } else if left > SESSION_NS {
        Fraction { num: 390, den: 1 }
    } else {
        Fraction { num: left as i128, den: MINUTE_NS as u128 }
    }
}

/// Years to expiry: on the day of expiry the trading time that remains, else
/// calendar days over 365, and never below a millionth of a year.
pub open spec fn years_to_expiry(dte: int, utc_offset: int, tod: int) -> Fraction {
    if dte == 0 {
        crate::options_math::bsm::trading_years(minutes_remaining(utc_offset, tod))
    } else if dte < 0 {
        Fraction { num: 1, den: 1_000_000 }
    } else {
        Fraction { num: dte as i128, den: 365 }
    }
}

/// Reads a 64-bit timestamp as signed.
pub fn timestamp_as_signed(ts: u64) -> (r: i64)
    ensures
        r == signed_timestamp(ts),
{
    if ts <= i64::MAX as u64 {
        ts as i64
    } else {
        -((u64::MAX - ts) as i64) - 1
    }
}

/// Nanoseconds since midnight UTC.
pub fn time_of_day_ns(ts: i64) -> (r: i64)
    ensures
        r == time_of_day(ts as int),
        -DAY_NS < r < DAY_NS,
{
    if ts >= 0 {
        ts % DAY_NS
    } else {
        let distance: i128 = -(ts as i128);
        let r: i128 = distance % (DAY_NS as i128);
        -(r as i64)
    }
}

/// 09:30 Eastern in nanoseconds since midnight UTC.
pub fn rth_open_utc_ns(utc_offset: i32) -> (r: i128)
    ensures
        r == session_open_ns(utc_offset as int),
{
    (9 - utc_offset as i128) * HOUR_NS + 30 * MINUTE_NS
}

/// 16:00 Eastern in nanoseconds since midnight UTC.
pub fn rth_close_utc_ns(utc_offset: i32) -> (r: i128)
    ensures
        r == session_close_ns(utc_offset as int),
{
    (16 - utc_offset as i128) * HOUR_NS
}

/// The underlying price in dollars at the time of an event.
pub fn underlying_estimate(open: i64, close: i64, utc_offset: i32, ts_event: i64) -> (r: Fraction)
    ensures
        r == underlying_at(
            open as int,
            close as int,
            utc_offset as int,
            time_of_day(ts_event as int),
        ),
        r.valid(),
        r.den == NANOS_PER_DOLLAR || r.den == INTERPOLATION_DEN,
{
    let tod: i128 = time_of_day_ns(ts_event) as i128;
    let start: i128 = rth_open_utc_ns(utc_offset);
    let end: i128 = rth_close_utc_ns(utc_offset);
    if tod <= start {
        Fraction { num: open as i128, den: NANOS_PER_DOLLAR }
    } else if tod >= end {
        Fraction { num: close as i128, den: NANOS_PER_DOLLAR }
    } else {
        let elapsed: i128 = tod - start;
        let drift: i128 = close as i128 - open as i128;
        assert(-0x1_0000_0000_0000_0000 * SESSION_NS <= elapsed * drift <= 0x1_0000_0000_0000_0000
            * SESSION_NS) by (nonlinear_arith)
            requires
                0 <= elapsed <= SESSION_NS,
                -0x1_0000_0000_0000_0000 <= drift <= 0x1_0000_0000_0000_0000,
                SESSION_NS == 23_400_000_000_000,
        ;
        Fraction { num: open as i128 * SESSION_NS + elapsed * drift, den: INTERPOLATION_DEN }
    }
}

/// Years to expiry of a contract `dte` days from it, at the time of an event.
pub fn time_to_expiry(dte: i64, utc_offset: i32, ts_event: i64) -> (r: Fraction)
    ensures
        r == years_to_expiry(dte as int, utc_offset as int, time_of_day(ts_event as int)),
        r.valid(),
{
    if dte == 0 {
        let left: i128 = rth_close_utc_ns(utc_offset) - time_of_day_ns(ts_event) as i128;
        let minutes: Fraction = if left <= 0 {
            Fraction { num: 0, den: MINUTE_NS as u128 }
        } else if left > SESSION_NS {
            Fraction { num: 390, den: 1 }
        } else {
            Fraction { num: left, den: MINUTE_NS as u128 }
        };
        minutes_to_years(minutes)
    } else if dte < 0 {
        Fraction { num: 1, den: 1_000_000 }
    } else {
        Fraction { num: dte as i128, den: 365 }
    }
}

/// The session bounds are six and a half hours apart whatever the offset.
pub proof fn law_session_length(utc_offset: int)
    ensures
        session_close_ns(utc_offset) - session_open_ns(utc_offset) == SESSION_NS,
{
}

/// The estimate never leaves the range between the open and the close.
pub proof fn law_estimate_between_open_and_close(
    open: i64,
    close: i64,
    utc_offset: i32,
    tod: int,
)
    ensures
        ({
            let e = underlying_at(open as int, close as int, utc_offset as int, tod);
            let o = Fraction { num: open as i128, den: NANOS_PER_DOLLAR };
            let c = Fraction { num: close as i128, den: NANOS_PER_DOLLAR };
            (!e.lt(o) && !c.lt(e)) || (!e.lt(c) && !o.lt(e))
        }),
{
    let start = session_open_ns(utc_offset as int);
    let end = session_close_ns(utc_offset as int);
    if start < tod < end {
        let x = tod - start;
        let d = close - open;
        let s = SESSION_NS as int;
        assert(0 <= d ==> 0 <= x * d <= s * d) by (nonlinear_arith)
            requires
                0 <= x <= s,
        ;
        assert(d <= 0 ==> s * d <= x * d <= 0) by (nonlinear_arith)
            requires
                0 <= x <= s,
        ;
        lemma_interpolation_fits(open, close, x);
        lemma_price_order(open * s + x * d, open as int);
        lemma_price_order(open * s + x * d, close as int);
        assert(open * s + s * d == close * s) by (nonlinear_arith)
            requires
                d == close - open,
        ;
    }
}

/// An interpolated price and a plain one compare as their nanodollars do.
proof fn lemma_price_order(interpolated: int, plain: int)
    ensures
        interpolated * NANOS_PER_DOLLAR < plain * INTERPOLATION_DEN <==> interpolated < plain
            * SESSION_NS,
        interpolated * NANOS_PER_DOLLAR > plain * INTERPOLATION_DEN <==> interpolated > plain
            * SESSION_NS,
{
    let n = NANOS_PER_DOLLAR as int;
    let s = SESSION_NS as int;
    assert(plain * INTERPOLATION_DEN == (plain * s) * n) by (nonlinear_arith)
        requires
            n == 1_000_000_000,
            s == 23_400_000_000_000,
            INTERPOLATION_DEN == 23_400_000_000_000_000_000_000,
    ;
    assert((interpolated * n < (plain * s) * n) == (interpolated < plain * s)) by (nonlinear_arith)
        requires
            n > 0,
    ;
    assert((interpolated * n > (plain * s) * n) == (interpolated > plain * s)) by (nonlinear_arith)
        requires
            n > 0,
    ;
}

proof fn lemma_interpolation_fits(open: i64, close: i64, elapsed: int)
    requires
        0 <= elapsed <= SESSION_NS,
    ensures
        i128::MIN <= open * SESSION_NS + elapsed * (close - open) <= i128::MAX,
{
    let d = close - open;
    assert(-0x1_0000_0000_0000_0000 * SESSION_NS <= elapsed * d <= 0x1_0000_0000_0000_0000
        * SESSION_NS) by (nonlinear_arith)
        requires
            0 <= elapsed <= SESSION_NS,
            -0x1_0000_0000_0000_0000 <= d <= 0x1_0000_0000_0000_0000,
            SESSION_NS == 23_400_000_000_000,
    ;
}

/// Where the market moved, events at distinct times of the session have
/// distinct underlying prices, and they move in the direction of the close.
pub proof fn law_estimate_tracks_the_session(
    open: i64,
    close: i64,
    utc_offset: i32,
    earlier: int,
    later: int,
)
    requires
        session_open_ns(utc_offset as int) <= earlier < later <= session_close_ns(
            utc_offset as int,
        ),
    ensures
        ({
            let e = underlying_at(open as int, close as int, utc_offset as int, earlier);
            let l = underlying_at(open as int, close as int, utc_offset as int, later);
            &&& open < close ==> e.lt(l)
            &&& close < open ==> l.lt(e)
            &&& open == close ==> e.same_value(l)
        }),
{
    let start = session_open_ns(utc_offset as int);
    let s = SESSION_NS as int;
    let d = close - open;
    let x = earlier - start;
    let y = later - start;
    lemma_interpolation_fits(open, close, x);
    lemma_interpolation_fits(open, close, y);
    assert(d > 0 ==> x * d < y * d) by (nonlinear_arith)
        requires
            x < y,
    ;
    assert(d < 0 ==> y * d < x * d) by (nonlinear_arith)
        requires
            x < y,
    ;
    assert(d == 0 ==> x * d == 0 && y * d == 0) by (nonlinear_arith);
    assert(x == 0 ==> x * d == 0) by (nonlinear_arith);
    assert(y == s ==> y * d == s * d) by (nonlinear_arith);
    assert(open * s + s * d == close * s) by (nonlinear_arith)
        requires
            d == close - open,
    ;
    let p = open * s + x * d;
    let q = open * s + y * d;
    lemma_price_order(p, open as int);
    lemma_price_order(p, close as int);
    lemma_price_order(q, open as int);
    lemma_price_order(q, close as int);
    let n = INTERPOLATION_DEN as int;
    assert(((p * n < q * n) == (p < q)) && ((q * n < p * n) == (q < p))) by (nonlinear_arith)
        requires
            n > 0,
    ;
    let m = NANOS_PER_DOLLAR as int;
    assert((open * m < close * m) == (open < close) && (close * m < open * m) == (close < open))
        by (nonlinear_arith)
        requires
            m > 0,
    ;
    assert(open == close ==> open * m == close * m && open * n == close * n);
}

/// A timestamp is a number of whole days and a time of day: on or after the
/// epoch the nanoseconds since the last midnight, before it the negative ones to
/// the next.
pub proof fn law_time_of_day(ts: int)
    ensures
        (ts - time_of_day(ts)) % 86_400_000_000_000 == 0,
        ts >= 0 ==> 0 <= time_of_day(ts) < 86_400_000_000_000,
        ts < 0 ==> -86_400_000_000_000 < time_of_day(ts) <= 0,
{
    let day = 86_400_000_000_000int;
    if ts >= 0 {
        let q = ts / day;
        assert(ts - time_of_day(ts) == day * q);
        assert((day * q) % day == 0) by {
            vstd::arithmetic::div_mod::lemma_mod_multiples_basic(q, day);
        }
    } else {
        let q = (-ts) / day;
        assert(ts - time_of_day(ts) == -(day * q));
        assert(-(day * q) == day * (-q)) by (nonlinear_arith);
        assert((day * (-q)) % day == 0) by {
            vstd::arithmetic::div_mod::lemma_mod_multiples_basic(-q, day);
        }
    }
}

/// Timestamps beyond the signed range wrap around, and the others are kept.
pub proof fn law_signed_timestamp(ts: u64)
    ensures
        i64::MIN <= signed_timestamp(ts) <= i64::MAX,
        signed_timestamp(ts) == ts || signed_timestamp(ts) == ts - 0x1_0000_0000_0000_0000,
{
}

/// The underlying price by the clock: the open until half past nine Eastern, the
/// close from four in the afternoon on, and in between the open with the share
/// of the way to the close that is the share of the session that has passed.
pub proof fn law_estimate_by_the_clock(open: i64, close: i64, utc_offset: i32, tod: int)
    ensures
        ({
            let price = underlying_at(open as int, close as int, utc_offset as int, tod);
            // Nanoseconds since 09:30 Eastern, of the 6.5 hours of the session.
            let since_open = tod - (9 - utc_offset) * 3_600_000_000_000 - 1_800_000_000_000;
            let session = 23_400_000_000_000int;
            &&& since_open <= 0 ==> price.is_quotient(open as int, 1_000_000_000)
            &&& since_open >= session ==> price.is_quotient(close as int, 1_000_000_000)
            &&& 0 < since_open < session ==> price.is_quotient(
                open * session + since_open * (close - open),
                session * 1_000_000_000,
            )
        }),
{
    let since_open = tod - (9 - utc_offset) * 3_600_000_000_000 - 1_800_000_000_000;
    if 0 < since_open < 23_400_000_000_000 {
        lemma_interpolation_fits(open, close, since_open);
    }
}

/// Time to expiry by the clock. On the day of expiry it is the time until four
/// in the afternoon Eastern, at most the 6.5 hours of a session, in years of 252
/// sessions; else it is calendar days in years of 365. It is never below a
/// millionth of a year.
pub proof fn law_time_to_expiry_by_the_clock(dte: i64, utc_offset: i32, tod: int)
    ensures
        ({
            let years = years_to_expiry(dte as int, utc_offset as int, tod);
            let until_close = (16 - utc_offset) * 3_600_000_000_000 - tod;
            let left = if until_close < 0 {
                0
            } else if until_close > 23_400_000_000_000 {
                23_400_000_000_000
            } else {
                until_close
            };
            // Nanoseconds of 252 sessions of 390 minutes.
            let year = 5_896_800_000_000_000int;
            &&& dte == 0 && left * 1_000_000 >= year ==> years.is_quotient(left, year)
            &&& dte == 0 && left * 1_000_000 < year ==> years.is_quotient(1, 1_000_000)
            &&& dte > 0 ==> years.is_quotient(dte as int, 365)
            &&& dte < 0 ==> years.is_quotient(1, 1_000_000)
        }),
{
    let until_close = (16 - utc_offset) * 3_600_000_000_000 - tod;
    let m = minutes_remaining(utc_offset as int, tod);
    if 0 < until_close <= 23_400_000_000_000 {
        assert(m.num == until_close && m.den == 60_000_000_000);
    }
}

} // verus!
