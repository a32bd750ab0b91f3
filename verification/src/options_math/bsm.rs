//! The time scale of the Black-Scholes-Merton model, in exact arithmetic.

use crate::fraction::Fraction;
use vstd::prelude::*;

verus! {

/// Minutes of one trading year: 252 sessions of 390 minutes.
pub const TRADING_YEAR_MINUTES: u128 = 98_280;

/// The shortest time to expiry is one year over this number.
pub const MIN_T_INVERSE: u128 = 1_000_000;

/// `minutes` in trading years, or a millionth of a year where that is longer.
pub open spec fn trading_years(minutes: Fraction) -> Fraction {
    if minutes.num * MIN_T_INVERSE < minutes.den * TRADING_YEAR_MINUTES {
        Fraction { num: 1, den: MIN_T_INVERSE }
    } else {
        Fraction { num: minutes.num, den: (minutes.den * TRADING_YEAR_MINUTES) as u128 }
    }
}

/// Time to expiry in years for a number of minutes that remain in the session,
/// of 252 trading days per year and 390 minutes per trading day. It is never
/// below a millionth of a year, so that no division near expiry is by zero.
pub fn minutes_to_years(minutes_remaining: Fraction) -> (years: Fraction)
    requires
        minutes_remaining.valid(),
        minutes_remaining.den * TRADING_YEAR_MINUTES <= u128::MAX,
    ensures
        years == trading_years(minutes_remaining),
        years.valid(),
{
    let m = minutes_remaining;
    let den: u128 = m.den * TRADING_YEAR_MINUTES;
    if m.num <= 0 || crate::fraction::quotient_less(m.num as u128, den, 1, MIN_T_INVERSE) {
        Fraction { num: 1, den: MIN_T_INVERSE }
    } else {
        Fraction { num: m.num, den }
    }
}

/// No time to expiry is below a millionth of a year, and more minutes never
/// give less time.
pub proof fn law_time_is_clamped_and_monotone(a: Fraction, b: Fraction)
    requires
        a.valid(),
        b.valid(),
        a.den * TRADING_YEAR_MINUTES <= u128::MAX,
        b.den * TRADING_YEAR_MINUTES <= u128::MAX,
    ensures
        !trading_years(a).lt((Fraction { num: 1, den: MIN_T_INVERSE })),
        !b.lt(a) ==> !trading_years(b).lt(trading_years(a)),
{
    let (an, ad, bn, bd) = (a.num as int, a.den as int, b.num as int, b.den as int);
    let year: int = TRADING_YEAR_MINUTES as int;
    let inverse: int = MIN_T_INVERSE as int;
    if !b.lt(a) {
        assert(an * bd <= bn * ad);
        if an * inverse < ad * year {
            assert(!trading_years(b).lt(trading_years(a)));
        } else if bn * inverse < bd * year {
            assert(false) by (nonlinear_arith)
                requires
                    an * bd <= bn * ad,
                    an * inverse >= ad * year,
                    bn * inverse < bd * year,
                    ad > 0,
                    bd > 0,
                    inverse > 0,
            {
                assert((an * inverse) * bd >= (ad * year) * bd) by (nonlinear_arith)
                    requires
                        an * inverse >= ad * year,
                        bd > 0,
                ;
                assert((bn * inverse) * ad < (bd * year) * ad) by (nonlinear_arith)
                    requires
                        bn * inverse < bd * year,
                        ad > 0,
                ;
                assert((an * bd) * inverse <= (bn * ad) * inverse) by (nonlinear_arith)
                    requires
                        an * bd <= bn * ad,
                        inverse > 0,
                ;
                assert((an * inverse) * bd == (an * bd) * inverse) by (nonlinear_arith);
                assert((bn * inverse) * ad == (bn * ad) * inverse) by (nonlinear_arith);
                assert((ad * year) * bd == (bd * year) * ad) by (nonlinear_arith);
            }
        } else {
            let da = trading_years(a).den as int;
            let db = trading_years(b).den as int;
            assert(bn * da >= an * db) by (nonlinear_arith)
                requires
                    an * bd <= bn * ad,
                    da == ad * year,
                    db == bd * year,
                    year > 0,
            {
                assert((an * bd) * year <= (bn * ad) * year) by (nonlinear_arith)
                    requires
                        an * bd <= bn * ad,
                        year > 0,
                ;
                assert((an * bd) * year == an * (bd * year)) by (nonlinear_arith);
                assert((bn * ad) * year == bn * (ad * year)) by (nonlinear_arith);
            }
        }
    }
}

} // verus!
