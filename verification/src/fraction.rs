//! Exact rational numbers.
//!
//! Prices reach the profiler as integers, so every derived quantity (a spread,
//! a mid-price, a percentage) is a quotient of integers. It is carried as one,
//! and is rounded only where a statistic over many of them is accumulated.

use vstd::prelude::*;

verus! {

/// The rational number `num / den`.
#[derive(Clone, Copy, Debug, PartialEq, Eq, Structural)]
pub struct Fraction {
    pub num: i128,
    pub den: u128,
}

impl Fraction {
    /// A fraction denotes a number when its denominator is not zero.
    pub open spec fn valid(self) -> bool {
        self.den > 0
    }

    /// `self < other` as rational numbers, by cross multiplication.
    pub open spec fn lt(self, other: Fraction) -> bool {
        self.num * other.den < other.num * self.den
    }

    /// `self` and `other` denote the same rational number.
    pub open spec fn same_value(self, other: Fraction) -> bool {
        self.num * other.den == other.num * self.den
    }

    /// The fraction denotes the number `num / den`.
    pub open spec fn is_quotient(self, num: int, den: int) -> bool {
        self.den > 0 && self.num * den == num * self.den
    }

    /// The integer `n` as a fraction.
    pub fn whole(n: u64) -> (f: Fraction)
        ensures
            f == (Fraction { num: n as i128, den: 1 }),
            f.valid(),
    {
        Fraction { num: n as i128, den: 1 }
    }

    /// Exact comparison; no intermediate product is formed, so every pair of
    /// valid fractions can be compared.
    pub fn less_than(&self, other: &Fraction) -> (r: bool)
        requires
            self.valid(),
            other.valid(),
        ensures
            r == self.lt(*other),
    {
        let a = self.num;
        let c = other.num;
        let b = self.den;
        let d = other.den;
        if a < 0 {
            if c >= 0 {
                assert(a * d < 0) by (nonlinear_arith)
                    requires
                        a < 0,
                        d > 0,
                ;
                assert(c * b >= 0) by (nonlinear_arith)
                    requires
                        c >= 0,
                        b > 0,
                ;
                true
            } else {
                let pa: u128 = magnitude(a);
                let pc: u128 = magnitude(c);
                assert(pc * b == -(c * b)) by (nonlinear_arith)
                    requires
                        pc == -c,
                ;
                assert(pa * d == -(a * d)) by (nonlinear_arith)
                    requires
                        pa == -a,
                ;
                quotient_less(pc, d, pa, b)
            }
        } else if c < 0 {
            assert(a * d >= 0) by (nonlinear_arith)
                requires
                    a >= 0,
                    d > 0,
            ;
            assert(c * b < 0) by (nonlinear_arith)
                requires
                    c < 0,
                    b > 0,
            ;
            false
        } else {
            quotient_less(a as u128, b, c as u128, d)
        }
    }
}

/// The absolute value of a negative number.
fn magnitude(n: i128) -> (r: u128)
    requires
        n < 0,
    ensures
        r == -n,
{
    let shifted: u128 = (-(n + 1)) as u128;
    shifted + 1
}

/// Whether `a / b < c / d`, by comparing the continued fractions of the two
/// quotients term by term.
pub fn quotient_less(a: u128, b: u128, c: u128, d: u128) -> (r: bool)
    requires
        b > 0,
        d > 0,
    ensures
        r == (a * d < c * b),
    decreases b + d,
{
    let qa: u128 = a / b;
    let ra: u128 = a % b;
    let qc: u128 = c / d;
    let rc: u128 = c % d;
    assert(a == qa * b + ra && 0 <= ra < b) by (nonlinear_arith)
        requires
            b > 0,
            qa == a / b,
            ra == a % b,
    ;
    assert(c == qc * d + rc && 0 <= rc < d) by (nonlinear_arith)
        requires
            d > 0,
            qc == c / d,
            rc == c % d,
    ;
    assert(a * d == (qa * d) * b + ra * d) by (nonlinear_arith)
        requires
            a == qa * b + ra,
    ;
    assert(c * b == (qc * d) * b + rc * b) by (nonlinear_arith)
        requires
            c == qc * d + rc,
    ;
    assert(ra * d < b * d) by (nonlinear_arith)
        requires
            0 <= ra < b,
            d > 0,
    ;
    assert(rc * b < d * b) by (nonlinear_arith)
        requires
            0 <= rc < d,
            b > 0,
    ;
    assert(ra * d >= 0 && rc * b >= 0) by (nonlinear_arith)
        requires
            ra >= 0,
            rc >= 0,
            b > 0,
            d > 0,
    ;
    if qa < qc {
        assert((qa * d) * b + b * d <= (qc * d) * b) by (nonlinear_arith)
            requires
                qa + 1 <= qc,
                b > 0,
                d > 0,
        ;
        true
    } else if qc < qa {
        assert((qc * d) * b + d * b <= (qa * d) * b) by (nonlinear_arith)
            requires
                qc + 1 <= qa,
                b > 0,
                d > 0,
        ;
        false
    } else if rc == 0 {
        assert(rc * b == 0) by (nonlinear_arith)
            requires
                rc == 0,
        ;
        false
    } else if ra == 0 {
        assert(ra * d == 0) by (nonlinear_arith)
            requires
                ra == 0,
        ;
        assert(rc * b > 0) by (nonlinear_arith)
            requires
                rc > 0,
                b > 0,
        ;
        true
    } else {
        assert(ra * d == d * ra && rc * b == b * rc) by (nonlinear_arith);
        quotient_less(d, rc, b, ra)
    }
}

/// A fraction is less than another exactly when it is less by value: the order
/// does not depend on how either number is written.
pub proof fn law_order_respects_value(a: Fraction, b: Fraction, c: Fraction)
    requires
        a.valid(),
        b.valid(),
        c.valid(),
        a.same_value(b),
    ensures
        a.lt(c) == b.lt(c),
        c.lt(a) == c.lt(b),
{
    let (an, ad, bn, bd, cn, cd) = (
        a.num as int,
        a.den as int,
        b.num as int,
        b.den as int,
        c.num as int,
        c.den as int,
    );
    assert((an * cd < cn * ad) == (bn * cd < cn * bd)) by (nonlinear_arith)
        requires
            an * bd == bn * ad,
            ad > 0,
            bd > 0,
            cd > 0,
    {
        assert((an * cd) * bd == (bn * cd) * ad) by (nonlinear_arith)
            requires
                an * bd == bn * ad,
        ;
        assert((cn * ad) * bd == (cn * bd) * ad) by (nonlinear_arith);
        if an * cd < cn * ad {
            assert((an * cd) * bd < (cn * ad) * bd) by (nonlinear_arith)
                requires
                    an * cd < cn * ad,
                    bd > 0,
            ;
            assert(bn * cd < cn * bd) by (nonlinear_arith)
                requires
                    (bn * cd) * ad < (cn * bd) * ad,
                    ad > 0,
            ;
        } else {
            assert((an * cd) * bd >= (cn * ad) * bd) by (nonlinear_arith)
                requires
                    an * cd >= cn * ad,
                    bd > 0,
            ;
            assert(bn * cd >= cn * bd) by (nonlinear_arith)
                requires
                    (bn * cd) * ad >= (cn * bd) * ad,
                    ad > 0,
            ;
        }
    }
    assert((cn * ad < an * cd) == (cn * bd < bn * cd)) by {
        assert((an * cd) * bd == (bn * cd) * ad) by (nonlinear_arith)
            requires
                an * bd == bn * ad,
        ;
        assert((cn * ad) * bd == (cn * bd) * ad) by (nonlinear_arith);
        if cn * ad < an * cd {
            assert((cn * ad) * bd < (an * cd) * bd) by (nonlinear_arith)
                requires
                    cn * ad < an * cd,
                    bd > 0,
            ;
            assert(cn * bd < bn * cd) by (nonlinear_arith)
                requires
                    (cn * bd) * ad < (bn * cd) * ad,
                    ad > 0,
            ;
        } else {
            assert((cn * ad) * bd >= (an * cd) * bd) by (nonlinear_arith)
                requires
                    cn * ad >= an * cd,
                    bd > 0,
            ;
            assert(cn * bd >= bn * cd) by (nonlinear_arith)
                requires
                    (cn * bd) * ad >= (bn * cd) * ad,
                    ad > 0,
            ;
        }
    }
}

} // verus!
