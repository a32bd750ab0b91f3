//! Moneyness classification for option contracts.
//!
//! Classifies options as ATM, ITM, OTM, deep ITM, or deep OTM based on the
//! ratio of strike price to underlying price. Strikes are in thousandths of a
//! dollar and the half-widths of the bands in billionths, so the comparison of
//! the ratio with a band's edge is exact.

use crate::contract::ContractType;
use crate::fraction::{quotient_less, Fraction};
use vstd::prelude::*;

verus! {

/// One, in the unit of the band half-widths.
pub const UNIT: i128 = 1_000_000_000;

/// The unit of the half-widths over that of the strikes.
pub const UNIT_PER_MILLI: u128 = 1_000_000;

/// The largest denominator of an underlying price.
pub const MAX_PRICE_DEN: u128 = 340_282_366_920_938_463_463_374_607_431_768;

/// Moneyness classification.
#[derive(Debug, Clone, Copy, PartialEq, Eq, Structural, Hash)]
pub enum Moneyness {
    DeepItm,
    Itm,
    Atm,
    Otm,
    DeepOtm,
}

/// Moneyness classification boundaries (configurable).
///
/// For a call option with underlying S and strike K:
/// - the ratio is K / S
/// - ATM: ratio in [1 - atm_range, 1 + atm_range]
/// - ITM: ratio < 1 - atm_range (for calls)
/// - OTM: ratio > 1 + atm_range (for calls)
///
/// For puts, ITM/OTM are reversed.
#[derive(Debug, Clone, Copy, PartialEq, Eq, Structural)]
pub struct MoneynessBuckets {
    /// Half-width of the ATM band in billionths.
    pub atm_range: i64,
    /// Boundary for deep ITM/OTM in billionths.
    pub deep_range: i64,
}

/// The ratio of a strike to an underlying price.
#[derive(Debug, Clone, Copy, PartialEq, Eq, Structural)]
pub struct MoneynessRatio {
    /// Strike in thousandths of a dollar.
    pub strike: u64,
    /// Underlying price in dollars.
    pub underlying_price: Fraction,
}

impl Default for MoneynessBuckets {
    /// An ATM band of 2% and a deep boundary of 10%.
    fn default() -> (r: Self)
        ensures
            r == (MoneynessBuckets { atm_range: 20_000_000, deep_range: 100_000_000 }),
    {
        MoneynessBuckets { atm_range: 20_000_000, deep_range: 100_000_000 }
    }
}

/// There is an underlying price to compare with: it is defined and positive.
pub open spec fn price_defined(underlying: Fraction) -> bool {
    underlying.den > 0 && underlying.num > 0
}

/// strike / underlying < 1 - range.
pub open spec fn ratio_below(strike: u64, underlying: Fraction, range: i64) -> bool {
    strike * (underlying.den * UNIT_PER_MILLI) < (UNIT - range) * underlying.num
}

/// strike / underlying > 1 + range.
pub open spec fn ratio_above(strike: u64, underlying: Fraction, range: i64) -> bool {
    strike * (underlying.den * UNIT_PER_MILLI) > (UNIT + range) * underlying.num
}

/// The class with in-the-money and out-of-the-money exchanged.
pub open spec fn mirrored(m: Moneyness) -> Moneyness {
    match m {
        Moneyness::DeepItm => Moneyness::DeepOtm,
        Moneyness::Itm => Moneyness::Otm,
        Moneyness::Atm => Moneyness::Atm,
        Moneyness::Otm => Moneyness::Itm,
        Moneyness::DeepOtm => Moneyness::DeepItm,
    }
}

impl MoneynessBuckets {
    /// The ratio is in the money by more than a range.
    pub open spec fn in_the_money(
        strike: u64,
        underlying: Fraction,
        contract_type: ContractType,
        range: i64,
    ) -> bool {
        match contract_type {
            ContractType::Call => ratio_below(strike, underlying, range),
            ContractType::Put => ratio_above(strike, underlying, range),
        }
    }

    /// The ratio is out of the money by more than a range.
    pub open spec fn out_of_the_money(
        strike: u64,
        underlying: Fraction,
        contract_type: ContractType,
        range: i64,
    ) -> bool {
        match contract_type {
            ContractType::Call => ratio_above(strike, underlying, range),
            ContractType::Put => ratio_below(strike, underlying, range),
        }
    }

    /// The class of an option; `None` without a positive underlying price.
    pub open spec fn class_of(
        self,
        strike: u64,
        underlying: Fraction,
        contract_type: ContractType,
    ) -> Option<Moneyness> {
        if !price_defined(underlying) {
            None
        } else if Self::in_the_money(strike, underlying, contract_type, self.deep_range) {
            Some(Moneyness::DeepItm)
        } else if Self::out_of_the_money(strike, underlying, contract_type, self.deep_range) {
            Some(Moneyness::DeepOtm)
        } else if Self::in_the_money(strike, underlying, contract_type, self.atm_range) {
            Some(Moneyness::Itm)
        } else if Self::out_of_the_money(strike, underlying, contract_type, self.atm_range) {
            Some(Moneyness::Otm)
        } else {
            Some(Moneyness::Atm)
        }
    }

    /// The ratio itself; `None` without a positive underlying price.
    pub open spec fn ratio_of(strike: u64, underlying: Fraction) -> Option<MoneynessRatio> {
        if price_defined(underlying) {
            Some(MoneynessRatio { strike, underlying_price: underlying })
        } else {
            None
        }
    }

    /// Classify an option's moneyness given strike (in thousandths of a
    /// dollar), underlying price and contract type. A price with denominator
    /// zero is no price.
    ///
    /// Returns `None` if there is no positive underlying price.
    pub fn classify(
        &self,
        strike: u64,
        underlying_price: Fraction,
        contract_type: ContractType,
    ) -> (r: Option<Moneyness>)
        requires
            underlying_price.den <= MAX_PRICE_DEN,
        ensures
            r == self.class_of(strike, underlying_price, contract_type),
    {
        if underlying_price.den == 0 || underlying_price.num <= 0 {
            return None;
        }
        let deep_below: bool = is_below(strike, underlying_price, self.deep_range);
        let deep_above: bool = is_above(strike, underlying_price, self.deep_range);
        let below: bool = is_below(strike, underlying_price, self.atm_range);
        let above: bool = is_above(strike, underlying_price, self.atm_range);
        let (deep_itm, deep_otm, itm, otm) = match contract_type {
            ContractType::Call => (deep_below, deep_above, below, above),
            ContractType::Put => (deep_above, deep_below, above, below),
        };
        if deep_itm {
            Some(Moneyness::DeepItm)
        } else if deep_otm {
            Some(Moneyness::DeepOtm)
        } else if itm {
            Some(Moneyness::Itm)
        } else if otm {
            Some(Moneyness::Otm)
        } else {
            Some(Moneyness::Atm)
        }
    }

    /// The moneyness ratio: strike / underlying_price.
    pub fn ratio(strike: u64, underlying_price: Fraction) -> (r: Option<MoneynessRatio>)
        ensures
            r == Self::ratio_of(strike, underlying_price),
    {
        if underlying_price.den > 0 && underlying_price.num > 0 {
            Some(MoneynessRatio { strike, underlying_price })
        } else {
            None
        }
    }
}

impl Moneyness {
    /// The label of the class in reports.
    pub open spec fn label_of(self) -> &'static str {
        match self {
            Moneyness::DeepItm => "deep_itm",
            Moneyness::Itm => "itm",
            Moneyness::Atm => "atm",
            Moneyness::Otm => "otm",
            Moneyness::DeepOtm => "deep_otm",
        }
    }

    /// The label of the class in reports.
    pub fn label(&self) -> (r: &'static str)
        ensures
            r == self.label_of(),
    {
        match self {
            Moneyness::DeepItm => "deep_itm",
            Moneyness::Itm => "itm",
            Moneyness::Atm => "atm",
            Moneyness::Otm => "otm",
            Moneyness::DeepOtm => "deep_otm",
        }
    }
}

fn is_below(strike: u64, underlying: Fraction, range: i64) -> (r: bool)
    requires
        underlying.den <= MAX_PRICE_DEN,
        price_defined(underlying),
    ensures
        r == ratio_below(strike, underlying, range),
{
    let scaled_den: u128 = underlying.den * UNIT_PER_MILLI;
    let edge: i128 = UNIT - range as i128;
    let num = underlying.num;
    assert(strike * scaled_den >= 0) by (nonlinear_arith);
    if edge <= 0 {
        assert(edge * num <= 0) by (nonlinear_arith)
            requires
                edge <= 0,
                num > 0,
        ;
        false
    } else {
        quotient_less(strike as u128, num as u128, edge as u128, scaled_den)
    }
}

fn is_above(strike: u64, underlying: Fraction, range: i64) -> (r: bool)
    requires
        underlying.den <= MAX_PRICE_DEN,
        price_defined(underlying),
    ensures
        r == ratio_above(strike, underlying, range),
{
    let scaled_den: u128 = underlying.den * UNIT_PER_MILLI;
    let edge: i128 = UNIT + range as i128;
    let num = underlying.num;
    assert(strike * scaled_den >= 0) by (nonlinear_arith);
    if edge < 0 {
        assert(edge * num < 0) by (nonlinear_arith)
            requires
                edge < 0,
                num > 0,
        ;
        true
    } else {
        quotient_less(edge as u128, scaled_den, strike as u128, num as u128)
    }
}

/// A wider range is exceeded less often, on either side; and with ranges that
/// are not negative no ratio is on both sides.
proof fn lemma_ranges(strike: u64, underlying: Fraction, narrow: i64, wide: i64)
    requires
        price_defined(underlying),
        narrow <= wide,
    ensures
        ratio_below(strike, underlying, wide) ==> ratio_below(strike, underlying, narrow),
        ratio_above(strike, underlying, wide) ==> ratio_above(strike, underlying, narrow),
        narrow >= 0 ==> !(ratio_below(strike, underlying, narrow) && ratio_above(
            strike,
            underlying,
            narrow,
        )),
{
    let n = underlying.num as int;
    let (lo, hi) = (narrow as int, wide as int);
    assert((UNIT - hi) * n <= (UNIT - lo) * n && (UNIT + lo) * n <= (UNIT + hi) * n)
        by (nonlinear_arith)
        requires
            lo <= hi,
            n > 0,
    ;
    assert(lo >= 0 ==> (UNIT - lo) * n <= (UNIT + lo) * n) by (nonlinear_arith)
        requires
            n > 0,
    ;
}

/// A put is in the money where a call on the same strike is out of it, by the
/// same distance.
pub proof fn law_puts_mirror_calls(buckets: MoneynessBuckets, strike: u64, underlying: Fraction)
    requires
        buckets.atm_range >= 0,
        buckets.deep_range >= 0,
    ensures
        match buckets.class_of(strike, underlying, ContractType::Call) {
            Some(m) => buckets.class_of(strike, underlying, ContractType::Put) == Some(mirrored(m)),
            None => buckets.class_of(strike, underlying, ContractType::Put) is None,
        },
{
    if price_defined(underlying) {
        lemma_ranges(strike, underlying, buckets.atm_range, buckets.atm_range);
        lemma_ranges(strike, underlying, buckets.deep_range, buckets.deep_range);
    }
}

/// With the deep boundary outside of the ATM band, an option is at the money
/// exactly when its ratio is in the band, edges included.
pub proof fn law_atm_is_the_band(
    buckets: MoneynessBuckets,
    strike: u64,
    underlying: Fraction,
    contract_type: ContractType,
)
    requires
        price_defined(underlying),
        buckets.atm_range <= buckets.deep_range,
    ensures
        buckets.class_of(strike, underlying, contract_type) == Some(Moneyness::Atm) <==> (
        !ratio_below(strike, underlying, buckets.atm_range) && !ratio_above(
            strike,
            underlying,
            buckets.atm_range,
        )),
{
    lemma_ranges(strike, underlying, buckets.atm_range, buckets.deep_range);
}

/// A strike at the underlying price is at the money.
pub proof fn law_strike_at_price_is_atm(
    buckets: MoneynessBuckets,
    strike: u64,
    contract_type: ContractType,
)
    requires
        strike > 0,
        buckets.atm_range >= 0,
        buckets.deep_range >= 0,
    ensures
        buckets.class_of(
            strike,
            (Fraction { num: strike as i128, den: 1000 }),
            contract_type,
        ) == Some(Moneyness::Atm),
{
    lemma_strike_at_price(strike, buckets.atm_range);
    lemma_strike_at_price(strike, buckets.deep_range);
}

/// The ratio of a strike to itself exceeds no range.
proof fn lemma_strike_at_price(strike: u64, range: i64)
    requires
        strike > 0,
        range >= 0,
    ensures
        ({
            let price = Fraction { num: strike as i128, den: 1000 };
            !ratio_below(strike, price, range) && !ratio_above(strike, price, range)
        }),
{
    let (s, r) = (strike as int, range as int);
    assert(s * (1000 * 1_000_000) >= (1_000_000_000 - r) * s && s * (1000 * 1_000_000) <= (
    1_000_000_000 + r) * s) by (nonlinear_arith)
        requires
            s > 0,
            r >= 0,
    ;
}

/// A higher strike never moves a call towards the money, nor a put away from it.
pub proof fn law_class_follows_the_strike(
    buckets: MoneynessBuckets,
    lower: u64,
    higher: u64,
    underlying: Fraction,
)
    requires
        price_defined(underlying),
        lower <= higher,
    ensures
        crate::report_utils::index_of(
            buckets.class_of(lower, underlying, ContractType::Call)->0,
        ) <= crate::report_utils::index_of(
            buckets.class_of(higher, underlying, ContractType::Call)->0,
        ),
        crate::report_utils::index_of(
            buckets.class_of(lower, underlying, ContractType::Put)->0,
        ) >= crate::report_utils::index_of(
            buckets.class_of(higher, underlying, ContractType::Put)->0,
        ),
{
    let d = underlying.den * UNIT_PER_MILLI;
    assert(lower * d <= higher * d) by (nonlinear_arith)
        requires
            lower <= higher,
            d >= 0,
    ;
}

/// The class by the ratio of the strike to the price. With the ratio below one
/// by more than the deep range a call is deep in the money, above one by more
/// than that deep out of it, and so for the ATM range where the ratio is not
/// beyond the deep one; a put is the other way round. Strikes are thousandths
/// of a dollar and ranges billionths, so the ratio times 10^9 is
/// `strike * den * 10^6 / num`.
pub proof fn law_class_by_the_ratio(
    buckets: MoneynessBuckets,
    strike: u64,
    price: Fraction,
    contract_type: ContractType,
)
    ensures
        ({
            let class = buckets.class_of(strike, price, contract_type);
            let ratio = strike * (price.den * 1_000_000);
            let (one, n) = (1_000_000_000int, price.num as int);
            let below = |range: i64| ratio < (one - range) * n;
            let above = |range: i64| ratio > (one + range) * n;
            let is_call = contract_type == ContractType::Call;
            let itm = |range: i64|
                if is_call {
                    below(range)
                } else {
                    above(range)
                };
            let otm = |range: i64|
                if is_call {
                    above(range)
                } else {
                    below(range)
                };
            let (deep, atm) = (buckets.deep_range, buckets.atm_range);
            let priced = price.den > 0 && price.num > 0;
            &&& class is None <==> !priced
            &&& class == Some(Moneyness::DeepItm) <==> priced && itm(deep)
            &&& class == Some(Moneyness::DeepOtm) <==> priced && !itm(deep) && otm(deep)
            &&& class == Some(Moneyness::Itm) <==> priced && !itm(deep) && !otm(deep) && itm(atm)
            &&& class == Some(Moneyness::Otm) <==> priced && !itm(deep) && !otm(deep) && !itm(atm)
                && otm(atm)
            &&& class == Some(Moneyness::Atm) <==> priced && !itm(deep) && !otm(deep) && !itm(atm)
                && !otm(atm)
        }),
{
}

/// The ratio is that of the strike to the price, where there is a price.
pub proof fn law_ratio_is_of_strike_and_price(strike: u64, price: Fraction)
    ensures
        MoneynessBuckets::ratio_of(strike, price) is Some <==> price.den > 0 && price.num > 0,
        MoneynessBuckets::ratio_of(strike, price) matches Some(r) ==> r.strike == strike
            && r.underlying_price == price,
{
}

} // verus!
