//! What trackers observe.
//!
//! A tracker decides which values enter which statistic; the statistics
//! themselves (means, reservoir samples, intraday curves) are kept outside of
//! it. Each statistic has a [`Channel`], and what a tracker wants done after an
//! event is a sequence of [`Effect`]s, to be performed in order.

use crate::fraction::Fraction;
use vstd::prelude::*;

verus! {

/// One statistic of one tracker. Buckets are by their index in the labels of
/// `report_utils`.
#[derive(Debug, Clone, Copy, PartialEq, Eq, Structural, Hash)]
pub enum Channel {
    // QualityTracker
    EventsPerDay,
    TradesPerDay,
    ContractsPerDay,
    // SpreadTracker
    SpreadUsd,
    SpreadPct,
    Dte0AtmSpreadUsd,
    Dte0AtmSpreadPct,
    SpreadByMoneyness(usize),
    SpreadByDte(usize),
    Dte0AtmSpreadCurve,
    Dte0AtmMidCurve,
    // ZeroDteTracker
    AtmCallSpread,
    AtmPutSpread,
    AtmCallPremium,
    AtmPutPremium,
    AtmTradeSize,
    AtmBidAskImbalance,
    TradesPer0dteDay,
    VolumePer0dteDay,
    AtmCallSpreadCurve,
    AtmPutSpreadCurve,
    AtmCallMidCurve,
    AtmPutMidCurve,
    AtmTradeVolumeCurve,
    AtmTradeCountCurve,
    // PremiumDecayTracker
    DailyCallDecayPct,
    DailyPutDecayPct,
    CallPremiumCurve,
    PutPremiumCurve,
    CallPremiumToSpreadCurve,
    PutPremiumToSpreadCurve,
    // VolumeTracker
    TradeSize,
    CallTradeSize,
    PutTradeSize,
    DailyVolume,
    DailyTrades,
    AllVolumeCurve,
    Dte0VolumeCurve,
    // GreeksTracker
    Dte0AtmCallIv,
    Dte0AtmPutIv,
    Dte0AtmDeltaCall,
    Dte0AtmDeltaPut,
    Dte0AtmGamma,
    Dte0AtmVega,
    IvByDte(usize),
    Dte0AtmIvCurve,
    // PutCallRatioTracker
    PcrVolumeDaily,
    PcrTradesDaily,
    Pcr0dteDaily,
    CallVolumeCurve,
    PutVolumeCurve,
    Dte0CallVolumeCurve,
    Dte0PutVolumeCurve,
    // OptionsEffectiveSpreadTracker
    EffectiveSpread(usize, usize),
    QuotedSpread(usize, usize),
    EffectiveSpreadBySize(usize),
    EffectiveSpreadCurve,
    QuotedSpreadCurve,
}

/// What a statistic keeps of its values.
#[derive(Debug, Clone, Copy, PartialEq, Eq, Structural)]
pub enum Statistic {
    /// Running mean, standard deviation, extremes and count.
    Moments,
    /// The same with quantiles from a reservoir sample.
    Distribution,
    /// Moments for each minute of the session.
    Curve,
}

impl Channel {
    /// The kind of statistic that the channel feeds.
    pub open spec fn statistic_of(self) -> Statistic {
        match self {
            Channel::SpreadUsd | Channel::SpreadPct | Channel::Dte0AtmSpreadUsd
            | Channel::Dte0AtmSpreadPct | Channel::AtmCallSpread | Channel::AtmPutSpread
            | Channel::AtmCallPremium | Channel::AtmPutPremium | Channel::AtmTradeSize
            | Channel::AtmBidAskImbalance | Channel::TradeSize | Channel::CallTradeSize
            | Channel::PutTradeSize | Channel::Dte0AtmCallIv | Channel::Dte0AtmPutIv
            | Channel::Dte0AtmDeltaCall | Channel::Dte0AtmDeltaPut | Channel::Dte0AtmGamma
            | Channel::Dte0AtmVega => Statistic::Distribution,
            Channel::Dte0AtmSpreadCurve | Channel::Dte0AtmMidCurve | Channel::AtmCallSpreadCurve
            | Channel::AtmPutSpreadCurve | Channel::AtmCallMidCurve | Channel::AtmPutMidCurve
            | Channel::AtmTradeVolumeCurve | Channel::AtmTradeCountCurve
            | Channel::CallPremiumCurve | Channel::PutPremiumCurve
            | Channel::CallPremiumToSpreadCurve | Channel::PutPremiumToSpreadCurve
            | Channel::AllVolumeCurve | Channel::Dte0VolumeCurve | Channel::Dte0AtmIvCurve
            | Channel::CallVolumeCurve | Channel::PutVolumeCurve | Channel::Dte0CallVolumeCurve
            | Channel::Dte0PutVolumeCurve | Channel::EffectiveSpreadCurve
            | Channel::QuotedSpreadCurve => Statistic::Curve,
            _ => Statistic::Moments,
        }
    }

    /// The kind of statistic that the channel feeds.
    pub fn statistic(&self) -> (r: Statistic)
        ensures
            r == self.statistic_of(),
    {
        match self {
            Channel::SpreadUsd | Channel::SpreadPct | Channel::Dte0AtmSpreadUsd
            | Channel::Dte0AtmSpreadPct | Channel::AtmCallSpread | Channel::AtmPutSpread
            | Channel::AtmCallPremium | Channel::AtmPutPremium | Channel::AtmTradeSize
            | Channel::AtmBidAskImbalance | Channel::TradeSize | Channel::CallTradeSize
            | Channel::PutTradeSize | Channel::Dte0AtmCallIv | Channel::Dte0AtmPutIv
            | Channel::Dte0AtmDeltaCall | Channel::Dte0AtmDeltaPut | Channel::Dte0AtmGamma
            | Channel::Dte0AtmVega => Statistic::Distribution,
            Channel::Dte0AtmSpreadCurve | Channel::Dte0AtmMidCurve | Channel::AtmCallSpreadCurve
            | Channel::AtmPutSpreadCurve | Channel::AtmCallMidCurve | Channel::AtmPutMidCurve
            | Channel::AtmTradeVolumeCurve | Channel::AtmTradeCountCurve
            | Channel::CallPremiumCurve | Channel::PutPremiumCurve
            | Channel::CallPremiumToSpreadCurve | Channel::PutPremiumToSpreadCurve
            | Channel::AllVolumeCurve | Channel::Dte0VolumeCurve | Channel::Dte0AtmIvCurve
            | Channel::CallVolumeCurve | Channel::PutVolumeCurve | Channel::Dte0CallVolumeCurve
            | Channel::Dte0PutVolumeCurve | Channel::EffectiveSpreadCurve
            | Channel::QuotedSpreadCurve => Statistic::Curve,
            _ => Statistic::Moments,
        }
    }
}

/// An observed value.
#[derive(Debug, Clone, Copy, PartialEq, Eq, Structural)]
pub enum Sample {
    /// An exact number.
    Exact(Fraction),
    /// A floating-point number, by its IEEE 754 binary64 encoding.
    Binary64(u64),
}

/// A volatility to be solved for: the price of an option and what the price
/// depends on besides the volatility.
#[derive(Debug, Clone, Copy, PartialEq, Eq, Structural)]
pub struct IvProblem {
    /// Mid-price of the option in dollars.
    pub mid: Fraction,
    /// Underlying price in dollars.
    pub underlying_price: Fraction,
    /// Strike in thousandths of a dollar.
    pub strike: u64,
    /// Time to expiry in years.
    pub years: Fraction,
    /// Annual risk-free rate in billionths.
    pub risk_free_rate: i64,
    pub is_call: bool,
    pub dte: i64,
    pub ts_event: i64,
    pub utc_offset: i32,
}

/// The answer to an [`IvProblem`]: the implied volatility, where one was found,
/// and the Greeks at it, each by its IEEE 754 binary64 encoding.
#[derive(Debug, Clone, Copy, PartialEq, Eq, Structural)]
pub struct IvSolution {
    pub sigma: Option<u64>,
    pub delta: u64,
    pub gamma: u64,
    pub vega: u64,
}

/// What is to be done with the statistics.
#[derive(Debug, Clone, Copy, PartialEq, Eq, Structural)]
pub enum Effect {
    /// The value enters the statistic of the channel.
    Observe { channel: Channel, value: Sample },
    /// The value enters the minute of the timestamp in the channel's curve.
    Trace { channel: Channel, ts_event: i64, value: Sample, utc_offset: i32 },
    /// The volatility is to be solved for and handed back.
    SolveIv(IvProblem),
}

impl Effect {
    /// An exact value enters a statistic.
    pub open spec fn observed(channel: Channel, value: Fraction) -> Effect {
        Effect::Observe { channel, value: Sample::Exact(value) }
    }

    /// An exact value enters a curve.
    pub open spec fn traced(
        channel: Channel,
        ts_event: i64,
        value: Fraction,
        utc_offset: i32,
    ) -> Effect {
        Effect::Trace { channel, ts_event, value: Sample::Exact(value), utc_offset }
    }

    /// An exact value enters a statistic.
    pub fn observe(channel: Channel, value: Fraction) -> (r: Effect)
        ensures
            r == Self::observed(channel, value),
    {
        Effect::Observe { channel, value: Sample::Exact(value) }
    }

    /// An exact value enters a curve.
    pub fn trace(channel: Channel, ts_event: i64, value: Fraction, utc_offset: i32) -> (r: Effect)
        ensures
            r == Self::traced(channel, ts_event, value, utc_offset),
    {
        Effect::Trace { channel, ts_event, value: Sample::Exact(value), utc_offset }
    }
}

/// The observed value is the number `num / den`.
pub open spec fn amounts_to(value: Sample, num: int, den: int) -> bool {
    value matches Sample::Exact(f) && f.is_quotient(num, den)
}

/// An integer as a fraction.
pub open spec fn whole(n: nat) -> Fraction {
    Fraction { num: n as i128, den: 1 }
}

} // verus!
