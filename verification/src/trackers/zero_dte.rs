//! ZeroDteTracker: 0DTE ATM-focused analysis for strategy validation.
//!
//! Produces per-minute intraday curves for ATM 0DTE contracts:
//! - Spread (bid-ask) by minute
//! - Premium (option mid) by minute → theta decay curve
//! - Trade volume by minute
//! - Trade count by minute

use crate::event::{DayContext, OptionsEvent};
use crate::fraction::Fraction;
use crate::history::TrackerCall;
use crate::observation::{Channel, Effect, IvProblem, IvSolution};
use crate::report::{Row, Value};
use crate::{OptionsTracker, COUNTER_LIMIT};
use crate::session::DEFAULT_UTC_OFFSET;
use vstd::prelude::*;

verus! {

/// Events of contracts at the money that expire today.
pub struct ZeroDteTracker {
    reservoir_capacity: usize,
    utc_offset: i32,
    day_trade_count: u64,
    day_trade_volume: u64,
    day_0dte_atm_events: u64,
    n_days: u32,
    n_0dte_days: u32,
    total_0dte_atm_events: u64,
    total_0dte_atm_trades: u64,
}

/// The state of a [`ZeroDteTracker`].
pub struct ZeroDteState {
    pub reservoir_capacity: usize,
    pub utc_offset: i32,
    pub day_trade_count: nat,
    pub day_trade_volume: nat,
    pub day_0dte_atm_events: nat,
    pub n_days: nat,
    pub n_0dte_days: nat,
    pub total_0dte_atm_events: nat,
    pub total_0dte_atm_trades: nat,
}

impl ZeroDteState {
    /// Before the first event.
    pub open spec fn start(reservoir_capacity: usize) -> ZeroDteState {
        ZeroDteState {
            reservoir_capacity,
            utc_offset: DEFAULT_UTC_OFFSET,
            day_trade_count: 0,
            day_trade_volume: 0,
            day_0dte_atm_events: 0,
            n_days: 0,
            n_0dte_days: 0,
            total_0dte_atm_events: 0,
            total_0dte_atm_trades: 0,
        }
    }

    /// What the quote of an event contributes.
    pub open spec fn quote_effects(self, event: OptionsEvent<'_>) -> Seq<Effect> {
        let spread = event.spread_of()->0;
        let mid = event.mid_of()->0;
        let ts = event.ts_event;
        let size = event.bid_sz + event.ask_sz;
        if !event.valid_bbo() {
            Seq::empty()
        } else {
            (if size > 0 {
                seq![
                    Effect::observed(
                        Channel::AtmBidAskImbalance,
                        (Fraction { num: (event.bid_sz - event.ask_sz) as i128, den: size as u128 }),
                    ),
                ]
            } else {
                Seq::empty()
            }) + if event.call() {
                seq![
                    Effect::observed(Channel::AtmCallSpread, spread),
                    Effect::traced(Channel::AtmCallSpreadCurve, ts, spread, self.utc_offset),
                    Effect::observed(Channel::AtmCallPremium, mid),
                    Effect::traced(Channel::AtmCallMidCurve, ts, mid, self.utc_offset),
                ]
            } else {
                seq![
                    Effect::observed(Channel::AtmPutSpread, spread),
                    Effect::traced(Channel::AtmPutSpreadCurve, ts, spread, self.utc_offset),
                    Effect::observed(Channel::AtmPutPremium, mid),
                    Effect::traced(Channel::AtmPutMidCurve, ts, mid, self.utc_offset),
                ]
            }
        }
    }

    /// What the trade of an event contributes.
    pub open spec fn trade_effects(self, event: OptionsEvent<'_>) -> Seq<Effect> {
        let size = crate::observation::whole(event.trade_size as nat);
        let ts = event.ts_event;
        if event.trade() && event.trade_size > 0 {
            seq![
                Effect::observed(Channel::AtmTradeSize, size),
                Effect::traced(Channel::AtmTradeVolumeCurve, ts, size, self.utc_offset),
                Effect::traced(
                    Channel::AtmTradeCountCurve,
                    ts,
                    crate::observation::whole(1),
                    self.utc_offset,
                ),
            ]
        } else {
            Seq::empty()
        }
    }
}

impl View for ZeroDteTracker {
    type V = ZeroDteState;

    closed spec fn view(&self) -> ZeroDteState {
        ZeroDteState {
            reservoir_capacity: self.reservoir_capacity,
            utc_offset: self.utc_offset,
            day_trade_count: self.day_trade_count as nat,
            day_trade_volume: self.day_trade_volume as nat,
            day_0dte_atm_events: self.day_0dte_atm_events as nat,
            n_days: self.n_days as nat,
            n_0dte_days: self.n_0dte_days as nat,
            total_0dte_atm_events: self.total_0dte_atm_events as nat,
            total_0dte_atm_trades: self.total_0dte_atm_trades as nat,
        }
    }
}

impl ZeroDteTracker {
    /// A tracker that has seen nothing, whose distributions keep samples of
    /// `reservoir_capacity` values.
    pub fn new(reservoir_capacity: usize) -> (r: Self)
        ensures
            r@ == ZeroDteState::start(reservoir_capacity),
            Self::valid(r@),
    {
        ZeroDteTracker {
            reservoir_capacity,
            utc_offset: DEFAULT_UTC_OFFSET,
            day_trade_count: 0,
            day_trade_volume: 0,
            day_0dte_atm_events: 0,
            n_days: 0,
            n_0dte_days: 0,
            total_0dte_atm_events: 0,
            total_0dte_atm_trades: 0,
        }
    }

    /// The sample size of the distributions.
    pub fn reservoir_capacity(&self) -> (r: usize)
        ensures
            r == self@.reservoir_capacity,
    {
        self.reservoir_capacity
    }
}

impl OptionsTracker for ZeroDteTracker {
    /// Trades are events, what is counted for the day is in the total, and a
    /// day with events is a day.
    open spec fn valid(s: ZeroDteState) -> bool {
        &&& s.day_trade_count <= s.day_0dte_atm_events <= s.total_0dte_atm_events
        &&& s.day_trade_count <= s.total_0dte_atm_trades <= s.total_0dte_atm_events
        &&& s.day_trade_count <= s.day_trade_volume
        &&& s.n_0dte_days <= s.n_days
    }

    open spec fn room(s: ZeroDteState) -> bool {
        s.total_0dte_atm_events <= COUNTER_LIMIT && s.day_trade_volume <= COUNTER_LIMIT && s.n_days
            < u32::MAX
    }

    open spec fn begun(s: ZeroDteState, ctx: DayContext) -> ZeroDteState {
        ZeroDteState { utc_offset: ctx.utc_offset, ..s }
    }

    open spec fn after_event(s: ZeroDteState, event: OptionsEvent<'_>) -> ZeroDteState {
        if !event.zero_dte() || !event.atm() {
            s
        } else {
            let counted = ZeroDteState {
                total_0dte_atm_events: s.total_0dte_atm_events + 1,
                day_0dte_atm_events: s.day_0dte_atm_events + 1,
                ..s
            };
            if event.trade() && event.trade_size > 0 {
                ZeroDteState {
                    total_0dte_atm_trades: s.total_0dte_atm_trades + 1,
                    day_trade_count: s.day_trade_count + 1,
                    day_trade_volume: s.day_trade_volume + event.trade_size as nat,
                    ..counted
                }
            } else {
                counted
            }
        }
    }

    /// Nothing for contracts that are not at the money or do not expire today;
    /// for the others what the quote and what the trade contribute.
    open spec fn event_effects(s: ZeroDteState, event: OptionsEvent<'_>) -> Seq<Effect> {
        if !event.zero_dte() || !event.atm() {
            Seq::empty()
        } else {
            s.quote_effects(event) + s.trade_effects(event)
        }
    }

    open spec fn after_day(s: ZeroDteState) -> ZeroDteState {
        ZeroDteState {
            n_days: s.n_days + 1,
            n_0dte_days: if s.day_0dte_atm_events > 0 {
                s.n_0dte_days + 1
            } else {
                s.n_0dte_days
            },
            ..s
        }
    }

    open spec fn day_effects(s: ZeroDteState) -> Seq<Effect> {
        if s.day_0dte_atm_events > 0 {
            seq![
                Effect::observed(
                    Channel::TradesPer0dteDay,
                    crate::observation::whole(s.day_trade_count),
                ),
                Effect::observed(
                    Channel::VolumePer0dteDay,
                    crate::observation::whole(s.day_trade_volume),
                ),
            ]
        } else {
            Seq::empty()
        }
    }

    open spec fn after_reset(s: ZeroDteState) -> ZeroDteState {
        ZeroDteState { day_trade_count: 0, day_trade_volume: 0, day_0dte_atm_events: 0, ..s }
    }

    open spec fn pending(s: ZeroDteState) -> Seq<IvProblem> {
        Seq::empty()
    }

    open spec fn after_solution(
        s: ZeroDteState,
        problem: IvProblem,
        solution: IvSolution,
    ) -> ZeroDteState {
        s
    }

    open spec fn solution_effects(
        s: ZeroDteState,
        problem: IvProblem,
        solution: IvSolution,
    ) -> Seq<Effect> {
        Seq::empty()
    }

    open spec fn report(s: ZeroDteState) -> Seq<Row> {
        seq![
            Row::at("tracker", Value::Text("ZeroDteTracker")),
            Row::at("n_days", Value::Count(s.n_days as u64)),
            Row::at("n_0dte_days", Value::Count(s.n_0dte_days as u64)),
            Row::at("total_0dte_atm_events", Value::Count(s.total_0dte_atm_events as u64)),
            Row::at("total_0dte_atm_trades", Value::Count(s.total_0dte_atm_trades as u64)),
            Row::at("atm_call_spread", Value::Summary(Channel::AtmCallSpread)),
            Row::at("atm_put_spread", Value::Summary(Channel::AtmPutSpread)),
            Row::at("atm_call_premium", Value::Summary(Channel::AtmCallPremium)),
            Row::at("atm_put_premium", Value::Summary(Channel::AtmPutPremium)),
            Row::at("atm_trade_size", Value::Summary(Channel::AtmTradeSize)),
            Row::at("atm_bid_ask_imbalance", Value::Summary(Channel::AtmBidAskImbalance)),
            Row::at("trades_per_0dte_day", Value::MeanStdCount(Channel::TradesPer0dteDay)),
            Row::at("volume_per_0dte_day", Value::MeanStd(Channel::VolumePer0dteDay)),
            Row::curve_at("intraday_atm_call_spread", Channel::AtmCallSpreadCurve, "mean_spread"),
            Row::curve_at("intraday_atm_put_spread", Channel::AtmPutSpreadCurve, "mean_spread"),
            Row::curve_at("intraday_atm_call_premium", Channel::AtmCallMidCurve, "mean_premium"),
            Row::curve_at("intraday_atm_put_premium", Channel::AtmPutMidCurve, "mean_premium"),
            Row::curve_at("intraday_atm_trade_volume", Channel::AtmTradeVolumeCurve, "mean_volume"),
            Row::curve_at("intraday_atm_trade_count", Channel::AtmTradeCountCurve, "trade_count"),
        ]
    }

    open spec fn label() -> &'static str {
        "ZeroDteTracker"
    }

    fn has_room(&self) -> bool {
        self.total_0dte_atm_events <= COUNTER_LIMIT && self.day_trade_volume <= COUNTER_LIMIT
            && self.n_days < u32::MAX
    }

    fn begin_day(&mut self, ctx: &DayContext) {
        self.utc_offset = ctx.utc_offset;
    }

    fn process_event(&mut self, event: &OptionsEvent<'_>, regime: u8) -> Vec<Effect> {
        let ghost before = self@;
        let mut effects: Vec<Effect> = Vec::new();
        if !event.is_zero_dte() || !event.is_atm() {
            return effects;
        }
        self.total_0dte_atm_events = self.total_0dte_atm_events + 1;
        self.day_0dte_atm_events = self.day_0dte_atm_events + 1;
        let ts: i64 = event.ts_event;
        let is_call: bool = event.is_call();
        if event.has_valid_bbo() {
            let total_sz: u64 = event.bid_sz as u64 + event.ask_sz as u64;
            if total_sz > 0 {
                let imbalance = Fraction {
                    num: event.bid_sz as i128 - event.ask_sz as i128,
                    den: total_sz as u128,
                };
                effects.push(Effect::observe(Channel::AtmBidAskImbalance, imbalance));
            }
            if let Some(spread) = event.spread() {
                if is_call {
                    effects.push(Effect::observe(Channel::AtmCallSpread, spread));
                    effects.push(
                        Effect::trace(Channel::AtmCallSpreadCurve, ts, spread, self.utc_offset),
                    );
                } else {
                    effects.push(Effect::observe(Channel::AtmPutSpread, spread));
                    effects.push(
                        Effect::trace(Channel::AtmPutSpreadCurve, ts, spread, self.utc_offset),
                    );
                }
            }
            if let Some(mid) = event.option_mid() {
                if mid.num > 0 {
                    if is_call {
                        effects.push(Effect::observe(Channel::AtmCallPremium, mid));
                        effects.push(
                            Effect::trace(Channel::AtmCallMidCurve, ts, mid, self.utc_offset),
                        );
                    } else {
                        effects.push(Effect::observe(Channel::AtmPutPremium, mid));
                        effects.push(
                            Effect::trace(Channel::AtmPutMidCurve, ts, mid, self.utc_offset),
                        );
                    }
                }
            }
        }
        assert(effects@ =~= before.quote_effects(*event));
        if event.is_trade() && event.trade_size > 0 {
            self.total_0dte_atm_trades = self.total_0dte_atm_trades + 1;
            self.day_trade_count = self.day_trade_count + 1;
            self.day_trade_volume = self.day_trade_volume + event.trade_size as u64;
            let size: Fraction = Fraction::whole(event.trade_size as u64);
            effects.push(Effect::observe(Channel::AtmTradeSize, size));
            effects.push(Effect::trace(Channel::AtmTradeVolumeCurve, ts, size, self.utc_offset));
            effects.push(
                Effect::trace(
                    Channel::AtmTradeCountCurve,
                    ts,
                    Fraction::whole(1),
                    self.utc_offset,
                ),
            );
        }
        assert(effects@ =~= before.quote_effects(*event) + before.trade_effects(*event));
        effects
    }

    fn end_of_day(&mut self, day_index: u32) -> Vec<Effect> {
        let mut effects: Vec<Effect> = Vec::new();
        if self.day_0dte_atm_events > 0 {
            self.n_0dte_days = self.n_0dte_days + 1;
            effects.push(
                Effect::observe(Channel::TradesPer0dteDay, Fraction::whole(self.day_trade_count)),
            );
            effects.push(
                Effect::observe(Channel::VolumePer0dteDay, Fraction::whole(self.day_trade_volume)),
            );
        }
        self.n_days = self.n_days + 1;
        effects
    }

    fn reset_day(&mut self) {
        self.day_trade_count = 0;
        self.day_trade_volume = 0;
        self.day_0dte_atm_events = 0;
    }

    fn awaits_solution(&self, problem: &IvProblem) -> bool {
        false
    }

    fn resolve(&mut self, problem: &IvProblem, solution: &IvSolution) -> Vec<Effect> {
        Vec::new()
    }

    fn finalize(&self) -> Vec<Row> {
        vec![
            Row::top("tracker", Value::Text("ZeroDteTracker")),
            Row::top("n_days", Value::Count(self.n_days as u64)),
            Row::top("n_0dte_days", Value::Count(self.n_0dte_days as u64)),
            Row::top("total_0dte_atm_events", Value::Count(self.total_0dte_atm_events)),
            Row::top("total_0dte_atm_trades", Value::Count(self.total_0dte_atm_trades)),
            Row::top("atm_call_spread", Value::Summary(Channel::AtmCallSpread)),
            Row::top("atm_put_spread", Value::Summary(Channel::AtmPutSpread)),
            Row::top("atm_call_premium", Value::Summary(Channel::AtmCallPremium)),
            Row::top("atm_put_premium", Value::Summary(Channel::AtmPutPremium)),
            Row::top("atm_trade_size", Value::Summary(Channel::AtmTradeSize)),
            Row::top("atm_bid_ask_imbalance", Value::Summary(Channel::AtmBidAskImbalance)),
            Row::top("trades_per_0dte_day", Value::MeanStdCount(Channel::TradesPer0dteDay)),
            Row::top("volume_per_0dte_day", Value::MeanStd(Channel::VolumePer0dteDay)),
            Row::curve("intraday_atm_call_spread", Channel::AtmCallSpreadCurve, "mean_spread"),
            Row::curve("intraday_atm_put_spread", Channel::AtmPutSpreadCurve, "mean_spread"),
            Row::curve("intraday_atm_call_premium", Channel::AtmCallMidCurve, "mean_premium"),
            Row::curve("intraday_atm_put_premium", Channel::AtmPutMidCurve, "mean_premium"),
            Row::curve("intraday_atm_trade_volume", Channel::AtmTradeVolumeCurve, "mean_volume"),
            Row::curve("intraday_atm_trade_count", Channel::AtmTradeCountCurve, "trade_count"),
        ]
    }

    fn name(&self) -> &'static str {
        "ZeroDteTracker"
    }
}

/// The statistics that an event enters.
pub open spec fn feeds(channel: Channel, event: OptionsEvent<'_>) -> bool {
    event.zero_dte() && event.atm() && match channel {
        Channel::AtmTradeSize | Channel::AtmTradeVolumeCurve | Channel::AtmTradeCountCurve =>
            event.trade() && event.trade_size > 0,
        Channel::AtmCallSpread | Channel::AtmCallPremium | Channel::AtmCallSpreadCurve
        | Channel::AtmCallMidCurve => event.valid_bbo() && event.call(),
        Channel::AtmPutSpread | Channel::AtmPutPremium | Channel::AtmPutSpreadCurve
        | Channel::AtmPutMidCurve => event.valid_bbo() && !event.call(),
        Channel::AtmBidAskImbalance => event.valid_bbo() && event.bid_sz + event.ask_sz > 0,
        _ => false,
    }
}

/// The statistics that a day with events enters.
pub open spec fn daily(channel: Channel) -> bool {
    channel == Channel::TradesPer0dteDay || channel == Channel::VolumePer0dteDay
}

/// What the quote of an event adds to the observations.
proof fn lemma_quote_observations(s: ZeroDteState, e: OptionsEvent<'_>, channel: Channel)
    ensures
        crate::history::observations(s.quote_effects(e), channel) == (if e.valid_bbo()
            && match channel {
            Channel::AtmCallSpread | Channel::AtmCallPremium | Channel::AtmCallSpreadCurve
            | Channel::AtmCallMidCurve => e.call(),
            Channel::AtmPutSpread | Channel::AtmPutPremium | Channel::AtmPutSpreadCurve
            | Channel::AtmPutMidCurve => !e.call(),
            Channel::AtmBidAskImbalance => e.bid_sz + e.ask_sz > 0,
            _ => false,
        } {
            1nat
        } else {
            0
        }),
{
    reveal_with_fuel(crate::history::observed_first, 6);
}

/// What the trade of an event adds to the observations.
proof fn lemma_trade_observations(s: ZeroDteState, e: OptionsEvent<'_>, channel: Channel)
    ensures
        crate::history::observations(s.trade_effects(e), channel) == (if e.trade() && e.trade_size
            > 0 && (channel == Channel::AtmTradeSize || channel == Channel::AtmTradeVolumeCurve
            || channel == Channel::AtmTradeCountCurve) {
            1nat
        } else {
            0
        }),
{
    reveal_with_fuel(crate::history::observed_first, 4);
}

/// Over any history, the totals are the numbers of events and of trades at the
/// money that expire on their day.
pub proof fn law_zero_dte_counts_its_history<'a>(s: ZeroDteState, calls: Seq<TrackerCall<'a>>)
    ensures
        ({
            let after = crate::history::after_history::<ZeroDteTracker>(s, calls);
            &&& after.total_0dte_atm_events == s.total_0dte_atm_events
                + crate::history::count_events(
                calls,
                |e: OptionsEvent<'a>| e.zero_dte() && e.atm(),
            )
            &&& after.total_0dte_atm_trades == s.total_0dte_atm_trades
                + crate::history::count_events(
                calls,
                |e: OptionsEvent<'a>| e.zero_dte() && e.atm() && e.trade() && e.trade_size > 0,
            )
            &&& after.n_days == s.n_days + crate::history::count_days(calls)
        }),
    decreases calls.len(),
{
    if calls.len() > 0 {
        law_zero_dte_counts_its_history(s, calls.drop_last());
    }
}

/// An event is observed once in each statistic that it feeds.
proof fn lemma_event_observations(s: ZeroDteState, e: OptionsEvent<'_>, channel: Channel)
    ensures
        crate::history::observations(ZeroDteTracker::event_effects(s, e), channel)
            == crate::history::one_if(feeds(channel, e)),
{
    lemma_quote_observations(s, e, channel);
    lemma_trade_observations(s, e, channel);
    crate::history::lemma_observations_add(s.quote_effects(e), s.trade_effects(e), channel);
    crate::history::lemma_no_observations(channel);
}

/// What the end of a day adds to the observations.
proof fn lemma_day_observations(s: ZeroDteState, channel: Channel)
    ensures
        crate::history::observations(ZeroDteTracker::day_effects(s), channel)
            == crate::history::one_if(s.day_0dte_atm_events > 0 && daily(channel)),
{
    reveal_with_fuel(crate::history::observed_first, 3);
}

/// Over any history, each statistic has one observation for every event that
/// belongs to it, and each daily one has one for every day that had events.
pub proof fn law_zero_dte_events_are_observed<'a>(
    s: ZeroDteState,
    calls: Seq<TrackerCall<'a>>,
    channel: Channel,
)
    ensures
        ({
            let after = crate::history::after_history::<ZeroDteTracker>(s, calls);
            let effects = crate::history::history_effects::<ZeroDteTracker>(s, calls);
            let events = crate::history::count_events(
                calls,
                |e: OptionsEvent<'a>| feeds(channel, e),
            );
            crate::history::observations(effects, channel) == events + (if daily(channel) {
                after.n_0dte_days - s.n_0dte_days
            } else {
                0
            })
        }),
    decreases calls.len(),
{
    if calls.len() == 0 {
        crate::history::lemma_no_observations(channel);
    } else {
        let rest = crate::history::after_history::<ZeroDteTracker>(s, calls.drop_last());
        law_zero_dte_events_are_observed(s, calls.drop_last(), channel);
        crate::history::lemma_last_call::<ZeroDteTracker>(s, calls, channel);
        match calls.last() {
            TrackerCall::Event(event) => lemma_event_observations(rest, event, channel),
            TrackerCall::End => lemma_day_observations(rest, channel),
            _ => {},
        }
    }
}

/// What the quote of a contract at the money that expires on its day
/// contributes, where the ask is above a positive bid: the difference of the
/// sizes over their sum, where there are any, and the spread and the mid-price in
/// dollars, to the distribution and to the curve of calls or of puts.
pub proof fn law_zero_dte_quote_by_its_fields(s: ZeroDteState, e: OptionsEvent<'_>)
    ensures
        ({
            let effects = ZeroDteTracker::event_effects(s, e);
            let own = e.dte == 0 && e.moneyness
                == crate::options_math::moneyness::Moneyness::Atm;
            let quoted = own && e.bid_px is Some && e.ask_px is Some && 0 < e.bid_px->0
                < e.ask_px->0;
            let (sum, gap) = (e.bid_px->0 + e.ask_px->0, e.ask_px->0 - e.bid_px->0);
            let lots = e.bid_sz + e.ask_sz;
            let call = e.contract.contract_type == crate::contract::ContractType::Call;
            let put = e.contract.contract_type == crate::contract::ContractType::Put;
            let (ts, at) = (e.ts_event, s.utc_offset);
            let dollar = 1_000_000_000int;
            &&& crate::history::observes(
                effects,
                Channel::AtmBidAskImbalance,
                quoted && lots > 0,
                e.bid_sz - e.ask_sz,
                lots,
            )
            &&& crate::history::observes(
                effects,
                Channel::AtmCallSpread,
                quoted && call,
                gap,
                dollar,
            )
            &&& crate::history::observes(
                effects,
                Channel::AtmPutSpread,
                quoted && put,
                gap,
                dollar,
            )
            &&& crate::history::traces(
                effects,
                Channel::AtmCallSpreadCurve,
                quoted && call,
                ts,
                at,
                gap,
                dollar,
            )
            &&& crate::history::traces(
                effects,
                Channel::AtmPutSpreadCurve,
                quoted && put,
                ts,
                at,
                gap,
                dollar,
            )
            &&& crate::history::observes(
                effects,
                Channel::AtmCallPremium,
                quoted && call,
                sum,
                2 * dollar,
            )
            &&& crate::history::observes(
                effects,
                Channel::AtmPutPremium,
                quoted && put,
                sum,
                2 * dollar,
            )
            &&& crate::history::traces(
                effects,
                Channel::AtmCallMidCurve,
                quoted && call,
                ts,
                at,
                sum,
                2 * dollar,
            )
            &&& crate::history::traces(
                effects,
                Channel::AtmPutMidCurve,
                quoted && put,
                ts,
                at,
                sum,
                2 * dollar,
            )
        }),
{
    crate::event::law_accessors_by_the_prices(e);
    lemma_event_observations(s, e, Channel::AtmBidAskImbalance);
    lemma_event_observations(s, e, Channel::AtmCallSpread);
    lemma_event_observations(s, e, Channel::AtmPutSpread);
    lemma_event_observations(s, e, Channel::AtmCallSpreadCurve);
    lemma_event_observations(s, e, Channel::AtmPutSpreadCurve);
    lemma_event_observations(s, e, Channel::AtmCallPremium);
    lemma_event_observations(s, e, Channel::AtmPutPremium);
    lemma_event_observations(s, e, Channel::AtmCallMidCurve);
    lemma_event_observations(s, e, Channel::AtmPutMidCurve);
}

/// What a trade of a contract at the money that expires on its day contributes:
/// its size, to the distribution and to the curve, and one to the curve of the
/// number of trades.
pub proof fn law_zero_dte_trade_by_its_fields(s: ZeroDteState, e: OptionsEvent<'_>)
    ensures
        ({
            let effects = ZeroDteTracker::event_effects(s, e);
            let own = e.dte == 0 && e.moneyness
                == crate::options_math::moneyness::Moneyness::Atm;
            let traded = own && e.action == crate::event::Action::Trade && e.trade_size > 0;
            let size = e.trade_size as int;
            let (ts, at) = (e.ts_event, s.utc_offset);
            &&& crate::history::observes(
                effects,
                Channel::AtmTradeSize,
                traded,
                size,
                1,
            )
            &&& crate::history::traces(
                effects,
                Channel::AtmTradeVolumeCurve,
                traded,
                ts,
                at,
                size,
                1,
            )
            &&& crate::history::traces(
                effects,
                Channel::AtmTradeCountCurve,
                traded,
                ts,
                at,
                1,
                1,
            )
        }),
{
    lemma_event_observations(s, e, Channel::AtmTradeSize);
    lemma_event_observations(s, e, Channel::AtmTradeVolumeCurve);
    lemma_event_observations(s, e, Channel::AtmTradeCountCurve);
}

/// A contract at the money that expires on its day, by the event's fields.
pub open spec fn own_event(e: OptionsEvent<'_>) -> bool {
    e.dte == 0 && e.moneyness == crate::options_math::moneyness::Moneyness::Atm
}

/// The day's figures over the calls since the last reset.
proof fn lemma_day_of_own_trades<'a>(s: ZeroDteState, calls: Seq<TrackerCall<'a>>)
    requires
        crate::history::within_a_day(calls),
    ensures
        ({
            let after = crate::history::after_history::<ZeroDteTracker>(
                ZeroDteTracker::after_reset(s),
                calls,
            );
            let traded = |e: OptionsEvent<'a>|
                own_event(e) && e.action == crate::event::Action::Trade && e.trade_size > 0;
            &&& after.day_trade_volume == crate::history::sum_sizes(calls, traded)
            &&& after.day_trade_count == crate::history::count_events(calls, traded)
            &&& after.day_0dte_atm_events == crate::history::count_events(
                calls,
                |e: OptionsEvent<'a>| own_event(e),
            )
            &&& after.n_0dte_days == s.n_0dte_days + crate::history::count_days_with::<
                ZeroDteTracker,
            >(
                ZeroDteTracker::after_reset(s),
                calls,
                |t: ZeroDteState| t.day_0dte_atm_events > 0,
            )
        }),
    decreases calls.len(),
{
    if calls.len() > 0 {
        crate::history::lemma_within_a_day(calls);
        lemma_day_of_own_trades(s, calls.drop_last());
    }
}

/// At its end a day contributes the contracts traded since the last reset that
/// were at the money and expire on it, and the number of those trades, if it had
/// any event of such a contract; and such a day is counted.
pub proof fn law_zero_dte_day_is_the_trades_since_the_reset<'a>(
    s: ZeroDteState,
    calls: Seq<TrackerCall<'a>>,
)
    requires
        crate::history::within_a_day(calls),
        crate::history::sum_sizes(
            calls,
            |e: OptionsEvent<'a>|
                own_event(e) && e.action == crate::event::Action::Trade && e.trade_size > 0,
        ) <= u64::MAX,
        crate::history::count_events(
            calls,
            |e: OptionsEvent<'a>|
                own_event(e) && e.action == crate::event::Action::Trade && e.trade_size > 0,
        ) <= u64::MAX,
    ensures
        ({
            let after = crate::history::after_history::<ZeroDteTracker>(
                ZeroDteTracker::after_reset(s),
                calls,
            );
            let effects = ZeroDteTracker::day_effects(after);
            let traded = |e: OptionsEvent<'a>|
                own_event(e) && e.action == crate::event::Action::Trade && e.trade_size > 0;
            let any = crate::history::count_events(
                calls,
                |e: OptionsEvent<'a>| own_event(e),
            ) > 0;
            &&& crate::history::observes(
                effects,
                Channel::VolumePer0dteDay,
                any,
                crate::history::sum_sizes(calls, traded) as int,
                1,
            )
            &&& crate::history::observes(
                effects,
                Channel::TradesPer0dteDay,
                any,
                crate::history::count_events(calls, traded) as int,
                1,
            )
            &&& ZeroDteTracker::after_day(after).n_0dte_days == after.n_0dte_days
                + crate::history::one_if(any)
        }),
{
    let after = crate::history::after_history::<ZeroDteTracker>(
        ZeroDteTracker::after_reset(s),
        calls,
    );
    lemma_day_of_own_trades(s, calls);
    lemma_day_observations(after, Channel::VolumePer0dteDay);
    lemma_day_observations(after, Channel::TradesPer0dteDay);
}

/// Over any history, points are traced under the UTC offset of the last day that
/// began.
pub proof fn law_zero_dte_offset_is_that_of_the_day(s: ZeroDteState, calls: Seq<TrackerCall<'_>>)
    ensures
        crate::history::after_history::<ZeroDteTracker>(s, calls).utc_offset
            == crate::history::offset_after(s.utc_offset, calls),
    decreases calls.len(),
{
    if calls.len() > 0 {
        law_zero_dte_offset_is_that_of_the_day(s, calls.drop_last());
    }
}

/// What a tracker reports after any history from its start: the numbers of days,
/// of events and of trades, and the statistics under their names.
pub proof fn law_zero_dte_report_is_that_of_the_history<'a>(
    reservoir_capacity: usize,
    calls: Seq<TrackerCall<'a>>,
)
    ensures
        ({
            let s = crate::history::after_history::<ZeroDteTracker>(
                ZeroDteState::start(reservoir_capacity),
                calls,
            );
            let rows = ZeroDteTracker::report(s);
            let days = crate::history::count_days(calls);
            let events = crate::history::count_events(
                calls,
                |e: OptionsEvent<'a>| e.zero_dte() && e.atm(),
            );
            let trades = crate::history::count_events(
                calls,
                |e: OptionsEvent<'a>| e.zero_dte() && e.atm() && e.trade() && e.trade_size > 0,
            );
            let own_days = crate::history::count_days_with::<ZeroDteTracker>(
                ZeroDteState::start(reservoir_capacity),
                calls,
                |t: ZeroDteState| t.day_0dte_atm_events > 0,
            );
            &&& rows.len() == 19
            &&& rows[0] == Row::at("tracker", Value::Text("ZeroDteTracker"))
            &&& rows[1] == Row::at("n_days", Value::Count(days as u64))
            &&& rows[2] == Row::at("n_0dte_days", Value::Count(own_days as u64))
            &&& rows[3] == Row::at("total_0dte_atm_events", Value::Count(events as u64))
            &&& rows[4] == Row::at("total_0dte_atm_trades", Value::Count(trades as u64))
            &&& rows[5] == Row::at("atm_call_spread", Value::Summary(Channel::AtmCallSpread))
            &&& rows[6] == Row::at("atm_put_spread", Value::Summary(Channel::AtmPutSpread))
            &&& rows[7] == Row::at("atm_call_premium", Value::Summary(Channel::AtmCallPremium))
            &&& rows[8] == Row::at("atm_put_premium", Value::Summary(Channel::AtmPutPremium))
            &&& rows[9] == Row::at("atm_trade_size", Value::Summary(Channel::AtmTradeSize))
            &&& rows[10] == Row::at(
                "atm_bid_ask_imbalance",
                Value::Summary(Channel::AtmBidAskImbalance),
            )
            &&& rows[11] == Row::at(
                "trades_per_0dte_day",
                Value::MeanStdCount(Channel::TradesPer0dteDay),
            )
            &&& rows[12] == Row::at(
                "volume_per_0dte_day",
                Value::MeanStd(Channel::VolumePer0dteDay),
            )
            &&& rows[13] == Row::curve_at(
                "intraday_atm_call_spread",
                Channel::AtmCallSpreadCurve,
                "mean_spread",
            )
            &&& rows[14] == Row::curve_at(
                "intraday_atm_put_spread",
                Channel::AtmPutSpreadCurve,
                "mean_spread",
            )
            &&& rows[15] == Row::curve_at(
                "intraday_atm_call_premium",
                Channel::AtmCallMidCurve,
                "mean_premium",
            )
            &&& rows[16] == Row::curve_at(
                "intraday_atm_put_premium",
                Channel::AtmPutMidCurve,
                "mean_premium",
            )
            &&& rows[17] == Row::curve_at(
                "intraday_atm_trade_volume",
                Channel::AtmTradeVolumeCurve,
                "mean_volume",
            )
            &&& rows[18] == Row::curve_at(
                "intraday_atm_trade_count",
                Channel::AtmTradeCountCurve,
                "trade_count",
            )
        }),
{
    law_zero_dte_counts_its_history(ZeroDteState::start(reservoir_capacity), calls);
    lemma_own_days(ZeroDteState::start(reservoir_capacity), calls);
}

/// The days that are counted are those that had an event of their own.
proof fn lemma_own_days(s: ZeroDteState, calls: Seq<TrackerCall<'_>>)
    ensures
        crate::history::after_history::<ZeroDteTracker>(s, calls).n_0dte_days == s.n_0dte_days
            + crate::history::count_days_with::<ZeroDteTracker>(
            s,
            calls,
            |t: ZeroDteState| t.day_0dte_atm_events > 0,
        ),
    decreases calls.len(),
{
    if calls.len() > 0 {
        lemma_own_days(s, calls.drop_last());
    }
}

} // verus!
