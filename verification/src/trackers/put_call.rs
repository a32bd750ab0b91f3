//! PutCallRatioTracker: put-call volume and quote activity ratios.

use crate::event::{DayContext, OptionsEvent};
use crate::fraction::Fraction;
use crate::history::TrackerCall;
use crate::observation::{Channel, Effect, IvProblem, IvSolution};
use crate::report::{Row, Value};
use crate::session::DEFAULT_UTC_OFFSET;
use crate::{OptionsTracker, COUNTER_LIMIT};
use vstd::prelude::*;

verus! {

/// Call and put trades of the day.
pub struct PutCallRatioTracker {
    utc_offset: i32,
    day_call_vol: u64,
    day_put_vol: u64,
    day_call_trades: u64,
    day_put_trades: u64,
    day_0dte_call_vol: u64,
    day_0dte_put_vol: u64,
    n_days: u32,
}

/// The trades of one kind of contract on a day.
pub struct SideTotals {
    pub volume: nat,
    pub trades: nat,
    pub dte0_volume: nat,
}

impl SideTotals {
    /// No trade yet.
    pub open spec fn zero() -> SideTotals {
        SideTotals { volume: 0, trades: 0, dte0_volume: 0 }
    }

    /// Every trade has a volume, and what expires today is part of it.
    pub open spec fn valid(self) -> bool {
        self.trades <= self.volume && self.dte0_volume <= self.volume
    }

    /// The totals with one more trade.
    pub open spec fn with(self, size: nat, zero_dte: bool) -> SideTotals {
        SideTotals {
            volume: self.volume + size,
            trades: self.trades + 1,
            dte0_volume: if zero_dte {
                self.dte0_volume + size
            } else {
                self.dte0_volume
            },
        }
    }
}

/// The state of a [`PutCallRatioTracker`].
pub struct PutCallState {
    pub utc_offset: i32,
    pub call: SideTotals,
    pub put: SideTotals,
    pub n_days: nat,
}

impl PutCallState {
    /// Before the first trade.
    pub open spec fn start() -> PutCallState {
        PutCallState {
            utc_offset: DEFAULT_UTC_OFFSET,
            call: SideTotals::zero(),
            put: SideTotals::zero(),
            n_days: 0,
        }
    }
}

/// The ratio of puts to calls enters a statistic where there are calls.
pub open spec fn ratio_effects(channel: Channel, puts: nat, calls: nat) -> Seq<Effect> {
    if calls > 0 {
        seq![Effect::observed(channel, (Fraction { num: puts as i128, den: calls as u128 }))]
    } else {
        Seq::empty()
    }
}

impl View for PutCallRatioTracker {
    type V = PutCallState;

    closed spec fn view(&self) -> PutCallState {
        PutCallState {
            utc_offset: self.utc_offset,
            call: SideTotals {
                volume: self.day_call_vol as nat,
                trades: self.day_call_trades as nat,
                dte0_volume: self.day_0dte_call_vol as nat,
            },
            put: SideTotals {
                volume: self.day_put_vol as nat,
                trades: self.day_put_trades as nat,
                dte0_volume: self.day_0dte_put_vol as nat,
            },
            n_days: self.n_days as nat,
        }
    }
}

impl Default for PutCallRatioTracker {
    fn default() -> (r: Self)
        ensures
            r@ == PutCallState::start(),
            Self::valid(r@),
    {
        Self::new()
    }
}

impl PutCallRatioTracker {
    /// A tracker that has seen nothing.
    pub fn new() -> (r: Self)
        ensures
            r@ == PutCallState::start(),
            Self::valid(r@),
    {
        PutCallRatioTracker {
            utc_offset: DEFAULT_UTC_OFFSET,
            day_call_vol: 0,
            day_put_vol: 0,
            day_call_trades: 0,
            day_put_trades: 0,
            day_0dte_call_vol: 0,
            day_0dte_put_vol: 0,
            n_days: 0,
        }
    }
}

impl OptionsTracker for PutCallRatioTracker {
    open spec fn valid(s: PutCallState) -> bool {
        s.call.valid() && s.put.valid()
    }

    open spec fn room(s: PutCallState) -> bool {
        s.call.volume <= COUNTER_LIMIT && s.put.volume <= COUNTER_LIMIT && s.n_days < u32::MAX
    }

    open spec fn begun(s: PutCallState, ctx: DayContext) -> PutCallState {
        PutCallState { utc_offset: ctx.utc_offset, ..s }
    }

    open spec fn after_event(s: PutCallState, event: OptionsEvent<'_>) -> PutCallState {
        if !event.trade() || event.trade_size == 0 {
            s
        } else if event.call() {
            PutCallState {
                call: s.call.with(event.trade_size as nat, event.zero_dte()),
                ..s
            }
        } else {
            PutCallState { put: s.put.with(event.trade_size as nat, event.zero_dte()), ..s }
        }
    }

    /// The size of a trade enters the curve of its kind and, if it expires
    /// today, that of those.
    open spec fn event_effects(s: PutCallState, event: OptionsEvent<'_>) -> Seq<Effect> {
        let vol = crate::observation::whole(event.trade_size as nat);
        let ts = event.ts_event;
        if !event.trade() || event.trade_size == 0 {
            Seq::empty()
        } else if event.call() {
            seq![Effect::traced(Channel::CallVolumeCurve, ts, vol, s.utc_offset)]
                + if event.zero_dte() {
                seq![Effect::traced(Channel::Dte0CallVolumeCurve, ts, vol, s.utc_offset)]
            } else {
                Seq::empty()
            }
        } else {
            seq![Effect::traced(Channel::PutVolumeCurve, ts, vol, s.utc_offset)]
                + if event.zero_dte() {
                seq![Effect::traced(Channel::Dte0PutVolumeCurve, ts, vol, s.utc_offset)]
            } else {
                Seq::empty()
            }
        }
    }

    open spec fn after_day(s: PutCallState) -> PutCallState {
        PutCallState { n_days: s.n_days + 1, ..s }
    }

    open spec fn day_effects(s: PutCallState) -> Seq<Effect> {
        ratio_effects(Channel::PcrVolumeDaily, s.put.volume, s.call.volume) + ratio_effects(
            Channel::PcrTradesDaily,
            s.put.trades,
            s.call.trades,
        ) + ratio_effects(Channel::Pcr0dteDaily, s.put.dte0_volume, s.call.dte0_volume)
    }

    open spec fn after_reset(s: PutCallState) -> PutCallState {
        PutCallState { call: SideTotals::zero(), put: SideTotals::zero(), ..s }
    }

    open spec fn pending(s: PutCallState) -> Seq<IvProblem> {
        Seq::empty()
    }

    open spec fn after_solution(
        s: PutCallState,
        problem: IvProblem,
        solution: IvSolution,
    ) -> PutCallState {
        s
    }

    open spec fn solution_effects(
        s: PutCallState,
        problem: IvProblem,
        solution: IvSolution,
    ) -> Seq<Effect> {
        Seq::empty()
    }

    open spec fn report(s: PutCallState) -> Seq<Row> {
        seq![
            Row::at("tracker", Value::Text("PutCallRatioTracker")),
            Row::at("n_days", Value::Count(s.n_days as u64)),
            Row::at("pcr_volume_daily", Value::MeanStdCount(Channel::PcrVolumeDaily)),
            Row::at("pcr_trades_daily", Value::MeanStd(Channel::PcrTradesDaily)),
            Row::at("pcr_0dte_daily", Value::MeanStdCount(Channel::Pcr0dteDaily)),
            Row::bare_curve_at("intraday_call_volume", Channel::CallVolumeCurve, "mean_volume"),
            Row::bare_curve_at("intraday_put_volume", Channel::PutVolumeCurve, "mean_volume"),
            Row::bare_curve_at(
                "intraday_0dte_call_volume",
                Channel::Dte0CallVolumeCurve,
                "mean_volume",
            ),
            Row::bare_curve_at(
                "intraday_0dte_put_volume",
                Channel::Dte0PutVolumeCurve,
                "mean_volume",
            ),
        ]
    }

    open spec fn label() -> &'static str {
        "PutCallRatioTracker"
    }

    fn has_room(&self) -> bool {
        self.day_call_vol <= COUNTER_LIMIT && self.day_put_vol <= COUNTER_LIMIT && self.n_days
            < u32::MAX
    }

    fn begin_day(&mut self, ctx: &DayContext) {
        self.utc_offset = ctx.utc_offset;
    }

    fn process_event(&mut self, event: &OptionsEvent<'_>, regime: u8) -> Vec<Effect> {
        let mut effects: Vec<Effect> = Vec::new();
        if !event.is_trade() || event.trade_size == 0 {
            return effects;
        }
        let size: u64 = event.trade_size as u64;
        let vol: Fraction = Fraction::whole(size);
        let ts: i64 = event.ts_event;
        if event.is_call() {
            self.day_call_vol = self.day_call_vol + size;
            self.day_call_trades = self.day_call_trades + 1;
            effects.push(Effect::trace(Channel::CallVolumeCurve, ts, vol, self.utc_offset));
            if event.is_zero_dte() {
                self.day_0dte_call_vol = self.day_0dte_call_vol + size;
                effects.push(
                    Effect::trace(Channel::Dte0CallVolumeCurve, ts, vol, self.utc_offset),
                );
            }
        } else {
            self.day_put_vol = self.day_put_vol + size;
            self.day_put_trades = self.day_put_trades + 1;
            effects.push(Effect::trace(Channel::PutVolumeCurve, ts, vol, self.utc_offset));
            if event.is_zero_dte() {
                self.day_0dte_put_vol = self.day_0dte_put_vol + size;
                effects.push(Effect::trace(Channel::Dte0PutVolumeCurve, ts, vol, self.utc_offset));
            }
        }
        assert(effects@ =~= Self::event_effects(old(self)@, *event));
        effects
    }

    fn end_of_day(&mut self, day_index: u32) -> Vec<Effect> {
        let mut effects: Vec<Effect> = Vec::new();
        if self.day_call_vol > 0 {
            effects.push(
                Effect::observe(
                    Channel::PcrVolumeDaily,
                    Fraction { num: self.day_put_vol as i128, den: self.day_call_vol as u128 },
                ),
            );
        }
        if self.day_call_trades > 0 {
            effects.push(
                Effect::observe(
                    Channel::PcrTradesDaily,
                    Fraction {
                        num: self.day_put_trades as i128,
                        den: self.day_call_trades as u128,
                    },
                ),
            );
        }
        if self.day_0dte_call_vol > 0 {
            effects.push(
                Effect::observe(
                    Channel::Pcr0dteDaily,
                    Fraction {
                        num: self.day_0dte_put_vol as i128,
                        den: self.day_0dte_call_vol as u128,
                    },
                ),
            );
        }
        self.n_days = self.n_days + 1;
        assert(effects@ =~= Self::day_effects(old(self)@));
        effects
    }

    fn reset_day(&mut self) {
        self.day_call_vol = 0;
        self.day_put_vol = 0;
        self.day_call_trades = 0;
        self.day_put_trades = 0;
        self.day_0dte_call_vol = 0;
        self.day_0dte_put_vol = 0;
    }

    fn awaits_solution(&self, problem: &IvProblem) -> bool {
        false
    }

    fn resolve(&mut self, problem: &IvProblem, solution: &IvSolution) -> Vec<Effect> {
        Vec::new()
    }

    fn finalize(&self) -> Vec<Row> {
        vec![
            Row::top("tracker", Value::Text("PutCallRatioTracker")),
            Row::top("n_days", Value::Count(self.n_days as u64)),
            Row::top("pcr_volume_daily", Value::MeanStdCount(Channel::PcrVolumeDaily)),
            Row::top("pcr_trades_daily", Value::MeanStd(Channel::PcrTradesDaily)),
            Row::top("pcr_0dte_daily", Value::MeanStdCount(Channel::Pcr0dteDaily)),
            Row::bare_curve("intraday_call_volume", Channel::CallVolumeCurve, "mean_volume"),
            Row::bare_curve("intraday_put_volume", Channel::PutVolumeCurve, "mean_volume"),
            Row::bare_curve(
                "intraday_0dte_call_volume",
                Channel::Dte0CallVolumeCurve,
                "mean_volume",
            ),
            Row::bare_curve("intraday_0dte_put_volume", Channel::Dte0PutVolumeCurve, "mean_volume"),
        ]
    }

    fn name(&self) -> &'static str {
        "PutCallRatioTracker"
    }
}

/// The statistics that an event enters.
pub open spec fn feeds(channel: Channel, event: OptionsEvent<'_>) -> bool {
    event.trade() && event.trade_size > 0 && match channel {
        Channel::CallVolumeCurve => event.call(),
        Channel::PutVolumeCurve => !event.call(),
        Channel::Dte0CallVolumeCurve => event.call() && event.zero_dte(),
        Channel::Dte0PutVolumeCurve => !event.call() && event.zero_dte(),
        _ => false,
    }
}

/// The statistics that a day enters: a ratio needs calls.
pub open spec fn daily(s: PutCallState, channel: Channel) -> bool {
    match channel {
        Channel::PcrVolumeDaily => s.call.volume > 0,
        Channel::PcrTradesDaily => s.call.trades > 0,
        Channel::Pcr0dteDaily => s.call.dte0_volume > 0,
        _ => false,
    }
}

/// An event is observed once in each statistic that it feeds.
proof fn lemma_event_observations(s: PutCallState, e: OptionsEvent<'_>, channel: Channel)
    ensures
        crate::history::observations(PutCallRatioTracker::event_effects(s, e), channel)
            == crate::history::one_if(feeds(channel, e)),
{
    reveal_with_fuel(crate::history::observed_first, 3);
}

/// What the end of a day adds to the observations.
proof fn lemma_day_observations(s: PutCallState, channel: Channel)
    ensures
        crate::history::observations(PutCallRatioTracker::day_effects(s), channel)
            == crate::history::one_if(daily(s, channel)),
{
    reveal_with_fuel(crate::history::observed_first, 4);
}

/// Over any history, each curve has one observation for every trade that belongs
/// to it, and each ratio has one for every day on which it is defined.
pub proof fn law_call_and_put_trades_are_observed<'a>(
    s: PutCallState,
    calls: Seq<TrackerCall<'a>>,
    channel: Channel,
)
    ensures
        ({
            let after = crate::history::after_history::<PutCallRatioTracker>(s, calls);
            let effects = crate::history::history_effects::<PutCallRatioTracker>(s, calls);
            let events = crate::history::count_events(
                calls,
                |e: OptionsEvent<'a>| feeds(channel, e),
            );
            let days = crate::history::count_days_with::<PutCallRatioTracker>(
                s,
                calls,
                |t: PutCallState| daily(t, channel),
            );
            &&& crate::history::observations(effects, channel) == events + days
            &&& after.n_days == s.n_days + crate::history::count_days(calls)
        }),
    decreases calls.len(),
{
    if calls.len() == 0 {
        crate::history::lemma_no_observations(channel);
    } else {
        let rest = crate::history::after_history::<PutCallRatioTracker>(s, calls.drop_last());
        law_call_and_put_trades_are_observed(s, calls.drop_last(), channel);
        crate::history::lemma_last_call::<PutCallRatioTracker>(s, calls, channel);
        match calls.last() {
            TrackerCall::Event(event) => lemma_event_observations(rest, event, channel),
            TrackerCall::End => lemma_day_observations(rest, channel),
            _ => {},
        }
    }
}

/// What an event contributes, by its fields: the size of a trade that has one at
/// its time to the curve of calls or of puts, and once more if it expires on its
/// day.
pub proof fn law_call_and_put_sizes_of_a_trade(s: PutCallState, e: OptionsEvent<'_>)
    ensures
        ({
            let effects = PutCallRatioTracker::event_effects(s, e);
            let traded = e.action == crate::event::Action::Trade && e.trade_size > 0;
            let call = e.contract.contract_type == crate::contract::ContractType::Call;
            let put = e.contract.contract_type == crate::contract::ContractType::Put;
            let size = e.trade_size as int;
            let (ts, at) = (e.ts_event, s.utc_offset);
            &&& crate::history::traces(
                effects,
                Channel::CallVolumeCurve,
                traded && call,
                ts,
                at,
                size,
                1,
            )
            &&& crate::history::traces(
                effects,
                Channel::PutVolumeCurve,
                traded && put,
                ts,
                at,
                size,
                1,
            )
            &&& crate::history::traces(
                effects,
                Channel::Dte0CallVolumeCurve,
                traded && call && e.dte == 0,
                ts,
                at,
                size,
                1,
            )
            &&& crate::history::traces(
                effects,
                Channel::Dte0PutVolumeCurve,
                traded && put && e.dte == 0,
                ts,
                at,
                size,
                1,
            )
        }),
{
    lemma_event_observations(s, e, Channel::CallVolumeCurve);
    lemma_event_observations(s, e, Channel::PutVolumeCurve);
    lemma_event_observations(s, e, Channel::Dte0CallVolumeCurve);
    lemma_event_observations(s, e, Channel::Dte0PutVolumeCurve);
}

/// A trade with a size of one kind of contract, by the event's fields.
pub open spec fn trade_of(e: OptionsEvent<'_>, kind: crate::contract::ContractType) -> bool {
    e.action == crate::event::Action::Trade && e.trade_size > 0 && e.contract.contract_type == kind
}

/// The day's totals over the calls since the last reset.
proof fn lemma_day_of_sides<'a>(s: PutCallState, calls: Seq<TrackerCall<'a>>)
    requires
        crate::history::within_a_day(calls),
    ensures
        ({
            let after = crate::history::after_history::<PutCallRatioTracker>(
                PutCallRatioTracker::after_reset(s),
                calls,
            );
            let call = |e: OptionsEvent<'a>| trade_of(e, crate::contract::ContractType::Call);
            let put = |e: OptionsEvent<'a>| trade_of(e, crate::contract::ContractType::Put);
            let call_0dte = |e: OptionsEvent<'a>|
                trade_of(e, crate::contract::ContractType::Call) && e.dte == 0;
            let put_0dte = |e: OptionsEvent<'a>|
                trade_of(e, crate::contract::ContractType::Put) && e.dte == 0;
            &&& after.call.volume == crate::history::sum_sizes(calls, call)
            &&& after.put.volume == crate::history::sum_sizes(calls, put)
            &&& after.call.trades == crate::history::count_events(calls, call)
            &&& after.put.trades == crate::history::count_events(calls, put)
            &&& after.call.dte0_volume == crate::history::sum_sizes(calls, call_0dte)
            &&& after.put.dte0_volume == crate::history::sum_sizes(calls, put_0dte)
        }),
    decreases calls.len(),
{
    if calls.len() > 0 {
        crate::history::lemma_within_a_day(calls);
        lemma_day_of_sides(s, calls.drop_last());
    }
}

/// At its end a day contributes the put-call ratios of the trades since the last
/// reset: the contracts of puts over those of calls, the number of put trades
/// over that of call trades, and the first once more of the contracts that expire
/// on the day, each where there are calls.
pub proof fn law_ratios_are_of_the_trades_since_the_reset<'a>(
    s: PutCallState,
    calls: Seq<TrackerCall<'a>>,
)
    requires
        crate::history::within_a_day(calls),
        PutCallRatioTracker::valid(
            crate::history::after_history::<PutCallRatioTracker>(
                PutCallRatioTracker::after_reset(s),
                calls,
            ),
        ),
        PutCallRatioTracker::room(
            crate::history::after_history::<PutCallRatioTracker>(
                PutCallRatioTracker::after_reset(s),
                calls,
            ),
        ),
    ensures
        ({
            let after = crate::history::after_history::<PutCallRatioTracker>(
                PutCallRatioTracker::after_reset(s),
                calls,
            );
            let effects = PutCallRatioTracker::day_effects(after);
            let call = |e: OptionsEvent<'a>| trade_of(e, crate::contract::ContractType::Call);
            let put = |e: OptionsEvent<'a>| trade_of(e, crate::contract::ContractType::Put);
            let call_0dte = |e: OptionsEvent<'a>|
                trade_of(e, crate::contract::ContractType::Call) && e.dte == 0;
            let put_0dte = |e: OptionsEvent<'a>|
                trade_of(e, crate::contract::ContractType::Put) && e.dte == 0;
            &&& crate::history::observes(
                effects,
                Channel::PcrVolumeDaily,
                crate::history::sum_sizes(calls, call) > 0,
                crate::history::sum_sizes(calls, put) as int,
                crate::history::sum_sizes(calls, call) as int,
            )
            &&& crate::history::observes(
                effects,
                Channel::PcrTradesDaily,
                crate::history::count_events(calls, call) > 0,
                crate::history::count_events(calls, put) as int,
                crate::history::count_events(calls, call) as int,
            )
            &&& crate::history::observes(
                effects,
                Channel::Pcr0dteDaily,
                crate::history::sum_sizes(calls, call_0dte) > 0,
                crate::history::sum_sizes(calls, put_0dte) as int,
                crate::history::sum_sizes(calls, call_0dte) as int,
            )
        }),
{
    let after = crate::history::after_history::<PutCallRatioTracker>(
        PutCallRatioTracker::after_reset(s),
        calls,
    );
    lemma_day_of_sides(s, calls);
    lemma_day_observations(after, Channel::PcrVolumeDaily);
    lemma_day_observations(after, Channel::PcrTradesDaily);
    lemma_day_observations(after, Channel::Pcr0dteDaily);
}

/// Over any history, points are traced under the UTC offset of the last day that
/// began.
pub proof fn law_put_call_offset_is_that_of_the_day(s: PutCallState, calls: Seq<TrackerCall<'_>>)
    ensures
        crate::history::after_history::<PutCallRatioTracker>(s, calls).utc_offset
            == crate::history::offset_after(s.utc_offset, calls),
    decreases calls.len(),
{
    if calls.len() > 0 {
        law_put_call_offset_is_that_of_the_day(s, calls.drop_last());
    }
}

/// What a tracker reports after any history from its start: the number of days,
/// and the statistics under their names.
pub proof fn law_put_call_report_is_that_of_the_history<'a>(calls: Seq<TrackerCall<'a>>)
    ensures
        ({
            let s = crate::history::after_history::<PutCallRatioTracker>(
                PutCallState::start(),
                calls,
            );
            let rows = PutCallRatioTracker::report(s);
            let days = crate::history::count_days(calls);
            &&& rows.len() == 9
            &&& rows[0] == Row::at("tracker", Value::Text("PutCallRatioTracker"))
            &&& rows[1] == Row::at("n_days", Value::Count(days as u64))
            &&& rows[2] == Row::at("pcr_volume_daily", Value::MeanStdCount(Channel::PcrVolumeDaily))
            &&& rows[3] == Row::at("pcr_trades_daily", Value::MeanStd(Channel::PcrTradesDaily))
            &&& rows[4] == Row::at("pcr_0dte_daily", Value::MeanStdCount(Channel::Pcr0dteDaily))
            &&& rows[5] == Row::bare_curve_at(
                "intraday_call_volume",
                Channel::CallVolumeCurve,
                "mean_volume",
            )
            &&& rows[6] == Row::bare_curve_at(
                "intraday_put_volume",
                Channel::PutVolumeCurve,
                "mean_volume",
            )
            &&& rows[7] == Row::bare_curve_at(
                "intraday_0dte_call_volume",
                Channel::Dte0CallVolumeCurve,
                "mean_volume",
            )
            &&& rows[8] == Row::bare_curve_at(
                "intraday_0dte_put_volume",
                Channel::Dte0PutVolumeCurve,
                "mean_volume",
            )
        }),
{
    law_call_and_put_trades_are_observed(
        PutCallState::start(),
        calls,
        Channel::PcrVolumeDaily,
    );
}

} // verus!
