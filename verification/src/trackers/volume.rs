//! VolumeTracker: trade volume distribution by DTE, moneyness, and time-of-day.

use crate::event::{DayContext, OptionsEvent};
use crate::fraction::Fraction;
use crate::history::TrackerCall;
use crate::observation::{Channel, Effect, IvProblem, IvSolution};
use crate::report::{quotient, share, Row, Value};
use crate::report_utils::{dte_bucket_index, moneyness_index};
use crate::session::DEFAULT_UTC_OFFSET;
use crate::{OptionsTracker, COUNTER_LIMIT};
use vstd::prelude::*;

verus! {

/// Volumes of trades.
pub struct VolumeTracker {
    reservoir_capacity: usize,
    utc_offset: i32,
    total_trades: u64,
    total_volume: u64,
    call_volume: u64,
    put_volume: u64,
    /// Per DTE bucket: [0dte, 1dte, 2_7dte, other]
    dte_volume: [u64; 4],
    dte_trades: [u64; 4],
    /// Per moneyness: [deep_itm, itm, atm, otm, deep_otm]
    moneyness_volume: [u64; 5],
    day_volume: u64,
    day_trades: u64,
    n_days: u32,
}

/// The state of a [`VolumeTracker`].
#[verifier::ext_equal]
pub struct VolumeState {
    pub reservoir_capacity: usize,
    pub utc_offset: i32,
    pub total_trades: nat,
    pub total_volume: nat,
    pub call_volume: nat,
    pub put_volume: nat,
    pub dte_volume: Seq<nat>,
    pub dte_trades: Seq<nat>,
    pub moneyness_volume: Seq<nat>,
    pub day_volume: nat,
    pub day_trades: nat,
    pub n_days: nat,
}

impl VolumeState {
    /// Before the first trade.
    pub open spec fn start(reservoir_capacity: usize) -> VolumeState {
        VolumeState {
            reservoir_capacity,
            utc_offset: DEFAULT_UTC_OFFSET,
            total_trades: 0,
            total_volume: 0,
            call_volume: 0,
            put_volume: 0,
            dte_volume: seq![0, 0, 0, 0],
            dte_trades: seq![0, 0, 0, 0],
            moneyness_volume: seq![0, 0, 0, 0, 0],
            day_volume: 0,
            day_trades: 0,
            n_days: 0,
        }
    }
}

impl View for VolumeTracker {
    type V = VolumeState;

    closed spec fn view(&self) -> VolumeState {
        VolumeState {
            reservoir_capacity: self.reservoir_capacity,
            utc_offset: self.utc_offset,
            total_trades: self.total_trades as nat,
            total_volume: self.total_volume as nat,
            call_volume: self.call_volume as nat,
            put_volume: self.put_volume as nat,
            dte_volume: Seq::new(4, |i: int| self.dte_volume[i] as nat),
            dte_trades: Seq::new(4, |i: int| self.dte_trades[i] as nat),
            moneyness_volume: Seq::new(5, |i: int| self.moneyness_volume[i] as nat),
            day_volume: self.day_volume as nat,
            day_trades: self.day_trades as nat,
            n_days: self.n_days as nat,
        }
    }
}

impl VolumeTracker {
    /// A tracker that has seen nothing, whose distributions keep samples of
    /// `reservoir_capacity` values.
    pub fn new(reservoir_capacity: usize) -> (r: Self)
        ensures
            r@ == VolumeState::start(reservoir_capacity),
            Self::valid(r@),
    {
        VolumeTracker {
            reservoir_capacity,
            utc_offset: DEFAULT_UTC_OFFSET,
            total_trades: 0,
            total_volume: 0,
            call_volume: 0,
            put_volume: 0,
            dte_volume: [0; 4],
            dte_trades: [0; 4],
            moneyness_volume: [0; 5],
            day_volume: 0,
            day_trades: 0,
            n_days: 0,
        }
    }

    /// The sample size of the distributions.
    pub fn reservoir_capacity(&self) -> (r: usize)
        ensures
            r == self@.reservoir_capacity,
    {
        self.reservoir_capacity
    }
}

impl OptionsTracker for VolumeTracker {
    /// The total splits into calls and puts, into DTE buckets and into
    /// moneyness classes; every trade has a volume; the day is in the total.
    open spec fn valid(s: VolumeState) -> bool {
        let d = s.dte_volume;
        let t = s.dte_trades;
        let m = s.moneyness_volume;
        &&& d.len() == 4 && t.len() == 4 && m.len() == 5
        &&& s.total_volume == s.call_volume + s.put_volume
        &&& s.total_volume == d[0] + d[1] + d[2] + d[3]
        &&& s.total_volume == m[0] + m[1] + m[2] + m[3] + m[4]
        &&& s.total_trades == t[0] + t[1] + t[2] + t[3]
        &&& s.total_trades <= s.total_volume
        &&& s.day_trades <= s.total_trades
        &&& s.day_volume <= s.total_volume
    }

    open spec fn room(s: VolumeState) -> bool {
        s.total_volume <= COUNTER_LIMIT && s.n_days < u32::MAX
    }

    open spec fn begun(s: VolumeState, ctx: DayContext) -> VolumeState {
        VolumeState { utc_offset: ctx.utc_offset, ..s }
    }

    open spec fn after_event(s: VolumeState, event: OptionsEvent<'_>) -> VolumeState {
        let vol = event.trade_size as nat;
        let bucket = crate::report_utils::bucket_of(event.dte as int);
        let class = crate::report_utils::index_of(event.moneyness);
        if !event.trade() || vol == 0 {
            s
        } else {
            VolumeState {
                total_trades: s.total_trades + 1,
                total_volume: s.total_volume + vol,
                day_trades: s.day_trades + 1,
                day_volume: s.day_volume + vol,
                call_volume: if event.call() {
                    s.call_volume + vol
                } else {
                    s.call_volume
                },
                put_volume: if event.call() {
                    s.put_volume
                } else {
                    s.put_volume + vol
                },
                dte_volume: s.dte_volume.update(bucket, s.dte_volume[bucket] + vol),
                dte_trades: s.dte_trades.update(bucket, s.dte_trades[bucket] + 1),
                moneyness_volume: s.moneyness_volume.update(
                    class,
                    s.moneyness_volume[class] + vol,
                ),
                ..s
            }
        }
    }

    /// The size of a trade enters the distributions of all trades and of its
    /// kind, and the curve of all trades and, if it expires today, that of
    /// those.
    open spec fn event_effects(s: VolumeState, event: OptionsEvent<'_>) -> Seq<Effect> {
        let size = crate::observation::whole(event.trade_size as nat);
        if !event.trade() || event.trade_size == 0 {
            Seq::empty()
        } else {
            seq![
                Effect::observed(Channel::TradeSize, size),
                Effect::observed(
                    if event.call() {
                        Channel::CallTradeSize
                    } else {
                        Channel::PutTradeSize
                    },
                    size,
                ),
                Effect::traced(Channel::AllVolumeCurve, event.ts_event, size, s.utc_offset),
            ] + if event.zero_dte() {
                seq![Effect::traced(Channel::Dte0VolumeCurve, event.ts_event, size, s.utc_offset)]
            } else {
                Seq::empty()
            }
        }
    }

    open spec fn after_day(s: VolumeState) -> VolumeState {
        VolumeState { n_days: s.n_days + 1, ..s }
    }

    open spec fn day_effects(s: VolumeState) -> Seq<Effect> {
        seq![
            Effect::observed(Channel::DailyVolume, crate::observation::whole(s.day_volume)),
            Effect::observed(Channel::DailyTrades, crate::observation::whole(s.day_trades)),
        ]
    }

    open spec fn after_reset(s: VolumeState) -> VolumeState {
        VolumeState { day_volume: 0, day_trades: 0, ..s }
    }

    open spec fn pending(s: VolumeState) -> Seq<IvProblem> {
        Seq::empty()
    }

    open spec fn after_solution(
        s: VolumeState,
        problem: IvProblem,
        solution: IvSolution,
    ) -> VolumeState {
        s
    }

    open spec fn solution_effects(
        s: VolumeState,
        problem: IvProblem,
        solution: IvSolution,
    ) -> Seq<Effect> {
        Seq::empty()
    }

    open spec fn report(s: VolumeState) -> Seq<Row> {
        let volume = |i: int| Value::Count(s.dte_volume[i] as u64);
        let trades = |i: int| Value::Count(s.dte_trades[i] as u64);
        let class = |i: int| Value::Count(s.moneyness_volume[i] as u64);
        seq![
            Row::at("tracker", Value::Text("VolumeTracker")),
            Row::at("n_days", Value::Count(s.n_days as u64)),
            Row::at("total_trades", Value::Count(s.total_trades as u64)),
            Row::at("total_volume", Value::Count(s.total_volume as u64)),
            Row::at("call_volume", Value::Count(s.call_volume as u64)),
            Row::at("put_volume", Value::Count(s.put_volume as u64)),
            Row::at(
                "put_call_ratio_volume",
                crate::report::quotient_of(s.put_volume, s.call_volume),
            ),
            Row::at(
                "dte0_volume_share_pct",
                crate::report::share_of(s.dte_volume[0], s.total_volume, 100),
            ),
            Row::at("trade_size_distribution", Value::Summary(Channel::TradeSize)),
            Row::at("call_trade_size", Value::Summary(Channel::CallTradeSize)),
            Row::at("put_trade_size", Value::Summary(Channel::PutTradeSize)),
            Row::within("volume_by_dte", "0dte", "volume", volume(0)),
            Row::within("volume_by_dte", "0dte", "trades", trades(0)),
            Row::within("volume_by_dte", "1dte", "volume", volume(1)),
            Row::within("volume_by_dte", "1dte", "trades", trades(1)),
            Row::within("volume_by_dte", "2_7dte", "volume", volume(2)),
            Row::within("volume_by_dte", "2_7dte", "trades", trades(2)),
            Row::within("volume_by_dte", "other", "volume", volume(3)),
            Row::within("volume_by_dte", "other", "trades", trades(3)),
            Row::below("volume_by_moneyness", "deep_itm", class(0)),
            Row::below("volume_by_moneyness", "itm", class(1)),
            Row::below("volume_by_moneyness", "atm", class(2)),
            Row::below("volume_by_moneyness", "otm", class(3)),
            Row::below("volume_by_moneyness", "deep_otm", class(4)),
            Row::at("daily_volume", Value::MeanStd(Channel::DailyVolume)),
            Row::at("daily_trades", Value::MeanStd(Channel::DailyTrades)),
            Row::bare_curve_at(
                "intraday_all_volume_curve",
                Channel::AllVolumeCurve,
                "mean_trade_size",
            ),
            Row::bare_curve_at(
                "intraday_0dte_volume_curve",
                Channel::Dte0VolumeCurve,
                "mean_trade_size",
            ),
        ]
    }

    open spec fn label() -> &'static str {
        "VolumeTracker"
    }

    fn has_room(&self) -> bool {
        self.total_volume <= COUNTER_LIMIT && self.n_days < u32::MAX
    }

    fn begin_day(&mut self, ctx: &DayContext) {
        self.utc_offset = ctx.utc_offset;
        assert(self@ =~= Self::begun(old(self)@, *ctx));
    }

    fn process_event(&mut self, event: &OptionsEvent<'_>, regime: u8) -> Vec<Effect> {
        let ghost before = self@;
        let mut effects: Vec<Effect> = Vec::new();
        if !event.is_trade() || event.trade_size == 0 {
            return effects;
        }
        let vol: u64 = event.trade_size as u64;
        let size: Fraction = Fraction::whole(vol);
        self.total_trades = self.total_trades + 1;
        self.total_volume = self.total_volume + vol;
        self.day_trades = self.day_trades + 1;
        self.day_volume = self.day_volume + vol;
        effects.push(Effect::observe(Channel::TradeSize, size));
        if event.is_call() {
            self.call_volume = self.call_volume + vol;
            effects.push(Effect::observe(Channel::CallTradeSize, size));
        } else {
            self.put_volume = self.put_volume + vol;
            effects.push(Effect::observe(Channel::PutTradeSize, size));
        }
        let di: usize = dte_bucket_index(event.dte);
        assert(before.dte_volume[di as int] == self.dte_volume[di as int]);
        assert(before.dte_trades[di as int] == self.dte_trades[di as int]);
        self.dte_volume[di] = self.dte_volume[di] + vol;
        self.dte_trades[di] = self.dte_trades[di] + 1;
        let mi: usize = moneyness_index(event.moneyness);
        assert(before.moneyness_volume[mi as int] == self.moneyness_volume[mi as int]);
        self.moneyness_volume[mi] = self.moneyness_volume[mi] + vol;
        let ts: i64 = event.ts_event;
        effects.push(Effect::trace(Channel::AllVolumeCurve, ts, size, self.utc_offset));
        if event.is_zero_dte() {
            effects.push(Effect::trace(Channel::Dte0VolumeCurve, ts, size, self.utc_offset));
        }
        assert(self@ =~= Self::after_event(before, *event));
        assert(effects@ =~= Self::event_effects(before, *event));
        effects
    }

    fn end_of_day(&mut self, day_index: u32) -> Vec<Effect> {
        self.n_days = self.n_days + 1;
        vec![
            Effect::observe(Channel::DailyVolume, Fraction::whole(self.day_volume)),
            Effect::observe(Channel::DailyTrades, Fraction::whole(self.day_trades)),
        ]
    }

    fn reset_day(&mut self) {
        self.day_volume = 0;
        self.day_trades = 0;
    }

    fn awaits_solution(&self, problem: &IvProblem) -> bool {
        false
    }

    fn resolve(&mut self, problem: &IvProblem, solution: &IvSolution) -> Vec<Effect> {
        Vec::new()
    }

    fn finalize(&self) -> Vec<Row> {
        let d = self.dte_volume;
        let t = self.dte_trades;
        let m = self.moneyness_volume;
        vec![
            Row::top("tracker", Value::Text("VolumeTracker")),
            Row::top("n_days", Value::Count(self.n_days as u64)),
            Row::top("total_trades", Value::Count(self.total_trades)),
            Row::top("total_volume", Value::Count(self.total_volume)),
            Row::top("call_volume", Value::Count(self.call_volume)),
            Row::top("put_volume", Value::Count(self.put_volume)),
            Row::top("put_call_ratio_volume", quotient(self.put_volume, self.call_volume)),
            Row::top("dte0_volume_share_pct", share(d[0], self.total_volume, 100)),
            Row::top("trade_size_distribution", Value::Summary(Channel::TradeSize)),
            Row::top("call_trade_size", Value::Summary(Channel::CallTradeSize)),
            Row::top("put_trade_size", Value::Summary(Channel::PutTradeSize)),
            Row::deep("volume_by_dte", "0dte", "volume", Value::Count(d[0])),
            Row::deep("volume_by_dte", "0dte", "trades", Value::Count(t[0])),
            Row::deep("volume_by_dte", "1dte", "volume", Value::Count(d[1])),
            Row::deep("volume_by_dte", "1dte", "trades", Value::Count(t[1])),
            Row::deep("volume_by_dte", "2_7dte", "volume", Value::Count(d[2])),
            Row::deep("volume_by_dte", "2_7dte", "trades", Value::Count(t[2])),
            Row::deep("volume_by_dte", "other", "volume", Value::Count(d[3])),
            Row::deep("volume_by_dte", "other", "trades", Value::Count(t[3])),
            Row::nested("volume_by_moneyness", "deep_itm", Value::Count(m[0])),
            Row::nested("volume_by_moneyness", "itm", Value::Count(m[1])),
            Row::nested("volume_by_moneyness", "atm", Value::Count(m[2])),
            Row::nested("volume_by_moneyness", "otm", Value::Count(m[3])),
            Row::nested("volume_by_moneyness", "deep_otm", Value::Count(m[4])),
            Row::top("daily_volume", Value::MeanStd(Channel::DailyVolume)),
            Row::top("daily_trades", Value::MeanStd(Channel::DailyTrades)),
            Row::bare_curve("intraday_all_volume_curve", Channel::AllVolumeCurve, "mean_trade_size"),
            Row::bare_curve(
                "intraday_0dte_volume_curve",
                Channel::Dte0VolumeCurve,
                "mean_trade_size",
            ),
        ]
    }

    fn name(&self) -> &'static str {
        "VolumeTracker"
    }
}

/// The event is a trade with a size.
pub open spec fn sized_trade(event: OptionsEvent<'_>) -> bool {
    event.trade() && event.trade_size > 0
}

/// The statistics that an event enters.
pub open spec fn feeds(channel: Channel, event: OptionsEvent<'_>) -> bool {
    sized_trade(event) && match channel {
        Channel::TradeSize | Channel::AllVolumeCurve => true,
        Channel::CallTradeSize => event.call(),
        Channel::PutTradeSize => !event.call(),
        Channel::Dte0VolumeCurve => event.zero_dte(),
        _ => false,
    }
}

/// The statistics that a day enters.
pub open spec fn daily(channel: Channel) -> bool {
    channel == Channel::DailyVolume || channel == Channel::DailyTrades
}

/// Over any history, the totals are the number and the size of the trades, and
/// those of calls and puts and of each bucket are theirs.
pub proof fn law_volumes_are_those_of_the_trades<'a>(s: VolumeState, calls: Seq<TrackerCall<'a>>)
    requires
        VolumeTracker::valid(s),
    ensures
        ({
            let after = crate::history::after_history::<VolumeTracker>(s, calls);
            &&& after.total_trades == s.total_trades + crate::history::count_events(
                calls,
                |e: OptionsEvent<'a>| sized_trade(e),
            )
            &&& after.total_volume == s.total_volume + crate::history::sum_sizes(
                calls,
                |e: OptionsEvent<'a>| sized_trade(e),
            )
            &&& after.call_volume == s.call_volume + crate::history::sum_sizes(
                calls,
                |e: OptionsEvent<'a>| sized_trade(e) && e.call(),
            )
            &&& after.put_volume == s.put_volume + crate::history::sum_sizes(
                calls,
                |e: OptionsEvent<'a>| sized_trade(e) && !e.call(),
            )
            &&& after.dte_volume.len() == 4 && after.dte_trades.len() == 4
            &&& after.moneyness_volume.len() == 5
            &&& forall|b: int|
                0 <= b < 4 ==> #[trigger] after.dte_volume[b] == s.dte_volume[b]
                    + crate::history::sum_sizes(
                    calls,
                    |e: OptionsEvent<'a>|
                        sized_trade(e) && crate::report_utils::bucket_of(e.dte as int) == b,
                )
            &&& forall|b: int|
                0 <= b < 4 ==> #[trigger] after.dte_trades[b] == s.dte_trades[b]
                    + crate::history::count_events(
                    calls,
                    |e: OptionsEvent<'a>|
                        sized_trade(e) && crate::report_utils::bucket_of(e.dte as int) == b,
                )
            &&& forall|c: int|
                0 <= c < 5 ==> #[trigger] after.moneyness_volume[c] == s.moneyness_volume[c]
                    + crate::history::sum_sizes(
                    calls,
                    |e: OptionsEvent<'a>|
                        sized_trade(e) && crate::report_utils::index_of(e.moneyness) == c,
                )
            &&& after.n_days == s.n_days + crate::history::count_days(calls)
        }),
    decreases calls.len(),
{
    if calls.len() > 0 {
        law_volumes_are_those_of_the_trades(s, calls.drop_last());
    }
}

/// An event is observed once in each statistic that it feeds.
proof fn lemma_event_observations(s: VolumeState, e: OptionsEvent<'_>, channel: Channel)
    ensures
        crate::history::observations(VolumeTracker::event_effects(s, e), channel)
            == crate::history::one_if(feeds(channel, e)),
{
    reveal_with_fuel(crate::history::observed_first, 5);
}

/// What the end of a day adds to the observations.
proof fn lemma_day_observations(s: VolumeState, channel: Channel)
    ensures
        crate::history::observations(VolumeTracker::day_effects(s), channel)
            == crate::history::one_if(daily(channel)),
{
    reveal_with_fuel(crate::history::observed_first, 3);
}

/// Over any history, each statistic has one observation for every trade that
/// belongs to it, and each daily one has one for every day.
pub proof fn law_trades_are_observed<'a>(
    s: VolumeState,
    calls: Seq<TrackerCall<'a>>,
    channel: Channel,
)
    ensures
        ({
            let effects = crate::history::history_effects::<VolumeTracker>(s, calls);
            let events = crate::history::count_events(
                calls,
                |e: OptionsEvent<'a>| feeds(channel, e),
            );
            crate::history::observations(effects, channel) == events + (if daily(channel) {
                crate::history::count_days(calls)
            } else {
                0
            })
        }),
    decreases calls.len(),
{
    if calls.len() == 0 {
        crate::history::lemma_no_observations(channel);
    } else {
        let rest = crate::history::after_history::<VolumeTracker>(s, calls.drop_last());
        law_trades_are_observed(s, calls.drop_last(), channel);
        crate::history::lemma_last_call::<VolumeTracker>(s, calls, channel);
        match calls.last() {
            TrackerCall::Event(event) => lemma_event_observations(rest, event, channel),
            TrackerCall::End => lemma_day_observations(rest, channel),
            _ => {},
        }
    }
}

/// What an event contributes, by its fields: the size of a trade that has one,
/// to the distribution of all and to that of calls or of puts, and at its time to
/// the curve of all and, if it expires on its day, to the curve of those.
pub proof fn law_sizes_of_a_trade(s: VolumeState, e: OptionsEvent<'_>)
    ensures
        ({
            let effects = VolumeTracker::event_effects(s, e);
            let traded = e.action == crate::event::Action::Trade && e.trade_size > 0;
            let call = e.contract.contract_type == crate::contract::ContractType::Call;
            let put = e.contract.contract_type == crate::contract::ContractType::Put;
            let size = e.trade_size as int;
            let (ts, at) = (e.ts_event, s.utc_offset);
            &&& crate::history::observes(effects, Channel::TradeSize, traded, size, 1)
            &&& crate::history::observes(effects, Channel::CallTradeSize, traded && call, size, 1)
            &&& crate::history::observes(effects, Channel::PutTradeSize, traded && put, size, 1)
            &&& crate::history::traces(
                effects,
                Channel::AllVolumeCurve,
                traded,
                ts,
                at,
                size,
                1,
            )
            &&& crate::history::traces(
                effects,
                Channel::Dte0VolumeCurve,
                traded && e.dte == 0,
                ts,
                at,
                size,
                1,
            )
        }),
{
    lemma_event_observations(s, e, Channel::TradeSize);
    lemma_event_observations(s, e, Channel::CallTradeSize);
    lemma_event_observations(s, e, Channel::PutTradeSize);
    lemma_event_observations(s, e, Channel::AllVolumeCurve);
    lemma_event_observations(s, e, Channel::Dte0VolumeCurve);
}

/// The day's figures over the calls since the last reset.
proof fn lemma_day_of_trades<'a>(s: VolumeState, calls: Seq<TrackerCall<'a>>)
    requires
        crate::history::within_a_day(calls),
    ensures
        ({
            let after = crate::history::after_history::<VolumeTracker>(
                VolumeTracker::after_reset(s),
                calls,
            );
            let traded = |e: OptionsEvent<'a>|
                e.action == crate::event::Action::Trade && e.trade_size > 0;
            &&& after.day_volume == crate::history::sum_sizes(calls, traded)
            &&& after.day_trades == crate::history::count_events(calls, traded)
        }),
    decreases calls.len(),
{
    if calls.len() > 0 {
        crate::history::lemma_within_a_day(calls);
        lemma_day_of_trades(s, calls.drop_last());
    }
}

/// At its end a day contributes the contracts traded since the last reset and
/// the number of those trades.
pub proof fn law_day_is_the_trades_since_the_reset<'a>(
    s: VolumeState,
    calls: Seq<TrackerCall<'a>>,
)
    requires
        crate::history::within_a_day(calls),
        crate::history::sum_sizes(
            calls,
            |e: OptionsEvent<'a>|
                e.action == crate::event::Action::Trade && e.trade_size > 0,
        ) <= u64::MAX,
        crate::history::count_events(
            calls,
            |e: OptionsEvent<'a>|
                e.action == crate::event::Action::Trade && e.trade_size > 0,
        ) <= u64::MAX,
    ensures
        ({
            let after = crate::history::after_history::<VolumeTracker>(
                VolumeTracker::after_reset(s),
                calls,
            );
            let effects = VolumeTracker::day_effects(after);
            let traded = |e: OptionsEvent<'a>|
                e.action == crate::event::Action::Trade && e.trade_size > 0;
            &&& crate::history::observes(
                effects,
                Channel::DailyVolume,
                true,
                crate::history::sum_sizes(calls, traded) as int,
                1,
            )
            &&& crate::history::observes(
                effects,
                Channel::DailyTrades,
                true,
                crate::history::count_events(calls, traded) as int,
                1,
            )
        }),
{
    let after = crate::history::after_history::<VolumeTracker>(
        VolumeTracker::after_reset(s),
        calls,
    );
    lemma_day_of_trades(s, calls);
    lemma_day_observations(after, Channel::DailyVolume);
    lemma_day_observations(after, Channel::DailyTrades);
}

/// Over any history, points are traced under the UTC offset of the last day that
/// began.
pub proof fn law_volume_offset_is_that_of_the_day(s: VolumeState, calls: Seq<TrackerCall<'_>>)
    ensures
        crate::history::after_history::<VolumeTracker>(s, calls).utc_offset
            == crate::history::offset_after(s.utc_offset, calls),
    decreases calls.len(),
{
    if calls.len() > 0 {
        law_volume_offset_is_that_of_the_day(s, calls.drop_last());
    }
}

/// What a tracker reports after any history from its start: the number of days,
/// and the number and the size of the trades, of all, of calls and of puts, by
/// days to expiry and by moneyness, with the ratio of puts to calls and the
/// percentage that expired on its day, and the statistics under their names.
pub proof fn law_volume_report_is_that_of_the_history<'a>(
    reservoir_capacity: usize,
    calls: Seq<TrackerCall<'a>>,
)
    ensures
        ({
            let s = crate::history::after_history::<VolumeTracker>(
                VolumeState::start(reservoir_capacity),
                calls,
            );
            let rows = VolumeTracker::report(s);
            let days = crate::history::count_days(calls);
            let trades = crate::history::count_events(
                calls,
                |e: OptionsEvent<'a>| sized_trade(e),
            );
            let volume = crate::history::sum_sizes(
                calls,
                |e: OptionsEvent<'a>| sized_trade(e),
            );
            let calls_volume = crate::history::sum_sizes(
                calls,
                |e: OptionsEvent<'a>| sized_trade(e) && e.call(),
            );
            let puts_volume = crate::history::sum_sizes(
                calls,
                |e: OptionsEvent<'a>| sized_trade(e) && !e.call(),
            );
            let expiring = |b: int|
                crate::history::sum_sizes(
                    calls,
                    |e: OptionsEvent<'a>|
                        sized_trade(e) && crate::report_utils::bucket_of(e.dte as int) == b,
                );
            let expiring_trades = |b: int|
                crate::history::count_events(
                    calls,
                    |e: OptionsEvent<'a>|
                        sized_trade(e) && crate::report_utils::bucket_of(e.dte as int) == b,
                );
            let class_volume = |b: int|
                crate::history::sum_sizes(
                    calls,
                    |e: OptionsEvent<'a>|
                        sized_trade(e) && crate::report_utils::index_of(e.moneyness) == b,
                );
            &&& rows.len() == 28
            &&& rows[0] == Row::at("tracker", Value::Text("VolumeTracker"))
            &&& rows[1] == Row::at("n_days", Value::Count(days as u64))
            &&& rows[2] == Row::at("total_trades", Value::Count(trades as u64))
            &&& rows[3] == Row::at("total_volume", Value::Count(volume as u64))
            &&& rows[4] == Row::at("call_volume", Value::Count(calls_volume as u64))
            &&& rows[5] == Row::at("put_volume", Value::Count(puts_volume as u64))
            &&& rows[6] == Row::at(
                "put_call_ratio_volume",
                crate::report::quotient_of(puts_volume, calls_volume),
            )
            &&& rows[7] == Row::at(
                "dte0_volume_share_pct",
                crate::report::share_of(expiring(0), volume, 100),
            )
            &&& rows[8] == Row::at("trade_size_distribution", Value::Summary(Channel::TradeSize))
            &&& rows[9] == Row::at("call_trade_size", Value::Summary(Channel::CallTradeSize))
            &&& rows[10] == Row::at("put_trade_size", Value::Summary(Channel::PutTradeSize))
            &&& rows[11] == Row::within(
                "volume_by_dte",
                "0dte",
                "volume",
                Value::Count(expiring(0) as u64),
            )
            &&& rows[12] == Row::within(
                "volume_by_dte",
                "0dte",
                "trades",
                Value::Count(expiring_trades(0) as u64),
            )
            &&& rows[13] == Row::within(
                "volume_by_dte",
                "1dte",
                "volume",
                Value::Count(expiring(1) as u64),
            )
            &&& rows[14] == Row::within(
                "volume_by_dte",
                "1dte",
                "trades",
                Value::Count(expiring_trades(1) as u64),
            )
            &&& rows[15] == Row::within(
                "volume_by_dte",
                "2_7dte",
                "volume",
                Value::Count(expiring(2) as u64),
            )
            &&& rows[16] == Row::within(
                "volume_by_dte",
                "2_7dte",
                "trades",
                Value::Count(expiring_trades(2) as u64),
            )
            &&& rows[17] == Row::within(
                "volume_by_dte",
                "other",
                "volume",
                Value::Count(expiring(3) as u64),
            )
            &&& rows[18] == Row::within(
                "volume_by_dte",
                "other",
                "trades",
                Value::Count(expiring_trades(3) as u64),
            )
            &&& rows[19] == Row::below(
                "volume_by_moneyness",
                "deep_itm",
                Value::Count(class_volume(0) as u64),
            )
            &&& rows[20] == Row::below(
                "volume_by_moneyness",
                "itm",
                Value::Count(class_volume(1) as u64),
            )
            &&& rows[21] == Row::below(
                "volume_by_moneyness",
                "atm",
                Value::Count(class_volume(2) as u64),
            )
            &&& rows[22] == Row::below(
                "volume_by_moneyness",
                "otm",
                Value::Count(class_volume(3) as u64),
            )
            &&& rows[23] == Row::below(
                "volume_by_moneyness",
                "deep_otm",
                Value::Count(class_volume(4) as u64),
            )
            &&& rows[24] == Row::at("daily_volume", Value::MeanStd(Channel::DailyVolume))
            &&& rows[25] == Row::at("daily_trades", Value::MeanStd(Channel::DailyTrades))
            &&& rows[26] == Row::bare_curve_at(
                "intraday_all_volume_curve",
                Channel::AllVolumeCurve,
                "mean_trade_size",
            )
            &&& rows[27] == Row::bare_curve_at(
                "intraday_0dte_volume_curve",
                Channel::Dte0VolumeCurve,
                "mean_trade_size",
            )
        }),
{
    law_volumes_are_those_of_the_trades(VolumeState::start(reservoir_capacity), calls);
}

} // verus!
