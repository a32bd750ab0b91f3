//! SpreadTracker: BBO spread distribution by DTE and moneyness.
//!
//! Tracks option bid-ask spread in USD and as percentage of mid-price,
//! with breakdown by DTE bucket, moneyness, and intraday curve.

use crate::event::{DayContext, OptionsEvent};
use crate::history::TrackerCall;
use crate::observation::{Channel, Effect, IvProblem, IvSolution};
use crate::report::{Row, Value};
use crate::report_utils::{dte_bucket_index, moneyness_index};
use crate::OptionsTracker;
use crate::session::DEFAULT_UTC_OFFSET;
use vstd::prelude::*;

verus! {

/// Spreads of valid quotes.
pub struct SpreadTracker {
    reservoir_capacity: usize,
    utc_offset: i32,
    n_days: u32,
}

/// The state of a [`SpreadTracker`].
pub struct SpreadState {
    pub reservoir_capacity: usize,
    pub utc_offset: i32,
    pub n_days: nat,
}

impl View for SpreadTracker {
    type V = SpreadState;

    closed spec fn view(&self) -> SpreadState {
        SpreadState {
            reservoir_capacity: self.reservoir_capacity,
            utc_offset: self.utc_offset,
            n_days: self.n_days as nat,
        }
    }
}

impl SpreadTracker {
    /// A tracker that has seen nothing, whose distributions keep samples of
    /// `reservoir_capacity` values.
    pub fn new(reservoir_capacity: usize) -> (r: Self)
        ensures
            r@ == (SpreadState { reservoir_capacity, utc_offset: DEFAULT_UTC_OFFSET, n_days: 0 }),
            Self::valid(r@),
    {
        SpreadTracker { reservoir_capacity, utc_offset: DEFAULT_UTC_OFFSET, n_days: 0 }
    }

    /// The sample size of the distributions.
    pub fn reservoir_capacity(&self) -> (r: usize)
        ensures
            r == self@.reservoir_capacity,
    {
        self.reservoir_capacity
    }
}

impl OptionsTracker for SpreadTracker {
    open spec fn valid(s: SpreadState) -> bool {
        true
    }

    open spec fn room(s: SpreadState) -> bool {
        s.n_days < u32::MAX
    }

    open spec fn begun(s: SpreadState, ctx: DayContext) -> SpreadState {
        SpreadState { utc_offset: ctx.utc_offset, ..s }
    }

    open spec fn after_event(s: SpreadState, event: OptionsEvent<'_>) -> SpreadState {
        s
    }

    /// The spread of a valid quote enters the overall distribution and those of
    /// its moneyness class and DTE bucket, in percent the overall distribution;
    /// for a contract at the money that expires today also its own
    /// distributions and the curves of spread and mid-price.
    open spec fn event_effects(s: SpreadState, event: OptionsEvent<'_>) -> Seq<Effect> {
        let spread = event.spread_of()->0;
        let pct = event.spread_pct_of()->0;
        let mid = event.mid_of()->0;
        if !event.valid_bbo() {
            Seq::empty()
        } else {
            seq![
                Effect::observed(Channel::SpreadUsd, spread),
                Effect::observed(
                    Channel::SpreadByMoneyness(
                        crate::report_utils::index_of(event.moneyness) as usize,
                    ),
                    spread,
                ),
                Effect::observed(
                    Channel::SpreadByDte(crate::report_utils::bucket_of(event.dte as int) as usize),
                    spread,
                ),
                Effect::observed(Channel::SpreadPct, pct),
            ] + if event.zero_dte() && event.atm() {
                seq![
                    Effect::observed(Channel::Dte0AtmSpreadUsd, spread),
                    Effect::traced(
                        Channel::Dte0AtmSpreadCurve,
                        event.ts_event,
                        spread,
                        s.utc_offset,
                    ),
                    Effect::observed(Channel::Dte0AtmSpreadPct, pct),
                    Effect::traced(Channel::Dte0AtmMidCurve, event.ts_event, mid, s.utc_offset),
                ]
            } else {
                Seq::empty()
            }
        }
    }

    open spec fn after_day(s: SpreadState) -> SpreadState {
        SpreadState { n_days: s.n_days + 1, ..s }
    }

    open spec fn day_effects(s: SpreadState) -> Seq<Effect> {
        Seq::empty()
    }

    open spec fn after_reset(s: SpreadState) -> SpreadState {
        s
    }

    open spec fn pending(s: SpreadState) -> Seq<IvProblem> {
        Seq::empty()
    }

    open spec fn after_solution(
        s: SpreadState,
        problem: IvProblem,
        solution: IvSolution,
    ) -> SpreadState {
        s
    }

    open spec fn solution_effects(
        s: SpreadState,
        problem: IvProblem,
        solution: IvSolution,
    ) -> Seq<Effect> {
        Seq::empty()
    }

    open spec fn report(s: SpreadState) -> Seq<Row> {
        seq![
            Row::at("tracker", Value::Text("SpreadTracker")),
            Row::at("n_days", Value::Count(s.n_days as u64)),
            Row::at("all_spread_usd", Value::Summary(Channel::SpreadUsd)),
            Row::at("all_spread_pct", Value::Summary(Channel::SpreadPct)),
            Row::at("dte0_atm_spread_usd", Value::Summary(Channel::Dte0AtmSpreadUsd)),
            Row::at("dte0_atm_spread_pct", Value::Summary(Channel::Dte0AtmSpreadPct)),
            Row::below(
                "spread_by_moneyness",
                "deep_itm",
                Value::MeanStdCount(Channel::SpreadByMoneyness(0)),
            ),
            Row::below(
                "spread_by_moneyness",
                "itm",
                Value::MeanStdCount(Channel::SpreadByMoneyness(1)),
            ),
            Row::below(
                "spread_by_moneyness",
                "atm",
                Value::MeanStdCount(Channel::SpreadByMoneyness(2)),
            ),
            Row::below(
                "spread_by_moneyness",
                "otm",
                Value::MeanStdCount(Channel::SpreadByMoneyness(3)),
            ),
            Row::below(
                "spread_by_moneyness",
                "deep_otm",
                Value::MeanStdCount(Channel::SpreadByMoneyness(4)),
            ),
            Row::below("spread_by_dte", "0dte", Value::MeanStdCount(Channel::SpreadByDte(0))),
            Row::below("spread_by_dte", "1dte", Value::MeanStdCount(Channel::SpreadByDte(1))),
            Row::below("spread_by_dte", "2_7dte", Value::MeanStdCount(Channel::SpreadByDte(2))),
            Row::below("spread_by_dte", "other", Value::MeanStdCount(Channel::SpreadByDte(3))),
            Row::curve_at(
                "dte0_atm_intraday_spread_curve",
                Channel::Dte0AtmSpreadCurve,
                "mean_spread_usd",
            ),
            Row::bare_curve_at("dte0_atm_intraday_mid_curve", Channel::Dte0AtmMidCurve, "mean_mid"),
        ]
    }

    open spec fn label() -> &'static str {
        "SpreadTracker"
    }

    fn has_room(&self) -> bool {
        self.n_days < u32::MAX
    }

    fn begin_day(&mut self, ctx: &DayContext) {
        self.utc_offset = ctx.utc_offset;
    }

    fn process_event(&mut self, event: &OptionsEvent<'_>, regime: u8) -> Vec<Effect> {
        let mut effects: Vec<Effect> = Vec::new();
        if !event.has_valid_bbo() {
            return effects;
        }
        let spread = event.spread();
        let spread_pct = event.spread_pct();
        if let Some(value) = spread {
            effects.push(Effect::observe(Channel::SpreadUsd, value));
            let class: usize = moneyness_index(event.moneyness);
            effects.push(Effect::observe(Channel::SpreadByMoneyness(class), value));
            let bucket: usize = dte_bucket_index(event.dte);
            effects.push(Effect::observe(Channel::SpreadByDte(bucket), value));
        }
        if let Some(value) = spread_pct {
            effects.push(Effect::observe(Channel::SpreadPct, value));
        }
        if event.is_zero_dte() && event.is_atm() {
            let ts: i64 = event.ts_event;
            if let Some(value) = spread {
                effects.push(Effect::observe(Channel::Dte0AtmSpreadUsd, value));
                effects.push(
                    Effect::trace(Channel::Dte0AtmSpreadCurve, ts, value, self.utc_offset),
                );
            }
            if let Some(value) = spread_pct {
                effects.push(Effect::observe(Channel::Dte0AtmSpreadPct, value));
            }
            if let Some(mid) = event.option_mid() {
                effects.push(Effect::trace(Channel::Dte0AtmMidCurve, ts, mid, self.utc_offset));
            }
        }
        assert(effects@ =~= Self::event_effects(self@, *event));
        effects
    }

    fn end_of_day(&mut self, day_index: u32) -> Vec<Effect> {
        self.n_days = self.n_days + 1;
        Vec::new()
    }

    fn reset_day(&mut self) {
    }

    fn awaits_solution(&self, problem: &IvProblem) -> bool {
        false
    }

    fn resolve(&mut self, problem: &IvProblem, solution: &IvSolution) -> Vec<Effect> {
        Vec::new()
    }

    fn finalize(&self) -> Vec<Row> {
        vec![
            Row::top("tracker", Value::Text("SpreadTracker")),
            Row::top("n_days", Value::Count(self.n_days as u64)),
            Row::top("all_spread_usd", Value::Summary(Channel::SpreadUsd)),
            Row::top("all_spread_pct", Value::Summary(Channel::SpreadPct)),
            Row::top("dte0_atm_spread_usd", Value::Summary(Channel::Dte0AtmSpreadUsd)),
            Row::top("dte0_atm_spread_pct", Value::Summary(Channel::Dte0AtmSpreadPct)),
            Row::nested(
                "spread_by_moneyness",
                "deep_itm",
                Value::MeanStdCount(Channel::SpreadByMoneyness(0)),
            ),
            Row::nested(
                "spread_by_moneyness",
                "itm",
                Value::MeanStdCount(Channel::SpreadByMoneyness(1)),
            ),
            Row::nested(
                "spread_by_moneyness",
                "atm",
                Value::MeanStdCount(Channel::SpreadByMoneyness(2)),
            ),
            Row::nested(
                "spread_by_moneyness",
                "otm",
                Value::MeanStdCount(Channel::SpreadByMoneyness(3)),
            ),
            Row::nested(
                "spread_by_moneyness",
                "deep_otm",
                Value::MeanStdCount(Channel::SpreadByMoneyness(4)),
            ),
            Row::nested("spread_by_dte", "0dte", Value::MeanStdCount(Channel::SpreadByDte(0))),
            Row::nested("spread_by_dte", "1dte", Value::MeanStdCount(Channel::SpreadByDte(1))),
            Row::nested("spread_by_dte", "2_7dte", Value::MeanStdCount(Channel::SpreadByDte(2))),
            Row::nested("spread_by_dte", "other", Value::MeanStdCount(Channel::SpreadByDte(3))),
            Row::curve(
                "dte0_atm_intraday_spread_curve",
                Channel::Dte0AtmSpreadCurve,
                "mean_spread_usd",
            ),
            Row::bare_curve("dte0_atm_intraday_mid_curve", Channel::Dte0AtmMidCurve, "mean_mid"),
        ]
    }

    fn name(&self) -> &'static str {
        "SpreadTracker"
    }
}

/// The statistics that an event enters.
pub open spec fn feeds(channel: Channel, event: OptionsEvent<'_>) -> bool {
    event.valid_bbo() && match channel {
        Channel::SpreadUsd | Channel::SpreadPct => true,
        Channel::SpreadByMoneyness(c) => crate::report_utils::index_of(event.moneyness) == c,
        Channel::SpreadByDte(b) => crate::report_utils::bucket_of(event.dte as int) == b,
        Channel::Dte0AtmSpreadUsd | Channel::Dte0AtmSpreadPct | Channel::Dte0AtmSpreadCurve
        | Channel::Dte0AtmMidCurve => event.zero_dte() && event.atm(),
        _ => false,
    }
}

/// An event is observed once in each statistic that it feeds.
proof fn lemma_event_observations(s: SpreadState, e: OptionsEvent<'_>, channel: Channel)
    ensures
        crate::history::observations(SpreadTracker::event_effects(s, e), channel)
            == crate::history::one_if(feeds(channel, e)),
{
    reveal_with_fuel(crate::history::observed_first, 9);
}

/// What the end of a day adds to the observations.
proof fn lemma_day_observations(s: SpreadState, channel: Channel)
    ensures
        crate::history::observations(SpreadTracker::day_effects(s), channel) == 0,
{
    reveal_with_fuel(crate::history::observed_first, 1);
}

/// Over any history, each statistic has one observation for every valid quote
/// that belongs to it, and the days are counted.
pub proof fn law_valid_quotes_are_observed<'a>(
    s: SpreadState,
    calls: Seq<TrackerCall<'a>>,
    channel: Channel,
)
    ensures
        ({
            let after = crate::history::after_history::<SpreadTracker>(s, calls);
            let effects = crate::history::history_effects::<SpreadTracker>(s, calls);
            let events = crate::history::count_events(
                calls,
                |e: OptionsEvent<'a>| feeds(channel, e),
            );
            &&& crate::history::observations(effects, channel) == events
            &&& after.n_days == s.n_days + crate::history::count_days(calls)
        }),
    decreases calls.len(),
{
    if calls.len() == 0 {
        crate::history::lemma_no_observations(channel);
    } else {
        let rest = crate::history::after_history::<SpreadTracker>(s, calls.drop_last());
        law_valid_quotes_are_observed(s, calls.drop_last(), channel);
        crate::history::lemma_last_call::<SpreadTracker>(s, calls, channel);
        match calls.last() {
            TrackerCall::Event(event) => lemma_event_observations(rest, event, channel),
            TrackerCall::End => lemma_day_observations(rest, channel),
            _ => {},
        }
    }
}

/// What a quote contributes, by its two prices: where both are positive and the
/// ask is above the bid, the spread in dollars to the distribution of all, of
/// its moneyness class and of its DTE bucket, the spread in percent of the
/// mid-price, and for a contract at the money that expires on its day these two
/// once more, with the spread and the mid-price at the time of the quote.
pub proof fn law_spreads_of_a_quote(
    s: SpreadState,
    e: OptionsEvent<'_>,
    class: usize,
    bucket: usize,
)
    ensures
        ({
            let effects = SpreadTracker::event_effects(s, e);
            let quoted = e.bid_px is Some && e.ask_px is Some && 0 < e.bid_px->0 < e.ask_px->0;
            let (sum, gap) = (e.bid_px->0 + e.ask_px->0, e.ask_px->0 - e.bid_px->0);
            let own = quoted && e.dte == 0 && e.moneyness
                == crate::options_math::moneyness::Moneyness::Atm;
            let in_class = quoted && crate::report_utils::index_of(e.moneyness) == class;
            let in_bucket = quoted && crate::report_utils::bucket_of(e.dte as int) == bucket;
            let (ts, at) = (e.ts_event, s.utc_offset);
            let dollar = 1_000_000_000int;
            &&& crate::history::observes(effects, Channel::SpreadUsd, quoted, gap, dollar)
            &&& crate::history::observes(effects, Channel::SpreadPct, quoted, 200 * gap, sum)
            &&& crate::history::observes(
                effects,
                Channel::SpreadByMoneyness(class),
                in_class,
                gap,
                dollar,
            )
            &&& crate::history::observes(
                effects,
                Channel::SpreadByDte(bucket),
                in_bucket,
                gap,
                dollar,
            )
            &&& crate::history::observes(effects, Channel::Dte0AtmSpreadUsd, own, gap, dollar)
            &&& crate::history::observes(effects, Channel::Dte0AtmSpreadPct, own, 200 * gap, sum)
            &&& crate::history::traces(
                effects,
                Channel::Dte0AtmSpreadCurve,
                own,
                ts,
                at,
                gap,
                dollar,
            )
            &&& crate::history::traces(
                effects,
                Channel::Dte0AtmMidCurve,
                own,
                ts,
                at,
                sum,
                2 * dollar,
            )
        }),
{
    crate::event::law_accessors_by_the_prices(e);
    lemma_event_observations(s, e, Channel::SpreadUsd);
    lemma_event_observations(s, e, Channel::SpreadPct);
    lemma_event_observations(s, e, Channel::SpreadByMoneyness(class));
    lemma_event_observations(s, e, Channel::SpreadByDte(bucket));
    lemma_event_observations(s, e, Channel::Dte0AtmSpreadUsd);
    lemma_event_observations(s, e, Channel::Dte0AtmSpreadPct);
    lemma_event_observations(s, e, Channel::Dte0AtmSpreadCurve);
    lemma_event_observations(s, e, Channel::Dte0AtmMidCurve);
}

/// Over any history, points are traced under the UTC offset of the last day that
/// began.
pub proof fn law_spread_offset_is_that_of_the_day(s: SpreadState, calls: Seq<TrackerCall<'_>>)
    ensures
        crate::history::after_history::<SpreadTracker>(s, calls).utc_offset
            == crate::history::offset_after(s.utc_offset, calls),
    decreases calls.len(),
{
    if calls.len() > 0 {
        law_spread_offset_is_that_of_the_day(s, calls.drop_last());
    }
}

/// What a tracker reports after any history: the number of days, and the
/// statistics under their names.
pub proof fn law_spread_report_is_that_of_the_history<'a>(
    start: SpreadState,
    calls: Seq<TrackerCall<'a>>,
)
    ensures
        ({
            let s = crate::history::after_history::<SpreadTracker>(start, calls);
            let rows = SpreadTracker::report(s);
            let days = start.n_days + crate::history::count_days(calls);
            &&& rows.len() == 17
            &&& rows[0] == Row::at("tracker", Value::Text("SpreadTracker"))
            &&& rows[1] == Row::at("n_days", Value::Count(days as u64))
            &&& rows[2] == Row::at("all_spread_usd", Value::Summary(Channel::SpreadUsd))
            &&& rows[3] == Row::at("all_spread_pct", Value::Summary(Channel::SpreadPct))
            &&& rows[4] == Row::at("dte0_atm_spread_usd", Value::Summary(Channel::Dte0AtmSpreadUsd))
            &&& rows[5] == Row::at("dte0_atm_spread_pct", Value::Summary(Channel::Dte0AtmSpreadPct))
            &&& rows[6] == Row::below(
                "spread_by_moneyness",
                "deep_itm",
                Value::MeanStdCount(Channel::SpreadByMoneyness(0)),
            )
            &&& rows[7] == Row::below(
                "spread_by_moneyness",
                "itm",
                Value::MeanStdCount(Channel::SpreadByMoneyness(1)),
            )
            &&& rows[8] == Row::below(
                "spread_by_moneyness",
                "atm",
                Value::MeanStdCount(Channel::SpreadByMoneyness(2)),
            )
            &&& rows[9] == Row::below(
                "spread_by_moneyness",
                "otm",
                Value::MeanStdCount(Channel::SpreadByMoneyness(3)),
            )
            &&& rows[10] == Row::below(
                "spread_by_moneyness",
                "deep_otm",
                Value::MeanStdCount(Channel::SpreadByMoneyness(4)),
            )
            &&& rows[11] == Row::below(
                "spread_by_dte",
                "0dte",
                Value::MeanStdCount(Channel::SpreadByDte(0)),
            )
            &&& rows[12] == Row::below(
                "spread_by_dte",
                "1dte",
                Value::MeanStdCount(Channel::SpreadByDte(1)),
            )
            &&& rows[13] == Row::below(
                "spread_by_dte",
                "2_7dte",
                Value::MeanStdCount(Channel::SpreadByDte(2)),
            )
            &&& rows[14] == Row::below(
                "spread_by_dte",
                "other",
                Value::MeanStdCount(Channel::SpreadByDte(3)),
            )
            &&& rows[15] == Row::curve_at(
                "dte0_atm_intraday_spread_curve",
                Channel::Dte0AtmSpreadCurve,
                "mean_spread_usd",
            )
            &&& rows[16] == Row::bare_curve_at(
                "dte0_atm_intraday_mid_curve",
                Channel::Dte0AtmMidCurve,
                "mean_mid",
            )
        }),
{
    law_valid_quotes_are_observed(
        start,
        calls,
        Channel::SpreadUsd,
    );
}

} // verus!
