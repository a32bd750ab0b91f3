//! PremiumDecayTracker: theta decay curve for 0DTE ATM options.
//!
//! Tracks how ATM 0DTE option premium decays throughout the trading day: the
//! empirical data for a 0DTE strategy's time decay budget.

use crate::event::{DayContext, OptionsEvent};
use crate::fraction::Fraction;
use crate::history::TrackerCall;
use crate::observation::{Channel, Effect, IvProblem, IvSolution};
use crate::report::{Row, Value};
use crate::session::DEFAULT_UTC_OFFSET;
use crate::OptionsTracker;
use vstd::prelude::*;

verus! {

/// Premiums of contracts at the money that expire today. A premium is kept as
/// the sum of bid and ask, that is twice the mid-price, in nanodollars.
pub struct PremiumDecayTracker {
    utc_offset: i32,
    /// The first and the last premium of the day, for decay measurement.
    day_first_call_mid: Option<i128>,
    day_last_call_mid: Option<i128>,
    day_first_put_mid: Option<i128>,
    day_last_put_mid: Option<i128>,
    /// In billionths; reserved for a comparison with theoretical decay.
    risk_free_rate: i64,
    n_days: u32,
    n_0dte_days: u32,
}

/// The first and the last premium that a day has seen of one kind of contract.
pub struct PremiumSpan {
    pub first: Option<i128>,
    pub last: Option<i128>,
}

impl PremiumSpan {
    /// No premium yet.
    pub open spec fn none() -> PremiumSpan {
        PremiumSpan { first: None, last: None }
    }

    /// Both premiums are there or neither, and they are sums of two prices.
    pub open spec fn valid(self) -> bool {
        &&& self.first is Some <==> self.last is Some
        &&& self.first is Some ==> 0 < self.first->0 <= 2 * i64::MAX
        &&& self.last is Some ==> 0 < self.last->0 <= 2 * i64::MAX
    }

    /// The span with one more premium.
    pub open spec fn with(self, premium: int) -> PremiumSpan {
        PremiumSpan {
            first: if self.first is None {
                Some(premium as i128)
            } else {
                self.first
            },
            last: Some(premium as i128),
        }
    }

    /// The decay over the span, in percent of the first premium.
    pub open spec fn decay_effects(self, channel: Channel) -> Seq<Effect> {
        match (self.first, self.last) {
            (Some(first), Some(last)) => seq![
                Effect::observed(
                    channel,
                    (Fraction { num: ((first - last) * 100) as i128, den: first as u128 }),
                ),
            ],
            _ => Seq::empty(),
        }
    }
}

/// The state of a [`PremiumDecayTracker`].
pub struct PremiumDecayState {
    pub utc_offset: i32,
    pub call: PremiumSpan,
    pub put: PremiumSpan,
    pub risk_free_rate: i64,
    pub n_days: nat,
    pub n_0dte_days: nat,
}

/// The event is a valid quote of a contract at the money that expires today.
pub open spec fn premium_quoted(event: OptionsEvent<'_>) -> bool {
    event.zero_dte() && event.atm() && event.valid_bbo()
}

/// Bid plus ask of an event.
pub open spec fn premium_of(event: OptionsEvent<'_>) -> int {
    event.bid_px->0 + event.ask_px->0
}

/// The premium in spreads: mid-price over spread.
pub open spec fn premium_over_spread(event: OptionsEvent<'_>) -> Fraction {
    Fraction {
        num: premium_of(event) as i128,
        den: (2 * (event.ask_px->0 - event.bid_px->0)) as u128,
    }
}

impl View for PremiumDecayTracker {
    type V = PremiumDecayState;

    closed spec fn view(&self) -> PremiumDecayState {
        PremiumDecayState {
            utc_offset: self.utc_offset,
            call: PremiumSpan { first: self.day_first_call_mid, last: self.day_last_call_mid },
            put: PremiumSpan { first: self.day_first_put_mid, last: self.day_last_put_mid },
            risk_free_rate: self.risk_free_rate,
            n_days: self.n_days as nat,
            n_0dte_days: self.n_0dte_days as nat,
        }
    }
}

impl PremiumDecayTracker {
    /// A tracker that has seen nothing, for an annual rate in billionths.
    pub fn new(risk_free_rate: i64) -> (r: Self)
        ensures
            r@ == (PremiumDecayState {
                utc_offset: DEFAULT_UTC_OFFSET,
                call: PremiumSpan::none(),
                put: PremiumSpan::none(),
                risk_free_rate,
                n_days: 0,
                n_0dte_days: 0,
            }),
            Self::valid(r@),
    {
        PremiumDecayTracker {
            utc_offset: DEFAULT_UTC_OFFSET,
            day_first_call_mid: None,
            day_last_call_mid: None,
            day_first_put_mid: None,
            day_last_put_mid: None,
            risk_free_rate,
            n_days: 0,
            n_0dte_days: 0,
        }
    }

    /// The annual rate in billionths.
    pub fn risk_free_rate(&self) -> (r: i64)
        ensures
            r == self@.risk_free_rate,
    {
        self.risk_free_rate
    }
}

/// The decay from a first to a last premium.
fn decay(channel: Channel, first: Option<i128>, last: Option<i128>) -> (effects: Vec<Effect>)
    requires
        (PremiumSpan { first, last }).valid(),
    ensures
        effects@ == (PremiumSpan { first, last }).decay_effects(channel),
{
    let mut effects: Vec<Effect> = Vec::new();
    if let (Some(a), Some(b)) = (first, last) {
        if a > 0 {
            effects.push(
                Effect::observe(channel, Fraction { num: (a - b) * 100, den: a as u128 }),
            );
        }
    }
    assert(effects@ =~= (PremiumSpan { first, last }).decay_effects(channel));
    effects
}

impl OptionsTracker for PremiumDecayTracker {
    open spec fn valid(s: PremiumDecayState) -> bool {
        s.call.valid() && s.put.valid() && s.n_0dte_days <= s.n_days
    }

    open spec fn room(s: PremiumDecayState) -> bool {
        s.n_days < u32::MAX
    }

    open spec fn begun(s: PremiumDecayState, ctx: DayContext) -> PremiumDecayState {
        PremiumDecayState { utc_offset: ctx.utc_offset, ..s }
    }

    open spec fn after_event(s: PremiumDecayState, event: OptionsEvent<'_>) -> PremiumDecayState {
        if !premium_quoted(event) {
            s
        } else if event.call() {
            PremiumDecayState { call: s.call.with(premium_of(event)), ..s }
        } else {
            PremiumDecayState { put: s.put.with(premium_of(event)), ..s }
        }
    }

    /// The premium and the premium in spreads enter the curves of their kind.
    open spec fn event_effects(s: PremiumDecayState, event: OptionsEvent<'_>) -> Seq<Effect> {
        let mid = event.mid_of()->0;
        let edge = premium_over_spread(event);
        let ts = event.ts_event;
        if !premium_quoted(event) {
            Seq::empty()
        } else if event.call() {
            seq![
                Effect::traced(Channel::CallPremiumCurve, ts, mid, s.utc_offset),
                Effect::traced(Channel::CallPremiumToSpreadCurve, ts, edge, s.utc_offset),
            ]
        } else {
            seq![
                Effect::traced(Channel::PutPremiumCurve, ts, mid, s.utc_offset),
                Effect::traced(Channel::PutPremiumToSpreadCurve, ts, edge, s.utc_offset),
            ]
        }
    }

    open spec fn after_day(s: PremiumDecayState) -> PremiumDecayState {
        PremiumDecayState {
            n_days: s.n_days + 1,
            n_0dte_days: if s.call.first is Some || s.put.first is Some {
                s.n_0dte_days + 1
            } else {
                s.n_0dte_days
            },
            ..s
        }
    }

    open spec fn day_effects(s: PremiumDecayState) -> Seq<Effect> {
        s.call.decay_effects(Channel::DailyCallDecayPct) + s.put.decay_effects(
            Channel::DailyPutDecayPct,
        )
    }

    open spec fn after_reset(s: PremiumDecayState) -> PremiumDecayState {
        PremiumDecayState { call: PremiumSpan::none(), put: PremiumSpan::none(), ..s }
    }

    open spec fn pending(s: PremiumDecayState) -> Seq<IvProblem> {
        Seq::empty()
    }

    open spec fn after_solution(
        s: PremiumDecayState,
        problem: IvProblem,
        solution: IvSolution,
    ) -> PremiumDecayState {
        s
    }

    open spec fn solution_effects(
        s: PremiumDecayState,
        problem: IvProblem,
        solution: IvSolution,
    ) -> Seq<Effect> {
        Seq::empty()
    }

    open spec fn report(s: PremiumDecayState) -> Seq<Row> {
        seq![
            Row::at("tracker", Value::Text("PremiumDecayTracker")),
            Row::at("n_days", Value::Count(s.n_days as u64)),
            Row::at("n_0dte_days", Value::Count(s.n_0dte_days as u64)),
            Row::at("daily_call_decay_pct", Value::MeanStdCount(Channel::DailyCallDecayPct)),
            Row::at("daily_put_decay_pct", Value::MeanStdCount(Channel::DailyPutDecayPct)),
            Row::curve_at("intraday_call_premium_curve", Channel::CallPremiumCurve, "mean_premium"),
            Row::curve_at("intraday_put_premium_curve", Channel::PutPremiumCurve, "mean_premium"),
            Row::curve_at(
                "intraday_call_premium_to_spread",
                Channel::CallPremiumToSpreadCurve,
                "premium_over_spread",
            ),
            Row::curve_at(
                "intraday_put_premium_to_spread",
                Channel::PutPremiumToSpreadCurve,
                "premium_over_spread",
            ),
        ]
    }

    open spec fn label() -> &'static str {
        "PremiumDecayTracker"
    }

    fn has_room(&self) -> bool {
        self.n_days < u32::MAX
    }

    fn begin_day(&mut self, ctx: &DayContext) {
        self.utc_offset = ctx.utc_offset;
    }

    fn process_event(&mut self, event: &OptionsEvent<'_>, regime: u8) -> Vec<Effect> {
        let mut effects: Vec<Effect> = Vec::new();
        if !event.is_zero_dte() || !event.is_atm() || !event.has_valid_bbo() {
            return effects;
        }
        if let (Some(bid), Some(ask)) = (event.bid_px, event.ask_px) {
            let sum: i128 = bid as i128 + ask as i128;
            let mid = Fraction { num: sum, den: 2_000_000_000 };
            let edge = Fraction { num: sum, den: (2 * (ask as i128 - bid as i128)) as u128 };
            let ts: i64 = event.ts_event;
            if event.is_call() {
                effects.push(Effect::trace(Channel::CallPremiumCurve, ts, mid, self.utc_offset));
                if self.day_first_call_mid.is_none() {
                    self.day_first_call_mid = Some(sum);
                }
                self.day_last_call_mid = Some(sum);
                effects.push(
                    Effect::trace(Channel::CallPremiumToSpreadCurve, ts, edge, self.utc_offset),
                );
            } else {
                effects.push(Effect::trace(Channel::PutPremiumCurve, ts, mid, self.utc_offset));
                if self.day_first_put_mid.is_none() {
                    self.day_first_put_mid = Some(sum);
                }
                self.day_last_put_mid = Some(sum);
                effects.push(
                    Effect::trace(Channel::PutPremiumToSpreadCurve, ts, edge, self.utc_offset),
                );
            }
        }
        assert(effects@ =~= Self::event_effects(old(self)@, *event));
        effects
    }

    fn end_of_day(&mut self, day_index: u32) -> Vec<Effect> {
        let had_0dte: bool = self.day_first_call_mid.is_some() || self.day_first_put_mid.is_some();
        let mut effects: Vec<Effect> = decay(
            Channel::DailyCallDecayPct,
            self.day_first_call_mid,
            self.day_last_call_mid,
        );
        let mut put_effects: Vec<Effect> = decay(
            Channel::DailyPutDecayPct,
            self.day_first_put_mid,
            self.day_last_put_mid,
        );
        effects.append(&mut put_effects);
        if had_0dte {
            self.n_0dte_days = self.n_0dte_days + 1;
        }
        self.n_days = self.n_days + 1;
        effects
    }

    fn reset_day(&mut self) {
        self.day_first_call_mid = None;
        self.day_last_call_mid = None;
        self.day_first_put_mid = None;
        self.day_last_put_mid = None;
    }

    fn awaits_solution(&self, problem: &IvProblem) -> bool {
        false
    }

    fn resolve(&mut self, problem: &IvProblem, solution: &IvSolution) -> Vec<Effect> {
        Vec::new()
    }

    fn finalize(&self) -> Vec<Row> {
        vec![
            Row::top("tracker", Value::Text("PremiumDecayTracker")),
            Row::top("n_days", Value::Count(self.n_days as u64)),
            Row::top("n_0dte_days", Value::Count(self.n_0dte_days as u64)),
            Row::top("daily_call_decay_pct", Value::MeanStdCount(Channel::DailyCallDecayPct)),
            Row::top("daily_put_decay_pct", Value::MeanStdCount(Channel::DailyPutDecayPct)),
            Row::curve("intraday_call_premium_curve", Channel::CallPremiumCurve, "mean_premium"),
            Row::curve("intraday_put_premium_curve", Channel::PutPremiumCurve, "mean_premium"),
            Row::curve(
                "intraday_call_premium_to_spread",
                Channel::CallPremiumToSpreadCurve,
                "premium_over_spread",
            ),
            Row::curve(
                "intraday_put_premium_to_spread",
                Channel::PutPremiumToSpreadCurve,
                "premium_over_spread",
            ),
        ]
    }

    fn name(&self) -> &'static str {
        "PremiumDecayTracker"
    }
}

/// The statistics that an event enters.
pub open spec fn feeds(channel: Channel, event: OptionsEvent<'_>) -> bool {
    premium_quoted(event) && match channel {
        Channel::CallPremiumCurve | Channel::CallPremiumToSpreadCurve => event.call(),
        Channel::PutPremiumCurve | Channel::PutPremiumToSpreadCurve => !event.call(),
        _ => false,
    }
}

/// The statistics that a day enters on which a kind was quoted.
pub open spec fn daily(s: PremiumDecayState, channel: Channel) -> bool {
    match channel {
        Channel::DailyCallDecayPct => s.call.first is Some && s.call.last is Some,
        Channel::DailyPutDecayPct => s.put.first is Some && s.put.last is Some,
        _ => false,
    }
}

/// An event is observed once in each statistic that it feeds.
proof fn lemma_event_observations(s: PremiumDecayState, e: OptionsEvent<'_>, channel: Channel)
    ensures
        crate::history::observations(PremiumDecayTracker::event_effects(s, e), channel)
            == crate::history::one_if(feeds(channel, e)),
{
    reveal_with_fuel(crate::history::observed_first, 3);
}

/// What the end of a day adds to the observations.
proof fn lemma_day_observations(s: PremiumDecayState, channel: Channel)
    ensures
        crate::history::observations(PremiumDecayTracker::day_effects(s), channel)
            == crate::history::one_if(daily(s, channel)),
{
    reveal_with_fuel(crate::history::observed_first, 3);
}

/// Over any history, each curve has one observation for every quote of its kind,
/// and each decay has one for every day with quotes of its kind. Such days are
/// those that are counted.
pub proof fn law_premiums_are_observed<'a>(
    s: PremiumDecayState,
    calls: Seq<TrackerCall<'a>>,
    channel: Channel,
)
    ensures
        ({
            let after = crate::history::after_history::<PremiumDecayTracker>(s, calls);
            let effects = crate::history::history_effects::<PremiumDecayTracker>(s, calls);
            let events = crate::history::count_events(
                calls,
                |e: OptionsEvent<'a>| feeds(channel, e),
            );
            let days = crate::history::count_days_with::<PremiumDecayTracker>(
                s,
                calls,
                |t: PremiumDecayState| daily(t, channel),
            );
            &&& crate::history::observations(effects, channel) == events + days
            &&& after.n_days == s.n_days + crate::history::count_days(calls)
            &&& after.n_0dte_days == s.n_0dte_days + crate::history::count_days_with::<
                PremiumDecayTracker,
            >(s, calls, |t: PremiumDecayState| t.call.first is Some || t.put.first is Some)
        }),
    decreases calls.len(),
{
    if calls.len() == 0 {
        crate::history::lemma_no_observations(channel);
    } else {
        let rest = crate::history::after_history::<PremiumDecayTracker>(s, calls.drop_last());
        law_premiums_are_observed(s, calls.drop_last(), channel);
        crate::history::lemma_last_call::<PremiumDecayTracker>(s, calls, channel);
        match calls.last() {
            TrackerCall::Event(event) => lemma_event_observations(rest, event, channel),
            TrackerCall::End => lemma_day_observations(rest, channel),
            _ => {},
        }
    }
}

/// A quote of a contract at the money that expires on its day, with the ask
/// above a positive bid, by its fields.
pub open spec fn quote_at_the_money(
    e: OptionsEvent<'_>,
    kind: crate::contract::ContractType,
) -> bool {
    &&& e.dte == 0
    &&& e.moneyness == crate::options_math::moneyness::Moneyness::Atm
    &&& e.bid_px is Some && e.ask_px is Some && 0 < e.bid_px->0 < e.ask_px->0
    &&& e.contract.contract_type == kind
}

/// A premium, as bid plus ask, of the first or the last quote.
pub open spec fn premium_quoted_by(e: Option<OptionsEvent<'_>>) -> Option<int> {
    match e {
        Some(quote) => Some(quote.bid_px->0 + quote.ask_px->0),
        None => None,
    }
}

/// A premium that may be there, as a number.
pub open spec fn number_of(premium: Option<i128>) -> Option<int> {
    match premium {
        Some(p) => Some(p as int),
        None => None,
    }
}

/// Over the calls since the last reset, the span of a kind goes from the premium
/// of the first quote of that kind to the premium of the last one, and neither
/// is there where no such quote came.
pub proof fn law_span_goes_from_the_first_quote_to_the_last<'a>(
    s: PremiumDecayState,
    calls: Seq<TrackerCall<'a>>,
)
    requires
        crate::history::within_a_day(calls),
    ensures
        ({
            let after = crate::history::after_history::<PremiumDecayTracker>(
                PremiumDecayTracker::after_reset(s),
                calls,
            );
            let call = |e: OptionsEvent<'a>|
                quote_at_the_money(e, crate::contract::ContractType::Call);
            let put = |e: OptionsEvent<'a>|
                quote_at_the_money(e, crate::contract::ContractType::Put);
            &&& number_of(after.call.first) == premium_quoted_by(
                crate::history::first_event(calls, call),
            )
            &&& number_of(after.call.last) == premium_quoted_by(
                crate::history::last_event(calls, call),
            )
            &&& number_of(after.put.first) == premium_quoted_by(
                crate::history::first_event(calls, put),
            )
            &&& number_of(after.put.last) == premium_quoted_by(
                crate::history::last_event(calls, put),
            )
            &&& after.call.first is Some <==> after.call.last is Some
            &&& after.put.first is Some <==> after.put.last is Some
        }),
    decreases calls.len(),
{
    if calls.len() > 0 {
        crate::history::lemma_within_a_day(calls);
        law_span_goes_from_the_first_quote_to_the_last(s, calls.drop_last());
    }
}

/// At the end of a day, the decay of a kind that was quoted since the last reset
/// is the fall of the premium from the first quote to the last, in percent of
/// the first. A kind that was not quoted has none.
pub proof fn law_decay_is_from_the_first_quote_to_the_last<'a>(
    s: PremiumDecayState,
    calls: Seq<TrackerCall<'a>>,
)
    requires
        crate::history::within_a_day(calls),
    ensures
        ({
            let after = crate::history::after_history::<PremiumDecayTracker>(
                PremiumDecayTracker::after_reset(s),
                calls,
            );
            let effects = PremiumDecayTracker::day_effects(after);
            let call = |e: OptionsEvent<'a>|
                quote_at_the_money(e, crate::contract::ContractType::Call);
            let put = |e: OptionsEvent<'a>|
                quote_at_the_money(e, crate::contract::ContractType::Put);
            let c0 = premium_quoted_by(crate::history::first_event(calls, call));
            let c1 = premium_quoted_by(crate::history::last_event(calls, call));
            let p0 = premium_quoted_by(crate::history::first_event(calls, put));
            let p1 = premium_quoted_by(crate::history::last_event(calls, put));
            &&& crate::history::observes(
                effects,
                Channel::DailyCallDecayPct,
                c0 is Some,
                100 * (c0->0 - c1->0),
                c0->0,
            )
            &&& crate::history::observes(
                effects,
                Channel::DailyPutDecayPct,
                p0 is Some,
                100 * (p0->0 - p1->0),
                p0->0,
            )
        }),
{
    let after = crate::history::after_history::<PremiumDecayTracker>(
        PremiumDecayTracker::after_reset(s),
        calls,
    );
    law_span_goes_from_the_first_quote_to_the_last(s, calls);
    lemma_spans_are_sums(s, calls);
    lemma_day_observations(after, Channel::DailyCallDecayPct);
    lemma_day_observations(after, Channel::DailyPutDecayPct);
}

/// The premiums of a span are sums of two positive prices.
proof fn lemma_spans_are_sums(s: PremiumDecayState, calls: Seq<TrackerCall<'_>>)
    requires
        crate::history::within_a_day(calls),
    ensures
        ({
            let after = crate::history::after_history::<PremiumDecayTracker>(
                PremiumDecayTracker::after_reset(s),
                calls,
            );
            after.call.valid() && after.put.valid()
        }),
    decreases calls.len(),
{
    if calls.len() > 0 {
        crate::history::lemma_within_a_day(calls);
        lemma_spans_are_sums(s, calls.drop_last());
    }
}

/// After a quote that counts, the premium of its kind is that of the quote, the
/// first one stays unless it was the first, and the other kind is left alone.
/// What such a quote contributes is its mid-price, and its mid-price in spreads,
/// at its time.
pub proof fn law_premium_of_a_quote(s: PremiumDecayState, e: OptionsEvent<'_>)
    ensures
        ({
            let after = PremiumDecayTracker::after_event(s, e);
            let effects = PremiumDecayTracker::event_effects(s, e);
            let (call, put) = (
                quote_at_the_money(e, crate::contract::ContractType::Call),
                quote_at_the_money(e, crate::contract::ContractType::Put),
            );
            let (sum, gap) = (e.bid_px->0 + e.ask_px->0, e.ask_px->0 - e.bid_px->0);
            let (ts, at) = (e.ts_event, s.utc_offset);
            &&& call ==> after.call.last == Some(sum as i128) && after.put == s.put
                && after.call.first == if s.call.first is Some {
                s.call.first
            } else {
                Some(sum as i128)
            }
            &&& put ==> after.put.last == Some(sum as i128) && after.call == s.call
                && after.put.first == if s.put.first is Some {
                s.put.first
            } else {
                Some(sum as i128)
            }
            &&& !call && !put ==> after == s
            &&& crate::history::traces(
                effects,
                Channel::CallPremiumCurve,
                call,
                ts,
                at,
                sum,
                2_000_000_000,
            )
            &&& crate::history::traces(
                effects,
                Channel::PutPremiumCurve,
                put,
                ts,
                at,
                sum,
                2_000_000_000,
            )
            &&& crate::history::traces(
                effects,
                Channel::CallPremiumToSpreadCurve,
                call,
                ts,
                at,
                sum,
                2 * gap,
            )
            &&& crate::history::traces(
                effects,
                Channel::PutPremiumToSpreadCurve,
                put,
                ts,
                at,
                sum,
                2 * gap,
            )
        }),
{
    crate::event::law_accessors_by_the_prices(e);
    lemma_event_observations(s, e, Channel::CallPremiumCurve);
    lemma_event_observations(s, e, Channel::PutPremiumCurve);
    lemma_event_observations(s, e, Channel::CallPremiumToSpreadCurve);
    lemma_event_observations(s, e, Channel::PutPremiumToSpreadCurve);
}

/// Over any history, points are traced under the UTC offset of the last day that
/// began.
pub proof fn law_premium_offset_is_that_of_the_day(
    s: PremiumDecayState,
    calls: Seq<TrackerCall<'_>>,
)
    ensures
        crate::history::after_history::<PremiumDecayTracker>(s, calls).utc_offset
            == crate::history::offset_after(s.utc_offset, calls),
    decreases calls.len(),
{
    if calls.len() > 0 {
        law_premium_offset_is_that_of_the_day(s, calls.drop_last());
    }
}

/// What a tracker reports after any history: the number of days and of those
/// with quotes at the money that expire on them, and the statistics under their
/// names.
pub proof fn law_premium_report_is_that_of_the_history<'a>(
    start: PremiumDecayState,
    calls: Seq<TrackerCall<'a>>,
)
    ensures
        ({
            let s = crate::history::after_history::<PremiumDecayTracker>(start, calls);
            let rows = PremiumDecayTracker::report(s);
            let days = start.n_days + crate::history::count_days(calls);
            let own_days = start.n_0dte_days + crate::history::count_days_with::<
                PremiumDecayTracker,
            >(
                start,
                calls,
                |t: PremiumDecayState| t.call.first is Some || t.put.first is Some,
            );
            &&& rows.len() == 9
            &&& rows[0] == Row::at("tracker", Value::Text("PremiumDecayTracker"))
            &&& rows[1] == Row::at("n_days", Value::Count(days as u64))
            &&& rows[2] == Row::at("n_0dte_days", Value::Count(own_days as u64))
            &&& rows[3] == Row::at(
                "daily_call_decay_pct",
                Value::MeanStdCount(Channel::DailyCallDecayPct),
            )
            &&& rows[4] == Row::at(
                "daily_put_decay_pct",
                Value::MeanStdCount(Channel::DailyPutDecayPct),
            )
            &&& rows[5] == Row::curve_at(
                "intraday_call_premium_curve",
                Channel::CallPremiumCurve,
                "mean_premium",
            )
            &&& rows[6] == Row::curve_at(
                "intraday_put_premium_curve",
                Channel::PutPremiumCurve,
                "mean_premium",
            )
            &&& rows[7] == Row::curve_at(
                "intraday_call_premium_to_spread",
                Channel::CallPremiumToSpreadCurve,
                "premium_over_spread",
            )
            &&& rows[8] == Row::curve_at(
                "intraday_put_premium_to_spread",
                Channel::PutPremiumToSpreadCurve,
                "premium_over_spread",
            )
        }),
{
    law_premiums_are_observed(
        start,
        calls,
        Channel::CallPremiumCurve,
    );
}

} // verus!
