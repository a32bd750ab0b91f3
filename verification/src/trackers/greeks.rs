//! GreeksTracker: implied volatility and Greek computation for ATM options.
//!
//! Chooses the ATM quotes whose implied volatility is computed, and sorts the
//! volatilities by DTE bucket and the Greeks of 0DTE ATM contracts into their
//! distributions. The volatility and the Greeks themselves are solved for
//! outside: `process_event` states the problem and `resolve` takes the answer.

use crate::event::{DayContext, OptionsEvent};
use crate::fraction::Fraction;
use crate::history::TrackerCall;
use crate::observation::{Channel, Effect, IvProblem, IvSolution, Sample};
use crate::report::{share, Row, Value};
use crate::report_utils::dte_bucket_index;
use crate::session::{time_to_expiry, DEFAULT_UTC_OFFSET};
use crate::{OptionsTracker, COUNTER_LIMIT};
use vstd::prelude::*;

verus! {

/// Every how many qualifying ATM quotes the volatility is computed, by default.
pub const DEFAULT_IV_SAMPLE_INTERVAL: u64 = 100;

/// The IEEE 754 binary64 encoding of 5, the default cap on a volatility.
pub const DEFAULT_MAX_IV: u64 = 0x4014_0000_0000_0000;

/// The IEEE 754 binary64 encoding of infinity. The encodings of the finite
/// numbers that are not negative are those below it, and they are ordered as
/// the numbers are.
pub const INFINITY_BITS: u64 = 0x7FF0_0000_0000_0000;

/// The weight of the sign bit in an IEEE 754 binary64 encoding.
pub const SIGN_BIT: u64 = 0x8000_0000_0000_0000;

/// The encoding is that of a finite number.
pub open spec fn finite_bits(bits: u64) -> bool {
    bits % SIGN_BIT < INFINITY_BITS
}

/// Whether the encoding is that of a finite number.
pub fn is_finite(bits: u64) -> (r: bool)
    ensures
        r == finite_bits(bits),
{
    bits % SIGN_BIT < INFINITY_BITS
}

/// Sampled volatilities of ATM quotes.
pub struct GreeksTracker {
    utc_offset: i32,
    reservoir_capacity: usize,
    /// In billionths.
    risk_free_rate: i64,
    /// Counts every qualifying ATM event, over all days.
    atm_quote_count: u64,
    /// Qualifying ATM events since the last one sampled, modulo the interval.
    atm_sample_counter: u64,
    /// How often to compute IV (every Nth qualifying ATM quote).
    iv_sample_interval: u64,
    /// Problems that were stated and are not answered.
    iv_pending: Vec<IvProblem>,
    iv_computed: u64,
    iv_failed: u64,
    /// Cap on a volatility, by its IEEE 754 binary64 encoding.
    max_iv: u64,
    n_days: u32,
}

/// The state of a [`GreeksTracker`].
pub struct GreeksState {
    pub utc_offset: i32,
    pub reservoir_capacity: usize,
    pub risk_free_rate: i64,
    pub atm_quote_count: nat,
    pub atm_sample_counter: nat,
    pub iv_sample_interval: nat,
    pub iv_pending: Seq<IvProblem>,
    pub iv_computed: nat,
    pub iv_failed: nat,
    pub max_iv: u64,
    pub n_days: nat,
}

impl GreeksState {
    /// Before the first quote, so that the first one is sampled.
    pub open spec fn start(
        risk_free_rate: i64,
        reservoir_capacity: usize,
        iv_sample_interval: nat,
    ) -> GreeksState {
        GreeksState {
            utc_offset: DEFAULT_UTC_OFFSET,
            reservoir_capacity,
            risk_free_rate,
            atm_quote_count: 0,
            atm_sample_counter: (iv_sample_interval - 1) as nat,
            iv_sample_interval,
            iv_pending: Seq::empty(),
            iv_computed: 0,
            iv_failed: 0,
            max_iv: DEFAULT_MAX_IV,
            n_days: 0,
        }
    }

    /// The sampling counter after one more qualifying quote.
    pub open spec fn next_sample_counter(self) -> nat {
        if self.atm_sample_counter + 1 == self.iv_sample_interval {
            0
        } else {
            self.atm_sample_counter + 1
        }
    }

    /// The volatility lies strictly between zero and the cap.
    pub open spec fn accepts(self, solution: IvSolution) -> bool {
        solution.sigma is Some && 0 < solution.sigma->0 < self.max_iv
    }

    /// What is to be solved for an event.
    pub open spec fn problem(self, event: OptionsEvent<'_>) -> IvProblem {
        IvProblem {
            mid: event.mid_of()->0,
            underlying_price: event.underlying_price,
            strike: event.contract.strike,
            years: crate::session::years_to_expiry(
                event.dte as int,
                self.utc_offset as int,
                crate::session::time_of_day(event.ts_event as int),
            ),
            risk_free_rate: self.risk_free_rate,
            is_call: event.call(),
            dte: event.dte,
            ts_event: event.ts_event,
            utc_offset: self.utc_offset,
        }
    }

    /// The state after an answer: its problem is not pending any more.
    pub open spec fn answered(self, problem: IvProblem, solution: IvSolution) -> GreeksState {
        let iv_pending = self.iv_pending.remove_value(problem);
        if self.accepts(solution) {
            GreeksState { iv_pending, iv_computed: self.iv_computed + 1, ..self }
        } else {
            GreeksState { iv_pending, iv_failed: self.iv_failed + 1, ..self }
        }
    }

    /// What an answer contributes: the volatility to its DTE bucket and, for a
    /// contract that expires today, to the distribution of its kind and the
    /// curve, with those of the Greeks that are finite.
    pub open spec fn answer_effects(self, problem: IvProblem, solution: IvSolution) -> Seq<
        Effect,
    > {
        let sigma = Sample::Binary64(solution.sigma->0);
        if !self.accepts(solution) {
            Seq::empty()
        } else {
            seq![
                Effect::Observe {
                    channel: Channel::IvByDte(
                        crate::report_utils::bucket_of(problem.dte as int) as usize,
                    ),
                    value: sigma,
                },
            ] + if problem.dte != 0 {
                Seq::empty()
            } else {
                seq![
                    Effect::Observe {
                        channel: if problem.is_call {
                            Channel::Dte0AtmCallIv
                        } else {
                            Channel::Dte0AtmPutIv
                        },
                        value: sigma,
                    },
                    Effect::Trace {
                        channel: Channel::Dte0AtmIvCurve,
                        ts_event: problem.ts_event,
                        value: sigma,
                        utc_offset: problem.utc_offset,
                    },
                ] + greek_effects(
                    if problem.is_call {
                        Channel::Dte0AtmDeltaCall
                    } else {
                        Channel::Dte0AtmDeltaPut
                    },
                    solution.delta,
                ) + greek_effects(Channel::Dte0AtmGamma, solution.gamma) + greek_effects(
                    Channel::Dte0AtmVega,
                    solution.vega,
                )
            }
        }
    }
}

/// A Greek enters its distribution where it is finite.
pub open spec fn greek_effects(channel: Channel, bits: u64) -> Seq<Effect> {
    if finite_bits(bits) {
        seq![Effect::Observe { channel, value: Sample::Binary64(bits) }]
    } else {
        Seq::empty()
    }
}

/// The event is a valid quote at the money, with a positive underlying price.
pub open spec fn qualifies(event: OptionsEvent<'_>) -> bool {
    event.atm() && event.valid_bbo() && event.underlying_price.num > 0
}

impl View for GreeksTracker {
    type V = GreeksState;

    closed spec fn view(&self) -> GreeksState {
        GreeksState {
            utc_offset: self.utc_offset,
            reservoir_capacity: self.reservoir_capacity,
            risk_free_rate: self.risk_free_rate,
            atm_quote_count: self.atm_quote_count as nat,
            atm_sample_counter: self.atm_sample_counter as nat,
            iv_sample_interval: self.iv_sample_interval as nat,
            iv_pending: self.iv_pending@,
            iv_computed: self.iv_computed as nat,
            iv_failed: self.iv_failed as nat,
            max_iv: self.max_iv,
            n_days: self.n_days as nat,
        }
    }
}

impl GreeksTracker {
    /// A tracker that has seen nothing and samples every hundredth quote, for an
    /// annual rate in billionths.
    pub fn new(risk_free_rate: i64, reservoir_capacity: usize) -> (r: Self)
        ensures
            r@ == GreeksState::start(
                risk_free_rate,
                reservoir_capacity,
                DEFAULT_IV_SAMPLE_INTERVAL as nat,
            ),
            Self::valid(r@),
    {
        Self::with_sample_interval(
            risk_free_rate,
            reservoir_capacity,
            DEFAULT_IV_SAMPLE_INTERVAL,
        )
    }

    /// A tracker that samples every `iv_sample_interval`-th quote, or every
    /// quote where that is zero.
    pub fn with_sample_interval(
        risk_free_rate: i64,
        reservoir_capacity: usize,
        iv_sample_interval: u64,
    ) -> (r: Self)
        ensures
            r@ == GreeksState::start(
                risk_free_rate,
                reservoir_capacity,
                if iv_sample_interval > 0 {
                    iv_sample_interval as nat
                } else {
                    1
                },
            ),
            Self::valid(r@),
    {
        let interval: u64 = if iv_sample_interval > 0 {
            iv_sample_interval
        } else {
            1
        };
        GreeksTracker {
            utc_offset: DEFAULT_UTC_OFFSET,
            reservoir_capacity,
            risk_free_rate,
            atm_quote_count: 0,
            atm_sample_counter: interval - 1,
            iv_sample_interval: interval,
            iv_pending: Vec::new(),
            iv_computed: 0,
            iv_failed: 0,
            max_iv: DEFAULT_MAX_IV,
            n_days: 0,
        }
    }

    /// Sets the cap on a volatility, by its IEEE 754 binary64 encoding.
    pub fn set_max_iv(&mut self, max_iv: u64)
        requires
            Self::valid(old(self)@),
            max_iv <= INFINITY_BITS,
        ensures
            final(self)@ == (GreeksState { max_iv, ..old(self)@ }),
            Self::valid(final(self)@),
    {
        self.max_iv = max_iv;
    }

    /// The sample size of the distributions.
    pub fn reservoir_capacity(&self) -> (r: usize)
        ensures
            r == self@.reservoir_capacity,
    {
        self.reservoir_capacity
    }
}

/// The index of a problem among others, if it is there.
fn find_problem(problems: &Vec<IvProblem>, problem: &IvProblem) -> (r: Option<usize>)
    ensures
        r is Some <==> problems@.contains(*problem),
        r matches Some(i) ==> i < problems@.len() && problems@.index_of_first(*problem) == Some(
            i as int,
        ),
{
    let mut i: usize = 0;
    while i < problems.len()
        invariant
            i <= problems@.len(),
            forall|j: int| 0 <= j < i ==> problems@[j] != *problem,
        decreases problems@.len() - i,
    {
        if problems[i] == *problem {
            proof {
                assert(problems@[i as int] == *problem);
                problems@.index_of_first_ensures(*problem);
            }
            return Some(i);
        }
        i = i + 1;
    }
    None
}

impl OptionsTracker for GreeksTracker {
    /// The problems stated are answered or pending, and no more than the
    /// quotes; the sampling counter is below the interval; the cap is not
    /// beyond infinity.
    open spec fn valid(s: GreeksState) -> bool {
        &&& s.iv_pending.len() + s.iv_computed + s.iv_failed <= s.atm_quote_count <= u64::MAX
        &&& s.atm_sample_counter < s.iv_sample_interval <= u64::MAX
        &&& s.max_iv <= INFINITY_BITS
    }

    open spec fn room(s: GreeksState) -> bool {
        s.atm_quote_count <= COUNTER_LIMIT && s.n_days < u32::MAX
    }

    open spec fn begun(s: GreeksState, ctx: DayContext) -> GreeksState {
        GreeksState { utc_offset: ctx.utc_offset, ..s }
    }

    open spec fn after_event(s: GreeksState, event: OptionsEvent<'_>) -> GreeksState {
        if !qualifies(event) {
            s
        } else {
            GreeksState {
                atm_quote_count: s.atm_quote_count + 1,
                atm_sample_counter: s.next_sample_counter(),
                iv_pending: if s.next_sample_counter() == 0 {
                    s.iv_pending.push(s.problem(event))
                } else {
                    s.iv_pending
                },
                ..s
            }
        }
    }

    /// A quote on which the sampling counter comes round states its problem.
    open spec fn event_effects(s: GreeksState, event: OptionsEvent<'_>) -> Seq<Effect> {
        if qualifies(event) && s.next_sample_counter() == 0 {
            seq![Effect::SolveIv(s.problem(event))]
        } else {
            Seq::empty()
        }
    }

    open spec fn after_day(s: GreeksState) -> GreeksState {
        GreeksState { n_days: s.n_days + 1, ..s }
    }

    open spec fn day_effects(s: GreeksState) -> Seq<Effect> {
        Seq::empty()
    }

    /// The sampling counter starts afresh, so that the first qualifying quote
    /// of the next day is sampled.
    open spec fn after_reset(s: GreeksState) -> GreeksState {
        GreeksState { atm_sample_counter: (s.iv_sample_interval - 1) as nat, ..s }
    }

    open spec fn pending(s: GreeksState) -> Seq<IvProblem> {
        s.iv_pending
    }

    open spec fn after_solution(
        s: GreeksState,
        problem: IvProblem,
        solution: IvSolution,
    ) -> GreeksState {
        if s.iv_pending.contains(problem) {
            s.answered(problem, solution)
        } else {
            s
        }
    }

    open spec fn solution_effects(
        s: GreeksState,
        problem: IvProblem,
        solution: IvSolution,
    ) -> Seq<Effect> {
        if s.iv_pending.contains(problem) {
            s.answer_effects(problem, solution)
        } else {
            Seq::empty()
        }
    }

    open spec fn report(s: GreeksState) -> Seq<Row> {
        seq![
            Row::at("tracker", Value::Text("GreeksTracker")),
            Row::at("n_days", Value::Count(s.n_days as u64)),
            Row::at("atm_quote_count", Value::Count(s.atm_quote_count as u64)),
            Row::at("iv_sample_interval", Value::Count(s.iv_sample_interval as u64)),
            Row::at("iv_computed", Value::Count(s.iv_computed as u64)),
            Row::at("iv_failed", Value::Count(s.iv_failed as u64)),
            Row::at(
                "iv_success_rate",
                crate::report::share_of(s.iv_computed, s.iv_computed + s.iv_failed, 1),
            ),
            Row::at("dte0_atm_call_iv", Value::Summary(Channel::Dte0AtmCallIv)),
            Row::at("dte0_atm_put_iv", Value::Summary(Channel::Dte0AtmPutIv)),
            Row::at("dte0_atm_delta_call", Value::Summary(Channel::Dte0AtmDeltaCall)),
            Row::at("dte0_atm_delta_put", Value::Summary(Channel::Dte0AtmDeltaPut)),
            Row::at("dte0_atm_gamma", Value::Summary(Channel::Dte0AtmGamma)),
            Row::at("dte0_atm_vega", Value::Summary(Channel::Dte0AtmVega)),
            Row::below("iv_by_dte", "0dte", Value::MeanStdCount(Channel::IvByDte(0))),
            Row::below("iv_by_dte", "1dte", Value::MeanStdCount(Channel::IvByDte(1))),
            Row::below("iv_by_dte", "2_7dte", Value::MeanStdCount(Channel::IvByDte(2))),
            Row::below("iv_by_dte", "other", Value::MeanStdCount(Channel::IvByDte(3))),
            Row::at(
                "intraday_dte0_atm_iv_curve",
                Value::Curve {
                    channel: Channel::Dte0AtmIvCurve,
                    mean_key: "mean_iv",
                    std_key: Some("std_iv"),
                },
            ),
        ]
    }

    open spec fn label() -> &'static str {
        "GreeksTracker"
    }

    fn has_room(&self) -> bool {
        self.atm_quote_count <= COUNTER_LIMIT && self.n_days < u32::MAX
    }

    fn begin_day(&mut self, ctx: &DayContext) {
        self.utc_offset = ctx.utc_offset;
    }

    fn process_event(&mut self, event: &OptionsEvent<'_>, regime: u8) -> Vec<Effect> {
        let mut effects: Vec<Effect> = Vec::new();
        if !event.is_atm() || !event.has_valid_bbo() || event.underlying_price.num <= 0 {
            return effects;
        }
        let mid: Fraction = match event.option_mid() {
            Some(mid) => mid,
            None => {
                return effects;
            },
        };
        // Solving for a volatility is expensive, so only a sample is taken.
        self.atm_quote_count = self.atm_quote_count + 1;
        if self.atm_sample_counter + 1 < self.iv_sample_interval {
            self.atm_sample_counter = self.atm_sample_counter + 1;
            return effects;
        }
        self.atm_sample_counter = 0;
        let problem = IvProblem {
            mid,
            underlying_price: event.underlying_price,
            strike: event.contract.strike,
            years: time_to_expiry(event.dte, self.utc_offset, event.ts_event),
            risk_free_rate: self.risk_free_rate,
            is_call: event.is_call(),
            dte: event.dte,
            ts_event: event.ts_event,
            utc_offset: self.utc_offset,
        };
        self.iv_pending.push(problem);
        effects.push(Effect::SolveIv(problem));
        assert(effects@ =~= Self::event_effects(old(self)@, *event));
        effects
    }

    fn end_of_day(&mut self, day_index: u32) -> Vec<Effect> {
        self.n_days = self.n_days + 1;
        Vec::new()
    }

    fn reset_day(&mut self) {
        self.atm_sample_counter = self.iv_sample_interval - 1;
    }

    fn awaits_solution(&self, problem: &IvProblem) -> bool {
        find_problem(&self.iv_pending, problem).is_some()
    }

    fn resolve(&mut self, problem: &IvProblem, solution: &IvSolution) -> Vec<Effect> {
        let ghost before = self@;
        let mut effects: Vec<Effect> = Vec::new();
        match find_problem(&self.iv_pending, problem) {
            Some(i) => {
                self.iv_pending.remove(i);
            },
            None => {
                return effects;
            },
        }
        assert(self.iv_pending@ =~= before.iv_pending.remove_value(*problem));
        let sigma: u64 = match solution.sigma {
            Some(bits) => bits,
            None => 0,
        };
        if sigma == 0 || sigma >= self.max_iv {
            self.iv_failed = self.iv_failed + 1;
            return effects;
        }
        self.iv_computed = self.iv_computed + 1;
        let value = Sample::Binary64(sigma);
        let bucket: usize = dte_bucket_index(problem.dte);
        effects.push(Effect::Observe { channel: Channel::IvByDte(bucket), value });
        if problem.dte == 0 {
            let iv_channel: Channel = if problem.is_call {
                Channel::Dte0AtmCallIv
            } else {
                Channel::Dte0AtmPutIv
            };
            effects.push(Effect::Observe { channel: iv_channel, value });
            effects.push(
                Effect::Trace {
                    channel: Channel::Dte0AtmIvCurve,
                    ts_event: problem.ts_event,
                    value,
                    utc_offset: problem.utc_offset,
                },
            );
            let delta_channel: Channel = if problem.is_call {
                Channel::Dte0AtmDeltaCall
            } else {
                Channel::Dte0AtmDeltaPut
            };
            if is_finite(solution.delta) {
                effects.push(
                    Effect::Observe {
                        channel: delta_channel,
                        value: Sample::Binary64(solution.delta),
                    },
                );
            }
            if is_finite(solution.gamma) {
                effects.push(
                    Effect::Observe {
                        channel: Channel::Dte0AtmGamma,
                        value: Sample::Binary64(solution.gamma),
                    },
                );
            }
            if is_finite(solution.vega) {
                effects.push(
                    Effect::Observe {
                        channel: Channel::Dte0AtmVega,
                        value: Sample::Binary64(solution.vega),
                    },
                );
            }
        }
        assert(effects@ =~= before.answer_effects(*problem, *solution));
        effects
    }

    fn finalize(&self) -> Vec<Row> {
        vec![
            Row::top("tracker", Value::Text("GreeksTracker")),
            Row::top("n_days", Value::Count(self.n_days as u64)),
            Row::top("atm_quote_count", Value::Count(self.atm_quote_count)),
            Row::top("iv_sample_interval", Value::Count(self.iv_sample_interval)),
            Row::top("iv_computed", Value::Count(self.iv_computed)),
            Row::top("iv_failed", Value::Count(self.iv_failed)),
            Row::top(
                "iv_success_rate",
                share(self.iv_computed, self.iv_computed + self.iv_failed, 1),
            ),
            Row::top("dte0_atm_call_iv", Value::Summary(Channel::Dte0AtmCallIv)),
            Row::top("dte0_atm_put_iv", Value::Summary(Channel::Dte0AtmPutIv)),
            Row::top("dte0_atm_delta_call", Value::Summary(Channel::Dte0AtmDeltaCall)),
            Row::top("dte0_atm_delta_put", Value::Summary(Channel::Dte0AtmDeltaPut)),
            Row::top("dte0_atm_gamma", Value::Summary(Channel::Dte0AtmGamma)),
            Row::top("dte0_atm_vega", Value::Summary(Channel::Dte0AtmVega)),
            Row::nested("iv_by_dte", "0dte", Value::MeanStdCount(Channel::IvByDte(0))),
            Row::nested("iv_by_dte", "1dte", Value::MeanStdCount(Channel::IvByDte(1))),
            Row::nested("iv_by_dte", "2_7dte", Value::MeanStdCount(Channel::IvByDte(2))),
            Row::nested("iv_by_dte", "other", Value::MeanStdCount(Channel::IvByDte(3))),
            Row::top(
                "intraday_dte0_atm_iv_curve",
                Value::Curve {
                    channel: Channel::Dte0AtmIvCurve,
                    mean_key: "mean_iv",
                    std_key: Some("std_iv"),
                },
            ),
        ]
    }

    fn name(&self) -> &'static str {
        "GreeksTracker"
    }
}

/// The state after a sequence of events.
pub open spec fn after_events(s: GreeksState, events: Seq<OptionsEvent<'_>>) -> GreeksState
    decreases events.len(),
{
    if events.len() == 0 {
        s
    } else {
        GreeksTracker::after_event(after_events(s, events.drop_last()), events.last())
    }
}

/// The first qualifying quote of each day is sampled: after a day-level reset,
/// whatever came before, it states its problem.
pub proof fn law_first_quote_of_a_day_is_sampled(s: GreeksState, event: OptionsEvent<'_>)
    requires
        GreeksTracker::valid(s),
        qualifies(event),
    ensures
        ({
            let day = GreeksTracker::after_reset(s);
            GreeksTracker::event_effects(day, event) == seq![Effect::SolveIv(day.problem(event))]
        }),
{
}

/// From the start of a day every N-th qualifying quote is sampled, beginning
/// with the first: of `n` quotes, one for each interval that they begin.
pub proof fn law_every_nth_quote_is_sampled(s: GreeksState, events: Seq<OptionsEvent<'_>>)
    requires
        GreeksTracker::valid(s),
        s.atm_sample_counter == s.iv_sample_interval - 1,
        forall|i: int| 0 <= i < events.len() ==> qualifies(#[trigger] events[i]),
    ensures
        ({
            let n = events.len() as int;
            let interval = s.iv_sample_interval as int;
            let after = after_events(s, events);
            &&& after.atm_quote_count == s.atm_quote_count + n
            &&& after.iv_pending.len() == s.iv_pending.len() + (n + interval - 1) / interval
            &&& after.atm_sample_counter == (n + interval - 1) % interval
            &&& after.iv_sample_interval == s.iv_sample_interval
        }),
    decreases events.len(),
{
    let interval = s.iv_sample_interval as int;
    if events.len() == 0 {
        vstd::arithmetic::div_mod::lemma_basic_div(interval - 1, interval);
        vstd::arithmetic::div_mod::lemma_small_mod((interval - 1) as nat, interval as nat);
    } else {
        assert(qualifies(events[events.len() - 1]));
        assert forall|i: int| 0 <= i < events.drop_last().len() implies qualifies(
            #[trigger] events.drop_last()[i],
        ) by {
            assert(qualifies(events[i]));
        }
        law_every_nth_quote_is_sampled(s, events.drop_last());
        lemma_count_step(events.len() + interval - 2, interval);
    }
}

/// Counting one further either wraps to a new multiple or stays below it.
proof fn lemma_count_step(a: int, d: int)
    requires
        d > 0,
        a >= 0,
    ensures
        a % d + 1 == d ==> (a + 1) % d == 0 && (a + 1) / d == a / d + 1,
        a % d + 1 != d ==> (a + 1) % d == a % d + 1 && (a + 1) / d == a / d,
{
    let q = a / d;
    let r = a % d;
    vstd::arithmetic::div_mod::lemma_fundamental_div_mod(a, d);
    vstd::arithmetic::div_mod::lemma_mod_bound(a, d);
    if r + 1 == d {
        assert(a + 1 == d * (q + 1)) by (nonlinear_arith)
            requires
                a == d * q + r,
                r + 1 == d,
        ;
        vstd::arithmetic::div_mod::lemma_fundamental_div_mod_converse(a + 1, d, q + 1, 0);
    } else {
        vstd::arithmetic::div_mod::lemma_fundamental_div_mod_converse(a + 1, d, q, r + 1);
    }
}

/// A volatility that is accepted is finite and positive.
pub proof fn law_accepted_volatility_is_finite(s: GreeksState, solution: IvSolution)
    requires
        GreeksTracker::valid(s),
        s.accepts(solution),
    ensures
        finite_bits(solution.sigma->0),
        0 < solution.sigma->0 < SIGN_BIT,
{
}

/// A problem that an event states awaits its answer, and the answer is sorted by
/// the days to expiry and the type of that event's contract, and traced at its
/// time.
pub proof fn law_answer_belongs_to_its_event(
    s: GreeksState,
    event: OptionsEvent<'_>,
    solution: IvSolution,
)
    requires
        qualifies(event),
        s.next_sample_counter() == 0,
        s.accepts(solution),
    ensures
        ({
            let problem = s.problem(event);
            let after = GreeksTracker::after_event(s, event);
            let effects = GreeksTracker::solution_effects(after, problem, solution);
            let sigma = Sample::Binary64(solution.sigma->0);
            &&& GreeksTracker::event_effects(s, event) == seq![Effect::SolveIv(problem)]
            &&& GreeksTracker::pending(after).contains(problem)
            &&& effects[0] == (Effect::Observe {
                channel: Channel::IvByDte(
                    crate::report_utils::bucket_of(event.dte as int) as usize,
                ),
                value: sigma,
            })
            &&& event.dte != 0 ==> effects.len() == 1
            &&& event.dte == 0 ==> effects.len() >= 3 && effects[1] == (Effect::Observe {
                channel: if event.call() {
                    Channel::Dte0AtmCallIv
                } else {
                    Channel::Dte0AtmPutIv
                },
                value: sigma,
            }) && effects[2] == (Effect::Trace {
                channel: Channel::Dte0AtmIvCurve,
                ts_event: event.ts_event,
                value: sigma,
                utc_offset: s.utc_offset,
            })
        }),
{
    let pending = GreeksTracker::after_event(s, event).iv_pending;
    assert(pending[pending.len() - 1] == s.problem(event));
}

/// The problems that a sequence of calls states, in order.
pub open spec fn stated(s: GreeksState, calls: Seq<TrackerCall<'_>>) -> Seq<IvProblem>
    decreases calls.len(),
{
    if calls.len() == 0 {
        Seq::empty()
    } else {
        let rest = crate::history::after_history::<GreeksTracker>(s, calls.drop_last());
        match calls.last() {
            TrackerCall::Event(event) => if qualifies(event) && rest.next_sample_counter() == 0 {
                stated(s, calls.drop_last()).push(rest.problem(event))
            } else {
                stated(s, calls.drop_last())
            },
            _ => stated(s, calls.drop_last()),
        }
    }
}

/// The problems that a sequence of calls answers, in order.
pub open spec fn answered(calls: Seq<TrackerCall<'_>>) -> Seq<IvProblem>
    decreases calls.len(),
{
    if calls.len() == 0 {
        Seq::empty()
    } else {
        match calls.last() {
            TrackerCall::Answer(problem, solution) => answered(calls.drop_last()).push(problem),
            _ => answered(calls.drop_last()),
        }
    }
}

/// Over any history, what was stated is what was answered and what is pending,
/// each problem as often; every answer is a volatility that was computed or one
/// that failed; and every qualifying quote is counted.
pub proof fn law_stated_problems_are_answered_or_pending<'a>(
    s: GreeksState,
    calls: Seq<TrackerCall<'a>>,
)
    requires
        crate::history::answers_are_awaited::<GreeksTracker>(s, calls),
    ensures
        ({
            let after = crate::history::after_history::<GreeksTracker>(s, calls);
            &&& s.iv_pending.to_multiset().add(stated(s, calls).to_multiset())
                == after.iv_pending.to_multiset().add(answered(calls).to_multiset())
            &&& after.iv_computed + after.iv_failed == s.iv_computed + s.iv_failed + answered(
                calls,
            ).len()
            &&& after.iv_computed == s.iv_computed + crate::history::count_answers(
                calls,
                |p: IvProblem, a: IvSolution| s.accepts(a),
            )
            &&& after.max_iv == s.max_iv
            &&& after.atm_quote_count == s.atm_quote_count + crate::history::count_events(
                calls,
                |e: OptionsEvent<'a>| qualifies(e),
            )
            &&& after.n_days == s.n_days + crate::history::count_days(calls)
        }),
    decreases calls.len(),
{
    broadcast use vstd::seq_lib::group_to_multiset_ensures;

    if calls.len() > 0 {
        let rest = crate::history::after_history::<GreeksTracker>(s, calls.drop_last());
        let after = crate::history::after_history::<GreeksTracker>(s, calls);
        law_stated_problems_are_answered_or_pending(s, calls.drop_last());
        let was_stated = stated(s, calls.drop_last());
        let was_answered = answered(calls.drop_last());
        match calls.last() {
            TrackerCall::Answer(problem, solution) => {
                rest.iv_pending.index_of_first_ensures(problem);
                let i = rest.iv_pending.index_of_first(problem)->0;
                assert(after.iv_pending == rest.iv_pending.remove(i));
                assert(rest.iv_pending.to_multiset().count(problem) > 0);
                assert(after.iv_pending.to_multiset() =~= rest.iv_pending.to_multiset().remove(
                    problem,
                ));
                vstd::seq_lib::to_multiset_build(was_answered, problem);
                lemma_problem_moves(
                    s.iv_pending.to_multiset(),
                    was_stated.to_multiset(),
                    rest.iv_pending.to_multiset(),
                    was_answered.to_multiset(),
                    problem,
                );
            },
            TrackerCall::Event(event) => {
                if qualifies(event) && rest.next_sample_counter() == 0 {
                    let problem = rest.problem(event);
                    vstd::seq_lib::to_multiset_build(was_stated, problem);
                    vstd::seq_lib::to_multiset_build(rest.iv_pending, problem);
                    lemma_problem_moves(
                        s.iv_pending.to_multiset(),
                        was_stated.to_multiset(),
                        rest.iv_pending.to_multiset(),
                        was_answered.to_multiset(),
                        problem,
                    );
                }
            },
            _ => {},
        }
    }
}

/// A problem that is stated becomes pending, and one that is pending answered.
proof fn lemma_problem_moves(
    start: vstd::multiset::Multiset<IvProblem>,
    stated: vstd::multiset::Multiset<IvProblem>,
    pending: vstd::multiset::Multiset<IvProblem>,
    answered: vstd::multiset::Multiset<IvProblem>,
    problem: IvProblem,
)
    requires
        start.add(stated) == pending.add(answered),
    ensures
        start.add(stated.insert(problem)) == pending.insert(problem).add(answered),
        pending.count(problem) > 0 ==> start.add(stated) == pending.remove(problem).add(
            answered.insert(problem),
        ),
{
    let a = start.add(stated.insert(problem));
    let b = pending.insert(problem).add(answered);
    let one = vstd::multiset::Multiset::singleton(problem);
    assert forall|p: IvProblem| a.count(p) == b.count(p) by {
        assert(start.add(stated).count(p) == start.count(p) + stated.count(p));
        assert(pending.add(answered).count(p) == pending.count(p) + answered.count(p));
        assert(a.count(p) == start.count(p) + (stated.count(p) + one.count(p)));
        assert(b.count(p) == (pending.count(p) + one.count(p)) + answered.count(p));
    }
    assert(a =~= b);
    if pending.count(problem) > 0 {
        let c = pending.remove(problem).add(answered.insert(problem));
        assert forall|p: IvProblem| start.add(stated).count(p) == c.count(p) by {
            assert(pending.add(answered).count(p) == pending.count(p) + answered.count(p));
            assert(c.count(p) == pending.remove(problem).count(p) + (answered.count(p)
                + one.count(p)));
            if p != problem {
                assert(one.count(p) == 0);
            }
        }
        assert(start.add(stated) =~= c);
    }
}

impl GreeksState {
    /// The statistics that an answer enters.
    pub open spec fn feeds(self, channel: Channel, p: IvProblem, a: IvSolution) -> bool {
        self.accepts(a) && match channel {
            Channel::IvByDte(b) => crate::report_utils::bucket_of(p.dte as int) == b,
            Channel::Dte0AtmCallIv => p.dte == 0 && p.is_call,
            Channel::Dte0AtmPutIv => p.dte == 0 && !p.is_call,
            Channel::Dte0AtmIvCurve => p.dte == 0,
            Channel::Dte0AtmDeltaCall => p.dte == 0 && p.is_call && finite_bits(a.delta),
            Channel::Dte0AtmDeltaPut => p.dte == 0 && !p.is_call && finite_bits(a.delta),
            Channel::Dte0AtmGamma => p.dte == 0 && finite_bits(a.gamma),
            Channel::Dte0AtmVega => p.dte == 0 && finite_bits(a.vega),
            _ => false,
        }
    }
}

/// An answer is observed once in each statistic that it feeds.
proof fn lemma_answer_observations(s: GreeksState, p: IvProblem, a: IvSolution, channel: Channel)
    ensures
        crate::history::observations(s.answer_effects(p, a), channel)
            == crate::history::one_if(s.feeds(channel, p, a)),
{
    reveal_with_fuel(crate::history::observed_first, 7);
}

/// A problem that is stated is no observation.
proof fn lemma_no_event_observations(s: GreeksState, e: OptionsEvent<'_>, channel: Channel)
    ensures
        crate::history::observations(GreeksTracker::event_effects(s, e), channel) == 0,
{
    reveal_with_fuel(crate::history::observed_first, 2);
}

/// Over any history, each statistic has one observation for every answer that
/// belongs to it.
pub proof fn law_answers_are_observed(
    s: GreeksState,
    calls: Seq<TrackerCall<'_>>,
    channel: Channel,
)
    requires
        crate::history::answers_are_awaited::<GreeksTracker>(s, calls),
    ensures
        ({
            let after = crate::history::after_history::<GreeksTracker>(s, calls);
            let effects = crate::history::history_effects::<GreeksTracker>(s, calls);
            &&& crate::history::observations(effects, channel) == crate::history::count_answers(
                calls,
                |p: IvProblem, a: IvSolution| s.feeds(channel, p, a),
            )
            &&& after.max_iv == s.max_iv
        }),
    decreases calls.len(),
{
    if calls.len() == 0 {
        crate::history::lemma_no_observations(channel);
    } else {
        let rest = crate::history::after_history::<GreeksTracker>(s, calls.drop_last());
        law_answers_are_observed(s, calls.drop_last(), channel);
        crate::history::lemma_last_call::<GreeksTracker>(s, calls, channel);
        match calls.last() {
            TrackerCall::Event(event) => lemma_no_event_observations(rest, event, channel),
            TrackerCall::Answer(p, a) => lemma_answer_observations(rest, p, a, channel),
            _ => {},
        }
    }
}

/// What an event states, by the event and the clock. Only a quote at the money
/// with both prices positive, the ask above the bid and a positive underlying
/// price states a problem, and only one; and its problem has the mid-price, the
/// underlying price, the strike and the type of that quote, the rate of the
/// tracker, and the time that is left to expiry at the time of the quote.
pub proof fn law_stated_problem_is_that_of_the_quote(
    s: GreeksState,
    event: OptionsEvent<'_>,
    i: int,
)
    requires
        0 <= i < GreeksTracker::event_effects(s, event).len(),
    ensures
        i == 0,
        event.moneyness == crate::options_math::moneyness::Moneyness::Atm,
        event.underlying_price.num > 0,
        event.bid_px is Some && event.ask_px is Some,
        0 < event.bid_px->0 < event.ask_px->0,
        GreeksTracker::event_effects(s, event)[i] matches Effect::SolveIv(problem) && {
            let tod = crate::session::time_of_day(event.ts_event as int);
            let until_close = (16 - s.utc_offset) * 3_600_000_000_000 - tod;
            let left = if until_close < 0 {
                0
            } else if until_close > 23_400_000_000_000 {
                23_400_000_000_000
            } else {
                until_close
            };
            // Nanoseconds of 252 sessions of 390 minutes.
            let year = 5_896_800_000_000_000int;
            &&& problem.mid.is_quotient(event.bid_px->0 + event.ask_px->0, 2_000_000_000)
            &&& problem.underlying_price == event.underlying_price
            &&& problem.strike == event.contract.strike
            &&& problem.risk_free_rate == s.risk_free_rate
            &&& problem.is_call <==> event.contract.contract_type
                == crate::contract::ContractType::Call
            &&& problem.dte == event.dte
            &&& problem.ts_event == event.ts_event
            &&& problem.utc_offset == s.utc_offset
            &&& event.dte == 0 && left * 1_000_000 >= year ==> problem.years.is_quotient(left, year)
            &&& event.dte == 0 && left * 1_000_000 < year ==> problem.years.is_quotient(
                1,
                1_000_000,
            )
            &&& event.dte > 0 ==> problem.years.is_quotient(event.dte as int, 365)
            &&& event.dte < 0 ==> problem.years.is_quotient(1, 1_000_000)
        },
{
    crate::session::law_time_to_expiry_by_the_clock(
        event.dte,
        s.utc_offset,
        crate::session::time_of_day(event.ts_event as int),
    );
    crate::event::law_accessors_by_the_prices(event);
}

/// Which quotes state a problem: of those at the money with both prices
/// positive, the ask above the bid and a positive underlying price, the one on
/// which the counter comes round. The others leave the counter alone or move it
/// on by one.
pub proof fn law_sampled_quotes_state_a_problem(s: GreeksState, event: OptionsEvent<'_>)
    requires
        s.atm_sample_counter < s.iv_sample_interval,
    ensures
        ({
            let quoted = event.moneyness == crate::options_math::moneyness::Moneyness::Atm
                && event.underlying_price.num > 0 && event.bid_px is Some && event.ask_px is Some
                && 0 < event.bid_px->0 < event.ask_px->0;
            let comes_round = s.atm_sample_counter + 1 == s.iv_sample_interval;
            let after = GreeksTracker::after_event(s, event);
            let n = GreeksTracker::event_effects(s, event).len();
            &&& n == (if quoted && comes_round {
                1nat
            } else {
                0
            })
            &&& after.iv_pending.len() == s.iv_pending.len() + n
            &&& after.atm_quote_count == s.atm_quote_count + (if quoted {
                1nat
            } else {
                0
            })
            &&& after.atm_sample_counter == (if !quoted {
                s.atm_sample_counter
            } else if comes_round {
                0
            } else {
                s.atm_sample_counter + 1
            })
            &&& after.iv_computed == s.iv_computed && after.iv_failed == s.iv_failed
            &&& after.utc_offset == s.utc_offset && after.max_iv == s.max_iv
            &&& after.risk_free_rate == s.risk_free_rate && after.n_days == s.n_days
            &&& after.iv_sample_interval == s.iv_sample_interval
        }),
{
    crate::event::law_accessors_by_the_prices(event);
}

/// Of two quotes of one session that state problems on the day of expiry, the
/// later one has less time left, unless no more than the least time was left at
/// the earlier one already.
pub proof fn law_time_runs_down(
    s: GreeksState,
    t: GreeksState,
    earlier: OptionsEvent<'_>,
    later: OptionsEvent<'_>,
    p: IvProblem,
    q: IvProblem,
)
    requires
        GreeksTracker::event_effects(s, earlier) == seq![Effect::SolveIv(p)],
        GreeksTracker::event_effects(t, later) == seq![Effect::SolveIv(q)],
        s.utc_offset == t.utc_offset,
        earlier.dte == 0 && later.dte == 0,
        0 <= earlier.ts_event < later.ts_event,
        earlier.ts_event as int / 86_400_000_000_000 == later.ts_event as int / 86_400_000_000_000,
        crate::session::time_of_day(earlier.ts_event as int) >= (9 - s.utc_offset)
            * 3_600_000_000_000 + 1_800_000_000_000,
    ensures
        !p.years.lt(q.years),
        (Fraction { num: 1, den: 1_000_000 }).lt(p.years) ==> q.years.lt(p.years),
{
    law_stated_problem_is_that_of_the_quote(s, earlier, 0);
    law_stated_problem_is_that_of_the_quote(t, later, 0);
    let (a, b) = (earlier.ts_event as int, later.ts_event as int);
    let day = 86_400_000_000_000int;
    assert(a % day < b % day) by {
        vstd::arithmetic::div_mod::lemma_fundamental_div_mod(a, day);
        vstd::arithmetic::div_mod::lemma_fundamental_div_mod(b, day);
    }
    let year = 5_896_800_000_000_000int;
    let close = (16 - s.utc_offset) * 3_600_000_000_000;
    let left_p = if close - a % day < 0 {
        0
    } else {
        close - a % day
    };
    let left_q = if close - b % day < 0 {
        0
    } else {
        close - b % day
    };
    lemma_years_in_order(p.years, q.years, left_p, left_q, year);
}

/// Times to expiry are ordered as the times that are left, but for the least.
proof fn lemma_years_in_order(p: Fraction, q: Fraction, left_p: int, left_q: int, year: int)
    requires
        0 <= left_q,
        left_q < left_p || (left_q == 0 && left_p == 0),
        year > 0,
        left_p * 1_000_000 >= year ==> p.is_quotient(left_p, year),
        left_p * 1_000_000 < year ==> p.is_quotient(1, 1_000_000),
        left_q * 1_000_000 >= year ==> q.is_quotient(left_q, year),
        left_q * 1_000_000 < year ==> q.is_quotient(1, 1_000_000),
    ensures
        !p.lt(q),
        (Fraction { num: 1, den: 1_000_000 }).lt(p) ==> q.lt(p),
{
    let (pn, pd, qn, qd) = (p.num as int, p.den as int, q.num as int, q.den as int);
    if left_p * 1_000_000 < year {
        assert(qn * pd == pn * qd) by (nonlinear_arith)
            requires
                pn * 1_000_000 == 1 * pd,
                qn * 1_000_000 == 1 * qd,
        ;
    } else if left_q * 1_000_000 < year {
        assert(qn * pd <= pn * qd) by (nonlinear_arith)
            requires
                pn * year == left_p * pd,
                qn * 1_000_000 == 1 * qd,
                left_p * 1_000_000 >= year,
                year > 0,
                pd > 0,
                qd > 0,
        {
            assert((qn * 1_000_000) * (pn * year) == qd * (left_p * pd));
            assert(qn > 0) by (nonlinear_arith)
                requires
                    qn * 1_000_000 == qd,
                    qd > 0,
            ;
            assert(pd * year <= (pn * 1_000_000) * year) by (nonlinear_arith)
                requires
                    pn * year == left_p * pd,
                    left_p * 1_000_000 >= year,
                    pd > 0,
            ;
            assert(pd <= pn * 1_000_000) by (nonlinear_arith)
                requires
                    pd * year <= (pn * 1_000_000) * year,
                    year > 0,
            ;
            assert(qn * pd <= qn * (pn * 1_000_000)) by (nonlinear_arith)
                requires
                    pd <= pn * 1_000_000,
                    qn > 0,
            ;
            assert(qn * (pn * 1_000_000) == pn * (qn * 1_000_000)) by (nonlinear_arith);
        }
        if 1 * pd < pn * 1_000_000 {
            assert(qn * pd < pn * qd) by (nonlinear_arith)
                requires
                    pd < pn * 1_000_000,
                    qn * 1_000_000 == qd,
                    qd > 0,
            {
                assert(qn > 0) by (nonlinear_arith)
                    requires
                        qn * 1_000_000 == qd,
                        qd > 0,
                ;
                assert(qn * pd < qn * (pn * 1_000_000)) by (nonlinear_arith)
                    requires
                        pd < pn * 1_000_000,
                        qn > 0,
                ;
                assert(qn * (pn * 1_000_000) == pn * (qn * 1_000_000)) by (nonlinear_arith);
            }
        }
    } else {
        assert(qn * pd < pn * qd) by (nonlinear_arith)
            requires
                pn * year == left_p * pd,
                qn * year == left_q * qd,
                left_q < left_p,
                year > 0,
                pd > 0,
                qd > 0,
        {
            assert((qn * year) * pd == (left_q * qd) * pd);
            assert((pn * year) * qd == (left_p * pd) * qd);
            assert((left_q * qd) * pd < (left_p * pd) * qd) by (nonlinear_arith)
                requires
                    left_q < left_p,
                    pd > 0,
                    qd > 0,
            {
                assert(qd * pd > 0) by (nonlinear_arith)
                    requires
                        pd > 0,
                        qd > 0,
                ;
                assert(left_q * (qd * pd) < left_p * (qd * pd)) by (nonlinear_arith)
                    requires
                        left_q < left_p,
                        qd * pd > 0,
                ;
            }
            assert((qn * pd) * year < (pn * qd) * year) by (nonlinear_arith)
                requires
                    (qn * year) * pd < (pn * year) * qd,
            ;
            assert(qn * pd < pn * qd) by (nonlinear_arith)
                requires
                    (qn * pd) * year < (pn * qd) * year,
                    year > 0,
            ;
        }
    }
}

/// Over any history, points are traced under the UTC offset of the last day that
/// began.
pub proof fn law_greeks_offset_is_that_of_the_day(s: GreeksState, calls: Seq<TrackerCall<'_>>)
    ensures
        crate::history::after_history::<GreeksTracker>(s, calls).utc_offset
            == crate::history::offset_after(s.utc_offset, calls),
    decreases calls.len(),
{
    if calls.len() > 0 {
        law_greeks_offset_is_that_of_the_day(s, calls.drop_last());
    }
}

/// What the answer to a pending problem contributes. It counts as found where it
/// has a volatility strictly between zero and the cap, and as failed otherwise;
/// either way its problem is pending once less. Where found, the volatility
/// enters the bucket of the problem's days to expiry; for a contract that expires
/// on its day it also enters the distribution of calls or of puts and, at the
/// time and under the offset of the problem, the curve, with delta to the
/// distribution of calls or of puts, and gamma and vega, each where it is finite.
pub proof fn law_answer_by_its_fields(
    s: GreeksState,
    p: IvProblem,
    a: IvSolution,
    bucket: usize,
)
    requires
        s.iv_pending.contains(p),
    ensures
        ({
            let effects = GreeksTracker::solution_effects(s, p, a);
            let after = GreeksTracker::after_solution(s, p, a);
            let found = a.sigma is Some && 0 < a.sigma->0 < s.max_iv;
            let own = found && p.dte == 0;
            let number = |bits: u64| bits % 0x8000_0000_0000_0000 < 0x7FF0_0000_0000_0000;
            &&& after.iv_computed == s.iv_computed + crate::history::one_if(found)
            &&& after.iv_failed == s.iv_failed + crate::history::one_if(!found)
            &&& after.iv_pending.to_multiset() == s.iv_pending.to_multiset().remove(p)
            &&& after.atm_quote_count == s.atm_quote_count && after.n_days == s.n_days
            &&& crate::history::observes_encoded(
                effects,
                Channel::IvByDte(bucket),
                found && crate::report_utils::bucket_of(p.dte as int) == bucket,
                a.sigma->0,
            )
            &&& crate::history::observes_encoded(
                effects,
                Channel::Dte0AtmCallIv,
                own && p.is_call,
                a.sigma->0,
            )
            &&& crate::history::observes_encoded(
                effects,
                Channel::Dte0AtmPutIv,
                own && !p.is_call,
                a.sigma->0,
            )
            &&& crate::history::observes_encoded(
                effects,
                Channel::Dte0AtmDeltaCall,
                own && p.is_call && number(a.delta),
                a.delta,
            )
            &&& crate::history::observes_encoded(
                effects,
                Channel::Dte0AtmDeltaPut,
                own && !p.is_call && number(a.delta),
                a.delta,
            )
            &&& crate::history::observes_encoded(
                effects,
                Channel::Dte0AtmGamma,
                own && number(a.gamma),
                a.gamma,
            )
            &&& crate::history::observes_encoded(
                effects,
                Channel::Dte0AtmVega,
                own && number(a.vega),
                a.vega,
            )
            &&& crate::history::observations(effects, Channel::Dte0AtmIvCurve)
                == crate::history::one_if(own)
            &&& forall|i: int|
                0 <= i < effects.len() && crate::history::enters(
                    #[trigger] effects[i],
                    Channel::Dte0AtmIvCurve,
                ) ==> effects[i] == (Effect::Trace {
                    channel: Channel::Dte0AtmIvCurve,
                    ts_event: p.ts_event,
                    value: Sample::Binary64(a.sigma->0),
                    utc_offset: p.utc_offset,
                })
        }),
{
    broadcast use vstd::seq_lib::group_to_multiset_ensures;

    s.iv_pending.index_of_first_ensures(p);
    lemma_answer_observations(s, p, a, Channel::IvByDte(bucket));
    lemma_answer_observations(s, p, a, Channel::Dte0AtmCallIv);
    lemma_answer_observations(s, p, a, Channel::Dte0AtmPutIv);
    lemma_answer_observations(s, p, a, Channel::Dte0AtmDeltaCall);
    lemma_answer_observations(s, p, a, Channel::Dte0AtmDeltaPut);
    lemma_answer_observations(s, p, a, Channel::Dte0AtmGamma);
    lemma_answer_observations(s, p, a, Channel::Dte0AtmVega);
    lemma_answer_observations(s, p, a, Channel::Dte0AtmIvCurve);
}

/// What a tracker reports after any history from its start in which every answer
/// is to a problem that was stated: the number of days, of qualifying quotes and
/// of answers that were accepted and that were not, the share of the former in
/// all, and the statistics under their names.
pub proof fn law_greeks_report_is_that_of_the_history<'a>(
    rate: i64,
    capacity: usize,
    interval: nat,
    calls: Seq<TrackerCall<'a>>,
)
    requires
        crate::history::answers_are_awaited::<GreeksTracker>(
            GreeksState::start(rate, capacity, interval),
            calls,
        ),
    ensures
        ({
            let s = crate::history::after_history::<GreeksTracker>(
                GreeksState::start(rate, capacity, interval),
                calls,
            );
            let rows = GreeksTracker::report(s);
            let days = crate::history::count_days(calls);
            let quotes = crate::history::count_events(
                calls,
                |e: OptionsEvent<'a>| qualifies(e),
            );
            let found = crate::history::count_answers(
                calls,
                |p: IvProblem, a: IvSolution|
                    a.sigma is Some && 0 < a.sigma->0 < 0x4014_0000_0000_0000,
            );
            let failed = answered(calls).len() - found;
            &&& rows.len() == 18
            &&& rows[0] == Row::at("tracker", Value::Text("GreeksTracker"))
            &&& rows[1] == Row::at("n_days", Value::Count(days as u64))
            &&& rows[2] == Row::at("atm_quote_count", Value::Count(quotes as u64))
            &&& rows[3] == Row::at("iv_sample_interval", Value::Count(interval as u64))
            &&& rows[4] == Row::at("iv_computed", Value::Count(found as u64))
            &&& rows[5] == Row::at("iv_failed", Value::Count(failed as u64))
            &&& rows[6] == Row::at(
                "iv_success_rate",
                crate::report::share_of(found, answered(calls).len(), 1),
            )
            &&& rows[7] == Row::at("dte0_atm_call_iv", Value::Summary(Channel::Dte0AtmCallIv))
            &&& rows[8] == Row::at("dte0_atm_put_iv", Value::Summary(Channel::Dte0AtmPutIv))
            &&& rows[9] == Row::at("dte0_atm_delta_call", Value::Summary(Channel::Dte0AtmDeltaCall))
            &&& rows[10] == Row::at("dte0_atm_delta_put", Value::Summary(Channel::Dte0AtmDeltaPut))
            &&& rows[11] == Row::at("dte0_atm_gamma", Value::Summary(Channel::Dte0AtmGamma))
            &&& rows[12] == Row::at("dte0_atm_vega", Value::Summary(Channel::Dte0AtmVega))
            &&& rows[13] == Row::below(
                "iv_by_dte",
                "0dte",
                Value::MeanStdCount(Channel::IvByDte(0)),
            )
            &&& rows[14] == Row::below(
                "iv_by_dte",
                "1dte",
                Value::MeanStdCount(Channel::IvByDte(1)),
            )
            &&& rows[15] == Row::below(
                "iv_by_dte",
                "2_7dte",
                Value::MeanStdCount(Channel::IvByDte(2)),
            )
            &&& rows[16] == Row::below(
                "iv_by_dte",
                "other",
                Value::MeanStdCount(Channel::IvByDte(3)),
            )
            &&& rows[17] == Row::at(
                "intraday_dte0_atm_iv_curve",
                Value::Curve {
                    channel: Channel::Dte0AtmIvCurve,
                    mean_key: "mean_iv",
                    std_key: Some("std_iv"),
                },
            )
        }),
{
    let start = GreeksState::start(rate, capacity, interval);
    let accepts = |p: IvProblem, a: IvSolution| start.accepts(a);
    assert(accepts =~= (|p: IvProblem, a: IvSolution|
        a.sigma is Some && 0 < a.sigma->0 < 0x4014_0000_0000_0000));
    law_stated_problems_are_answered_or_pending(start, calls);
    lemma_interval_stays(start, calls);
}

/// The interval of sampling is that of the start.
proof fn lemma_interval_stays(s: GreeksState, calls: Seq<TrackerCall<'_>>)
    ensures
        crate::history::after_history::<GreeksTracker>(s, calls).iv_sample_interval
            == s.iv_sample_interval,
    decreases calls.len(),
{
    if calls.len() > 0 {
        lemma_interval_stays(s, calls.drop_last());
    }
}

} // verus!
