//! The trackers of a run.
//!
//! A run dispatches its events to a [`TrackerGroup`]: the built-in trackers that
//! a configuration enables ([`TrackerSet`]), none (`()`), or a group with one
//! more tracker behind it (a pair).

use crate::config::TrackerConfig;
use crate::event::{DayContext, OptionsEvent};
use crate::observation::{Effect, IvProblem, IvSolution};
use crate::report::Row;
use crate::trackers::{
    GreeksTracker, OptionsEffectiveSpreadTracker, PremiumDecayTracker, PutCallRatioTracker,
    QualityTracker, SpreadTracker, VolumeTracker, ZeroDteTracker,
};
use crate::OptionsTracker;
use vstd::prelude::*;

verus! {

/// Trackers that take every event of a run, each on its own, in their order.
pub trait TrackerGroup: View + Sized {
    /// What holds of every state of the trackers.
    spec fn valid(states: Self::V) -> bool;

    /// The counters can take another event and another day.
    spec fn room(states: Self::V) -> bool;

    /// The states after the start of a day.
    spec fn begun(states: Self::V, ctx: DayContext) -> Self::V;

    /// The states after an event.
    spec fn after_event(states: Self::V, event: OptionsEvent<'_>) -> Self::V;

    /// What an event contributes, tracker by tracker.
    spec fn event_effects(states: Self::V, event: OptionsEvent<'_>) -> Seq<Effect>;

    /// The states after the end of a day.
    spec fn after_day(states: Self::V) -> Self::V;

    /// What a day contributes, tracker by tracker.
    spec fn day_effects(states: Self::V) -> Seq<Effect>;

    /// The states with their day-level parts reset.
    spec fn after_reset(states: Self::V) -> Self::V;

    /// A volatility problem was stated and is not answered.
    spec fn awaits(states: Self::V, problem: IvProblem) -> bool;

    /// The states after the answer to a problem.
    spec fn after_solution(states: Self::V, problem: IvProblem, solution: IvSolution) -> Self::V;

    /// What the answer to a problem contributes.
    spec fn solution_effects(states: Self::V, problem: IvProblem, solution: IvSolution) -> Seq<
        Effect,
    >;

    /// The reports under the names of their trackers.
    spec fn reports(states: Self::V) -> Seq<(&'static str, Seq<Row>)>;

    /// Whether the counters can take another event and another day.
    fn has_room(&self) -> (r: bool)
        requires
            Self::valid(self@),
        ensures
            r == Self::room(self@),
    ;

    /// Starts a day.
    fn begin_day(&mut self, ctx: &DayContext)
        requires
            Self::valid(old(self)@),
        ensures
            final(self)@ == Self::begun(old(self)@, *ctx),
            Self::valid(final(self)@),
    ;

    /// Hands an event to every tracker.
    fn process_event(&mut self, event: &OptionsEvent<'_>, regime: u8) -> (effects: Vec<Effect>)
        requires
            Self::valid(old(self)@),
            Self::room(old(self)@),
        ensures
            final(self)@ == Self::after_event(old(self)@, *event),
            effects@ == Self::event_effects(old(self)@, *event),
            Self::valid(final(self)@),
    ;

    /// Ends a day.
    fn end_of_day(&mut self, day_index: u32) -> (effects: Vec<Effect>)
        requires
            Self::valid(old(self)@),
            Self::room(old(self)@),
        ensures
            final(self)@ == Self::after_day(old(self)@),
            effects@ == Self::day_effects(old(self)@),
            Self::valid(final(self)@),
    ;

    /// Resets the day-level parts.
    fn reset_day(&mut self)
        requires
            Self::valid(old(self)@),
        ensures
            final(self)@ == Self::after_reset(old(self)@),
            Self::valid(final(self)@),
    ;

    /// Whether a volatility problem was stated and is not answered.
    fn awaits_solution(&self, problem: &IvProblem) -> (r: bool)
        ensures
            r == Self::awaits(self@, *problem),
    ;

    /// Hands the answer to a volatility problem to the tracker that stated it.
    /// An answer to a problem that is not awaited changes nothing.
    fn resolve(&mut self, problem: &IvProblem, solution: &IvSolution) -> (effects: Vec<Effect>)
        requires
            Self::valid(old(self)@),
        ensures
            final(self)@ == Self::after_solution(old(self)@, *problem, *solution),
            effects@ == Self::solution_effects(old(self)@, *problem, *solution),
            Self::valid(final(self)@),
            !Self::awaits(old(self)@, *problem) ==> final(self)@ == old(self)@ && effects@.len()
                == 0,
    ;

    /// The reports, each under its tracker's name.
    fn finalize(&self) -> (reports: Vec<(&'static str, Vec<Row>)>)
        requires
            Self::valid(self@),
        ensures
            report_models(reports@) == Self::reports(self@),
    ;
}

/// No trackers: events leave nothing behind.
impl TrackerGroup for () {
    open spec fn valid(states: ()) -> bool {
        true
    }

    open spec fn room(states: ()) -> bool {
        true
    }

    open spec fn begun(states: (), ctx: DayContext) -> () {
        states
    }

    open spec fn after_event(states: (), event: OptionsEvent<'_>) -> () {
        states
    }

    open spec fn event_effects(states: (), event: OptionsEvent<'_>) -> Seq<Effect> {
        Seq::empty()
    }

    open spec fn after_day(states: ()) -> () {
        states
    }

    open spec fn day_effects(states: ()) -> Seq<Effect> {
        Seq::empty()
    }

    open spec fn after_reset(states: ()) -> () {
        states
    }

    open spec fn awaits(states: (), problem: IvProblem) -> bool {
        false
    }

    open spec fn after_solution(states: (), problem: IvProblem, solution: IvSolution) -> () {
        states
    }

    open spec fn solution_effects(states: (), problem: IvProblem, solution: IvSolution) -> Seq<
        Effect,
    > {
        Seq::empty()
    }

    open spec fn reports(states: ()) -> Seq<(&'static str, Seq<Row>)> {
        Seq::empty()
    }

    fn has_room(&self) -> bool {
        true
    }

    fn begin_day(&mut self, ctx: &DayContext) {
    }

    fn process_event(&mut self, event: &OptionsEvent<'_>, regime: u8) -> Vec<Effect> {
        Vec::new()
    }

    fn end_of_day(&mut self, day_index: u32) -> Vec<Effect> {
        Vec::new()
    }

    fn reset_day(&mut self) {
    }

    fn awaits_solution(&self, problem: &IvProblem) -> bool {
        false
    }

    fn resolve(&mut self, problem: &IvProblem, solution: &IvSolution) -> Vec<Effect> {
        Vec::new()
    }

    fn finalize(&self) -> (reports: Vec<(&'static str, Vec<Row>)>) {
        let reports: Vec<(&'static str, Vec<Row>)> = Vec::new();
        assert(report_models(reports@) =~= Seq::empty());
        reports
    }
}

/// A group with one more tracker, which comes after the others.
impl<A: TrackerGroup, B: OptionsTracker> TrackerGroup for (A, B) {
    open spec fn valid(states: (A::V, B::V)) -> bool {
        A::valid(states.0) && B::valid(states.1)
    }

    open spec fn room(states: (A::V, B::V)) -> bool {
        A::room(states.0) && B::room(states.1)
    }

    open spec fn begun(states: (A::V, B::V), ctx: DayContext) -> (A::V, B::V) {
        (A::begun(states.0, ctx), B::begun(states.1, ctx))
    }

    open spec fn after_event(states: (A::V, B::V), event: OptionsEvent<'_>) -> (A::V, B::V) {
        (A::after_event(states.0, event), B::after_event(states.1, event))
    }

    open spec fn event_effects(states: (A::V, B::V), event: OptionsEvent<'_>) -> Seq<Effect> {
        A::event_effects(states.0, event) + B::event_effects(states.1, event)
    }

    open spec fn after_day(states: (A::V, B::V)) -> (A::V, B::V) {
        (A::after_day(states.0), B::after_day(states.1))
    }

    open spec fn day_effects(states: (A::V, B::V)) -> Seq<Effect> {
        A::day_effects(states.0) + B::day_effects(states.1)
    }

    open spec fn after_reset(states: (A::V, B::V)) -> (A::V, B::V) {
        (A::after_reset(states.0), B::after_reset(states.1))
    }

    open spec fn awaits(states: (A::V, B::V), problem: IvProblem) -> bool {
        A::awaits(states.0, problem) || B::pending(states.1).contains(problem)
    }

    /// The answer goes to the first that awaits it.
    open spec fn after_solution(
        states: (A::V, B::V),
        problem: IvProblem,
        solution: IvSolution,
    ) -> (A::V, B::V) {
        if A::awaits(states.0, problem) {
            (A::after_solution(states.0, problem, solution), states.1)
        } else {
            (states.0, B::after_solution(states.1, problem, solution))
        }
    }

    open spec fn solution_effects(
        states: (A::V, B::V),
        problem: IvProblem,
        solution: IvSolution,
    ) -> Seq<Effect> {
        if A::awaits(states.0, problem) {
            A::solution_effects(states.0, problem, solution)
        } else {
            B::solution_effects(states.1, problem, solution)
        }
    }

    open spec fn reports(states: (A::V, B::V)) -> Seq<(&'static str, Seq<Row>)> {
        A::reports(states.0).push((B::label(), B::report(states.1)))
    }

    fn has_room(&self) -> bool {
        self.0.has_room() && self.1.has_room()
    }

    fn begin_day(&mut self, ctx: &DayContext) {
        self.0.begin_day(ctx);
        self.1.begin_day(ctx);
    }

    fn process_event(&mut self, event: &OptionsEvent<'_>, regime: u8) -> Vec<Effect> {
        let mut effects: Vec<Effect> = self.0.process_event(event, regime);
        let mut own: Vec<Effect> = self.1.process_event(event, regime);
        effects.append(&mut own);
        effects
    }

    fn end_of_day(&mut self, day_index: u32) -> Vec<Effect> {
        let mut effects: Vec<Effect> = self.0.end_of_day(day_index);
        let mut own: Vec<Effect> = self.1.end_of_day(day_index);
        effects.append(&mut own);
        effects
    }

    fn reset_day(&mut self) {
        self.0.reset_day();
        self.1.reset_day();
    }

    fn awaits_solution(&self, problem: &IvProblem) -> bool {
        self.0.awaits_solution(problem) || self.1.awaits_solution(problem)
    }

    fn resolve(&mut self, problem: &IvProblem, solution: &IvSolution) -> Vec<Effect> {
        if self.0.awaits_solution(problem) {
            self.0.resolve(problem, solution)
        } else {
            self.1.resolve(problem, solution)
        }
    }

    fn finalize(&self) -> (reports: Vec<(&'static str, Vec<Row>)>) {
        let mut reports: Vec<(&'static str, Vec<Row>)> = self.0.finalize();
        let ghost others = report_models(reports@);
        reports.push((self.1.name(), self.1.finalize()));
        assert(report_models(reports@) =~= others.push((B::label(), B::report(self@.1))));
        reports
    }
}

/// The built-in trackers, each of them enabled or not. They are always called
/// in the order of the fields.
pub struct TrackerSet {
    quality: Option<QualityTracker>,
    spread: Option<SpreadTracker>,
    zero_dte: Option<ZeroDteTracker>,
    premium_decay: Option<PremiumDecayTracker>,
    volume: Option<VolumeTracker>,
    greeks: Option<GreeksTracker>,
    put_call: Option<PutCallRatioTracker>,
    effective_spread: Option<OptionsEffectiveSpreadTracker>,
}

/// The states of the enabled trackers.
#[verifier::ext_equal]
pub struct TrackerStates {
    pub quality: Option<crate::trackers::quality::QualityState>,
    pub spread: Option<crate::trackers::spread::SpreadState>,
    pub zero_dte: Option<crate::trackers::zero_dte::ZeroDteState>,
    pub premium_decay: Option<crate::trackers::premium_decay::PremiumDecayState>,
    pub volume: Option<crate::trackers::volume::VolumeState>,
    pub greeks: Option<crate::trackers::greeks::GreeksState>,
    pub put_call: Option<crate::trackers::put_call::PutCallState>,
    pub effective_spread: Option<crate::trackers::effective_spread::EffectiveSpreadState>,
}

/// The state of a tracker, if it is enabled.
pub open spec fn state_of<T: OptionsTracker>(tracker: Option<T>) -> Option<T::V> {
    match tracker {
        Some(t) => Some(t@),
        None => None,
    }
}

pub open spec fn state_valid<T: OptionsTracker>(state: Option<T::V>) -> bool {
    state is Some ==> T::valid(state->0)
}

pub open spec fn state_has_room<T: OptionsTracker>(state: Option<T::V>) -> bool {
    state is Some ==> T::room(state->0)
}

pub open spec fn state_begun<T: OptionsTracker>(state: Option<T::V>, ctx: DayContext) -> Option<
    T::V,
> {
    match state {
        Some(s) => Some(T::begun(s, ctx)),
        None => None,
    }
}

pub open spec fn state_after_event<T: OptionsTracker>(
    state: Option<T::V>,
    event: OptionsEvent<'_>,
) -> Option<T::V> {
    match state {
        Some(s) => Some(T::after_event(s, event)),
        None => None,
    }
}

pub open spec fn state_event_effects<T: OptionsTracker>(
    state: Option<T::V>,
    event: OptionsEvent<'_>,
) -> Seq<Effect> {
    match state {
        Some(s) => T::event_effects(s, event),
        None => Seq::empty(),
    }
}

pub open spec fn state_after_day<T: OptionsTracker>(state: Option<T::V>) -> Option<T::V> {
    match state {
        Some(s) => Some(T::after_day(s)),
        None => None,
    }
}

pub open spec fn state_day_effects<T: OptionsTracker>(state: Option<T::V>) -> Seq<Effect> {
    match state {
        Some(s) => T::day_effects(s),
        None => Seq::empty(),
    }
}

pub open spec fn state_after_reset<T: OptionsTracker>(state: Option<T::V>) -> Option<T::V> {
    match state {
        Some(s) => Some(T::after_reset(s)),
        None => None,
    }
}

/// The report of a tracker under its name, if it is enabled.
pub open spec fn state_reports<T: OptionsTracker>(state: Option<T::V>) -> Seq<
    (&'static str, Seq<Row>),
> {
    match state {
        Some(s) => seq![(T::label(), T::report(s))],
        None => Seq::empty(),
    }
}

/// Reports with their rows as sequences.
pub open spec fn report_models(reports: Seq<(&'static str, Vec<Row>)>) -> Seq<
    (&'static str, Seq<Row>),
> {
    reports.map_values(|report: (&'static str, Vec<Row>)| (report.0, report.1@))
}

impl TrackerStates {
    /// Before the first day, for the trackers that a configuration enables.
    pub open spec fn start(
        config: TrackerConfig,
        risk_free_rate: i64,
        reservoir_capacity: usize,
    ) -> TrackerStates {
        TrackerStates {
            quality: if config.quality {
                Some(crate::trackers::quality::QualityState::start())
            } else {
                None
            },
            spread: if config.spread {
                Some(
                    crate::trackers::spread::SpreadState {
                        reservoir_capacity,
                        utc_offset: crate::session::DEFAULT_UTC_OFFSET,
                        n_days: 0,
                    },
                )
            } else {
                None
            },
            zero_dte: if config.zero_dte {
                Some(crate::trackers::zero_dte::ZeroDteState::start(reservoir_capacity))
            } else {
                None
            },
            premium_decay: if config.premium_decay {
                Some(
                    crate::trackers::premium_decay::PremiumDecayState {
                        utc_offset: crate::session::DEFAULT_UTC_OFFSET,
                        call: crate::trackers::premium_decay::PremiumSpan::none(),
                        put: crate::trackers::premium_decay::PremiumSpan::none(),
                        risk_free_rate,
                        n_days: 0,
                        n_0dte_days: 0,
                    },
                )
            } else {
                None
            },
            volume: if config.volume {
                Some(crate::trackers::volume::VolumeState::start(reservoir_capacity))
            } else {
                None
            },
            greeks: if config.greeks {
                Some(
                    crate::trackers::greeks::GreeksState::start(
                        risk_free_rate,
                        reservoir_capacity,
                        crate::trackers::greeks::DEFAULT_IV_SAMPLE_INTERVAL as nat,
                    ),
                )
            } else {
                None
            },
            put_call: if config.put_call {
                Some(crate::trackers::put_call::PutCallState::start())
            } else {
                None
            },
            effective_spread: if config.effective_spread {
                Some(crate::trackers::effective_spread::EffectiveSpreadState::start())
            } else {
                None
            },
        }
    }

    /// Which trackers are enabled.
    pub open spec fn enabled(self) -> TrackerConfig {
        TrackerConfig {
            quality: self.quality is Some,
            spread: self.spread is Some,
            premium_decay: self.premium_decay is Some,
            volume: self.volume is Some,
            greeks: self.greeks is Some,
            zero_dte: self.zero_dte is Some,
            put_call: self.put_call is Some,
            effective_spread: self.effective_spread is Some,
        }
    }

    /// Every enabled tracker is in a valid state.
    pub open spec fn valid(self) -> bool {
        &&& state_valid::<QualityTracker>(self.quality)
        &&& state_valid::<SpreadTracker>(self.spread)
        &&& state_valid::<ZeroDteTracker>(self.zero_dte)
        &&& state_valid::<PremiumDecayTracker>(self.premium_decay)
        &&& state_valid::<VolumeTracker>(self.volume)
        &&& state_valid::<GreeksTracker>(self.greeks)
        &&& state_valid::<PutCallRatioTracker>(self.put_call)
        &&& state_valid::<OptionsEffectiveSpreadTracker>(self.effective_spread)
    }

    /// Every enabled tracker can take another event and another day.
    pub open spec fn room(self) -> bool {
        &&& state_has_room::<QualityTracker>(self.quality)
        &&& state_has_room::<SpreadTracker>(self.spread)
        &&& state_has_room::<ZeroDteTracker>(self.zero_dte)
        &&& state_has_room::<PremiumDecayTracker>(self.premium_decay)
        &&& state_has_room::<VolumeTracker>(self.volume)
        &&& state_has_room::<GreeksTracker>(self.greeks)
        &&& state_has_room::<PutCallRatioTracker>(self.put_call)
        &&& state_has_room::<OptionsEffectiveSpreadTracker>(self.effective_spread)
    }

    /// After the start of a day.
    pub open spec fn begun(self, ctx: DayContext) -> TrackerStates {
        TrackerStates {
            quality: state_begun::<QualityTracker>(self.quality, ctx),
            spread: state_begun::<SpreadTracker>(self.spread, ctx),
            zero_dte: state_begun::<ZeroDteTracker>(self.zero_dte, ctx),
            premium_decay: state_begun::<PremiumDecayTracker>(self.premium_decay, ctx),
            volume: state_begun::<VolumeTracker>(self.volume, ctx),
            greeks: state_begun::<GreeksTracker>(self.greeks, ctx),
            put_call: state_begun::<PutCallRatioTracker>(self.put_call, ctx),
            effective_spread: state_begun::<OptionsEffectiveSpreadTracker>(
                self.effective_spread,
                ctx,
            ),
        }
    }

    /// After an event: each tracker has taken it.
    pub open spec fn after_event(self, event: OptionsEvent<'_>) -> TrackerStates {
        TrackerStates {
            quality: state_after_event::<QualityTracker>(self.quality, event),
            spread: state_after_event::<SpreadTracker>(self.spread, event),
            zero_dte: state_after_event::<ZeroDteTracker>(self.zero_dte, event),
            premium_decay: state_after_event::<PremiumDecayTracker>(self.premium_decay, event),
            volume: state_after_event::<VolumeTracker>(self.volume, event),
            greeks: state_after_event::<GreeksTracker>(self.greeks, event),
            put_call: state_after_event::<PutCallRatioTracker>(self.put_call, event),
            effective_spread: state_after_event::<OptionsEffectiveSpreadTracker>(
                self.effective_spread,
                event,
            ),
        }
    }

    /// What an event contributes, tracker by tracker.
    pub open spec fn event_effects(self, event: OptionsEvent<'_>) -> Seq<Effect> {
        state_event_effects::<QualityTracker>(self.quality, event) + state_event_effects::<
            SpreadTracker,
        >(self.spread, event) + state_event_effects::<ZeroDteTracker>(self.zero_dte, event)
            + state_event_effects::<PremiumDecayTracker>(self.premium_decay, event)
            + state_event_effects::<VolumeTracker>(self.volume, event) + state_event_effects::<
            GreeksTracker,
        >(self.greeks, event) + state_event_effects::<PutCallRatioTracker>(self.put_call, event)
            + state_event_effects::<OptionsEffectiveSpreadTracker>(self.effective_spread, event)
    }

    /// After the end of a day.
    pub open spec fn after_day(self) -> TrackerStates {
        TrackerStates {
            quality: state_after_day::<QualityTracker>(self.quality),
            spread: state_after_day::<SpreadTracker>(self.spread),
            zero_dte: state_after_day::<ZeroDteTracker>(self.zero_dte),
            premium_decay: state_after_day::<PremiumDecayTracker>(self.premium_decay),
            volume: state_after_day::<VolumeTracker>(self.volume),
            greeks: state_after_day::<GreeksTracker>(self.greeks),
            put_call: state_after_day::<PutCallRatioTracker>(self.put_call),
            effective_spread: state_after_day::<OptionsEffectiveSpreadTracker>(
                self.effective_spread,
            ),
        }
    }

    /// What a day contributes, tracker by tracker.
    pub open spec fn day_effects(self) -> Seq<Effect> {
        state_day_effects::<QualityTracker>(self.quality) + state_day_effects::<SpreadTracker>(
            self.spread,
        ) + state_day_effects::<ZeroDteTracker>(self.zero_dte) + state_day_effects::<
            PremiumDecayTracker,
        >(self.premium_decay) + state_day_effects::<VolumeTracker>(self.volume)
            + state_day_effects::<GreeksTracker>(self.greeks) + state_day_effects::<
            PutCallRatioTracker,
        >(self.put_call) + state_day_effects::<OptionsEffectiveSpreadTracker>(
            self.effective_spread,
        )
    }

    /// With the day-level parts reset.
    pub open spec fn after_reset(self) -> TrackerStates {
        TrackerStates {
            quality: state_after_reset::<QualityTracker>(self.quality),
            spread: state_after_reset::<SpreadTracker>(self.spread),
            zero_dte: state_after_reset::<ZeroDteTracker>(self.zero_dte),
            premium_decay: state_after_reset::<PremiumDecayTracker>(self.premium_decay),
            volume: state_after_reset::<VolumeTracker>(self.volume),
            greeks: state_after_reset::<GreeksTracker>(self.greeks),
            put_call: state_after_reset::<PutCallRatioTracker>(self.put_call),
            effective_spread: state_after_reset::<OptionsEffectiveSpreadTracker>(
                self.effective_spread,
            ),
        }
    }

    /// The reports of the enabled trackers, in their order.
    pub open spec fn reports(self) -> Seq<(&'static str, Seq<Row>)> {
        state_reports::<QualityTracker>(self.quality) + state_reports::<SpreadTracker>(self.spread)
            + state_reports::<ZeroDteTracker>(self.zero_dte) + state_reports::<
            PremiumDecayTracker,
        >(self.premium_decay) + state_reports::<VolumeTracker>(self.volume) + state_reports::<
            GreeksTracker,
        >(self.greeks) + state_reports::<PutCallRatioTracker>(self.put_call) + state_reports::<
            OptionsEffectiveSpreadTracker,
        >(self.effective_spread)
    }

    /// A volatility problem was stated and is not answered.
    pub open spec fn awaits(self, problem: IvProblem) -> bool {
        self.greeks is Some && self.greeks->0.iv_pending.contains(problem)
    }

    /// After the answer to a volatility problem.
    pub open spec fn after_solution(
        self,
        problem: IvProblem,
        solution: IvSolution,
    ) -> TrackerStates {
        TrackerStates {
            greeks: match self.greeks {
                Some(s) => Some(GreeksTracker::after_solution(s, problem, solution)),
                None => None,
            },
            ..self
        }
    }

    /// What the answer to a volatility problem contributes.
    pub open spec fn solution_effects(
        self,
        problem: IvProblem,
        solution: IvSolution,
    ) -> Seq<Effect> {
        match self.greeks {
            Some(s) => GreeksTracker::solution_effects(s, problem, solution),
            None => Seq::empty(),
        }
    }
}

impl View for TrackerSet {
    type V = TrackerStates;

    closed spec fn view(&self) -> TrackerStates {
        TrackerStates {
            quality: state_of(self.quality),
            spread: state_of(self.spread),
            zero_dte: state_of(self.zero_dte),
            premium_decay: state_of(self.premium_decay),
            volume: state_of(self.volume),
            greeks: state_of(self.greeks),
            put_call: state_of(self.put_call),
            effective_spread: state_of(self.effective_spread),
        }
    }
}

fn has_room<T: OptionsTracker>(tracker: &Option<T>) -> (r: bool)
    requires
        state_valid::<T>(state_of(*tracker)),
    ensures
        r == state_has_room::<T>(state_of(*tracker)),
{
    match tracker {
        Some(t) => t.has_room(),
        None => true,
    }
}

fn begin_day<T: OptionsTracker>(tracker: &mut Option<T>, ctx: &DayContext)
    requires
        state_valid::<T>(state_of(*old(tracker))),
    ensures
        state_of(*final(tracker)) == state_begun::<T>(state_of(*old(tracker)), *ctx),
        state_valid::<T>(state_of(*final(tracker))),
{
    match tracker {
        Some(t) => {
            t.begin_day(ctx);
        },
        None => {},
    }
}

fn process_event<T: OptionsTracker>(
    tracker: &mut Option<T>,
    event: &OptionsEvent<'_>,
    regime: u8,
    effects: &mut Vec<Effect>,
)
    requires
        state_valid::<T>(state_of(*old(tracker))),
        state_has_room::<T>(state_of(*old(tracker))),
    ensures
        state_of(*final(tracker)) == state_after_event::<T>(state_of(*old(tracker)), *event),
        state_valid::<T>(state_of(*final(tracker))),
        final(effects)@ == old(effects)@ + state_event_effects::<T>(
            state_of(*old(tracker)),
            *event,
        ),
{
    match tracker {
        Some(t) => {
            let mut own: Vec<Effect> = t.process_event(event, regime);
            effects.append(&mut own);
        },
        None => {
            assert(effects@ + Seq::<Effect>::empty() =~= effects@);
        },
    }
}

fn end_of_day<T: OptionsTracker>(
    tracker: &mut Option<T>,
    day_index: u32,
    effects: &mut Vec<Effect>,
)
    requires
        state_valid::<T>(state_of(*old(tracker))),
        state_has_room::<T>(state_of(*old(tracker))),
    ensures
        state_of(*final(tracker)) == state_after_day::<T>(state_of(*old(tracker))),
        state_valid::<T>(state_of(*final(tracker))),
        final(effects)@ == old(effects)@ + state_day_effects::<T>(state_of(*old(tracker))),
{
    match tracker {
        Some(t) => {
            let mut own: Vec<Effect> = t.end_of_day(day_index);
            effects.append(&mut own);
        },
        None => {
            assert(effects@ + Seq::<Effect>::empty() =~= effects@);
        },
    }
}

fn reset_day<T: OptionsTracker>(tracker: &mut Option<T>)
    requires
        state_valid::<T>(state_of(*old(tracker))),
    ensures
        state_of(*final(tracker)) == state_after_reset::<T>(state_of(*old(tracker))),
        state_valid::<T>(state_of(*final(tracker))),
{
    match tracker {
        Some(t) => {
            t.reset_day();
        },
        None => {},
    }
}

fn add_report<T: OptionsTracker>(
    tracker: &Option<T>,
    reports: &mut Vec<(&'static str, Vec<Row>)>,
)
    requires
        state_valid::<T>(state_of(*tracker)),
    ensures
        report_models(final(reports)@) == report_models(old(reports)@) + state_reports::<T>(
            state_of(*tracker),
        ),
{
    match tracker {
        Some(t) => {
            reports.push((t.name(), t.finalize()));
            assert(report_models(reports@) =~= report_models(old(reports)@) + state_reports::<T>(
                state_of(*tracker),
            ));
        },
        None => {
            assert(report_models(reports@) =~= report_models(old(reports)@) + state_reports::<T>(
                state_of(*tracker),
            ));
        },
    }
}

impl TrackerSet {
    /// The trackers that a configuration enables.
    pub fn from_config(
        config: &TrackerConfig,
        risk_free_rate: i64,
        reservoir_capacity: usize,
    ) -> (r: Self)
        ensures
            r@ == TrackerStates::start(*config, risk_free_rate, reservoir_capacity),
            r@.valid(),
    {
        TrackerSet {
            quality: if config.quality {
                Some(QualityTracker::new())
            } else {
                None
            },
            spread: if config.spread {
                Some(SpreadTracker::new(reservoir_capacity))
            } else {
                None
            },
            zero_dte: if config.zero_dte {
                Some(ZeroDteTracker::new(reservoir_capacity))
            } else {
                None
            },
            premium_decay: if config.premium_decay {
                Some(PremiumDecayTracker::new(risk_free_rate))
            } else {
                None
            },
            volume: if config.volume {
                Some(VolumeTracker::new(reservoir_capacity))
            } else {
                None
            },
            greeks: if config.greeks {
                Some(GreeksTracker::new(risk_free_rate, reservoir_capacity))
            } else {
                None
            },
            put_call: if config.put_call {
                Some(PutCallRatioTracker::new())
            } else {
                None
            },
            effective_spread: if config.effective_spread {
                Some(OptionsEffectiveSpreadTracker::new())
            } else {
                None
            },
        }
    }
}

impl TrackerGroup for TrackerSet {
    open spec fn valid(states: TrackerStates) -> bool {
        states.valid()
    }

    open spec fn room(states: TrackerStates) -> bool {
        states.room()
    }

    open spec fn begun(states: TrackerStates, ctx: DayContext) -> TrackerStates {
        states.begun(ctx)
    }

    open spec fn after_event(states: TrackerStates, event: OptionsEvent<'_>) -> TrackerStates {
        states.after_event(event)
    }

    open spec fn event_effects(states: TrackerStates, event: OptionsEvent<'_>) -> Seq<Effect> {
        states.event_effects(event)
    }

    open spec fn after_day(states: TrackerStates) -> TrackerStates {
        states.after_day()
    }

    open spec fn day_effects(states: TrackerStates) -> Seq<Effect> {
        states.day_effects()
    }

    open spec fn after_reset(states: TrackerStates) -> TrackerStates {
        states.after_reset()
    }

    open spec fn awaits(states: TrackerStates, problem: IvProblem) -> bool {
        states.awaits(problem)
    }

    open spec fn after_solution(
        states: TrackerStates,
        problem: IvProblem,
        solution: IvSolution,
    ) -> TrackerStates {
        states.after_solution(problem, solution)
    }

    open spec fn solution_effects(
        states: TrackerStates,
        problem: IvProblem,
        solution: IvSolution,
    ) -> Seq<Effect> {
        states.solution_effects(problem, solution)
    }

    open spec fn reports(states: TrackerStates) -> Seq<(&'static str, Seq<Row>)> {
        states.reports()
    }

    fn has_room(&self) -> bool {
        has_room(&self.quality) && has_room(&self.spread) && has_room(&self.zero_dte) && has_room(
            &self.premium_decay,
        ) && has_room(&self.volume) && has_room(&self.greeks) && has_room(&self.put_call)
            && has_room(&self.effective_spread)
    }

    fn begin_day(&mut self, ctx: &DayContext) {
        begin_day(&mut self.quality, ctx);
        begin_day(&mut self.spread, ctx);
        begin_day(&mut self.zero_dte, ctx);
        begin_day(&mut self.premium_decay, ctx);
        begin_day(&mut self.volume, ctx);
        begin_day(&mut self.greeks, ctx);
        begin_day(&mut self.put_call, ctx);
        begin_day(&mut self.effective_spread, ctx);
    }

    fn process_event(&mut self, event: &OptionsEvent<'_>, regime: u8) -> Vec<Effect> {
        let mut effects: Vec<Effect> = Vec::new();
        process_event(&mut self.quality, event, regime, &mut effects);
        process_event(&mut self.spread, event, regime, &mut effects);
        process_event(&mut self.zero_dte, event, regime, &mut effects);
        process_event(&mut self.premium_decay, event, regime, &mut effects);
        process_event(&mut self.volume, event, regime, &mut effects);
        process_event(&mut self.greeks, event, regime, &mut effects);
        process_event(&mut self.put_call, event, regime, &mut effects);
        process_event(&mut self.effective_spread, event, regime, &mut effects);
        assert(effects@ =~= old(self)@.event_effects(*event));
        effects
    }

    fn end_of_day(&mut self, day_index: u32) -> Vec<Effect> {
        let mut effects: Vec<Effect> = Vec::new();
        end_of_day(&mut self.quality, day_index, &mut effects);
        end_of_day(&mut self.spread, day_index, &mut effects);
        end_of_day(&mut self.zero_dte, day_index, &mut effects);
        end_of_day(&mut self.premium_decay, day_index, &mut effects);
        end_of_day(&mut self.volume, day_index, &mut effects);
        end_of_day(&mut self.greeks, day_index, &mut effects);
        end_of_day(&mut self.put_call, day_index, &mut effects);
        end_of_day(&mut self.effective_spread, day_index, &mut effects);
        assert(effects@ =~= old(self)@.day_effects());
        effects
    }

    fn reset_day(&mut self) {
        reset_day(&mut self.quality);
        reset_day(&mut self.spread);
        reset_day(&mut self.zero_dte);
        reset_day(&mut self.premium_decay);
        reset_day(&mut self.volume);
        reset_day(&mut self.greeks);
        reset_day(&mut self.put_call);
        reset_day(&mut self.effective_spread);
    }

    fn awaits_solution(&self, problem: &IvProblem) -> bool {
        match &self.greeks {
            Some(t) => t.awaits_solution(problem),
            None => false,
        }
    }

    fn resolve(&mut self, problem: &IvProblem, solution: &IvSolution) -> Vec<Effect> {
        match &mut self.greeks {
            Some(t) => t.resolve(problem, solution),
            None => Vec::new(),
        }
    }

    fn finalize(&self) -> (reports: Vec<(&'static str, Vec<Row>)>) {
        let mut reports: Vec<(&'static str, Vec<Row>)> = Vec::new();
        assert(report_models(reports@) =~= Seq::empty());
        add_report(&self.quality, &mut reports);
        add_report(&self.spread, &mut reports);
        add_report(&self.zero_dte, &mut reports);
        add_report(&self.premium_decay, &mut reports);
        add_report(&self.volume, &mut reports);
        add_report(&self.greeks, &mut reports);
        add_report(&self.put_call, &mut reports);
        add_report(&self.effective_spread, &mut reports);
        assert(report_models(reports@) =~= self@.reports());
        reports
    }
}

/// Trackers are independent: a tracker's state after an event depends on its
/// own state and the event alone, whichever others are enabled.
pub proof fn law_trackers_are_independent(
    a: TrackerStates,
    b: TrackerStates,
    event: OptionsEvent<'_>,
)
    ensures
        a.quality == b.quality ==> a.after_event(event).quality == b.after_event(event).quality,
        a.spread == b.spread ==> a.after_event(event).spread == b.after_event(event).spread,
        a.zero_dte == b.zero_dte ==> a.after_event(event).zero_dte == b.after_event(event).zero_dte,
        a.premium_decay == b.premium_decay ==> a.after_event(event).premium_decay == b.after_event(
            event,
        ).premium_decay,
        a.volume == b.volume ==> a.after_event(event).volume == b.after_event(event).volume,
        a.greeks == b.greeks ==> a.after_event(event).greeks == b.after_event(event).greeks,
        a.put_call == b.put_call ==> a.after_event(event).put_call == b.after_event(event).put_call,
        a.effective_spread == b.effective_spread ==> a.after_event(event).effective_spread
            == b.after_event(event).effective_spread,
{
}

/// A name, where it is wanted.
pub open spec fn name_if(wanted: bool, name: &'static str) -> Seq<&'static str> {
    if wanted {
        seq![name]
    } else {
        Seq::empty()
    }
}

/// The names of the trackers that a configuration enables, in the order in
/// which their reports are numbered.
pub open spec fn report_names(config: TrackerConfig) -> Seq<&'static str> {
    name_if(config.quality, "QualityTracker") + name_if(config.spread, "SpreadTracker") + name_if(
        config.zero_dte,
        "ZeroDteTracker",
    ) + name_if(config.premium_decay, "PremiumDecayTracker") + name_if(
        config.volume,
        "VolumeTracker",
    ) + name_if(config.greeks, "GreeksTracker") + name_if(config.put_call, "PutCallRatioTracker")
        + name_if(config.effective_spread, "OptionsEffectiveSpreadTracker")
}

/// A tracker is enabled for a run as the configuration says, from the first day
/// to the last.
pub proof fn law_enabled_trackers_stay_enabled(
    config: TrackerConfig,
    rate: i64,
    capacity: usize,
    states: TrackerStates,
    ctx: DayContext,
    event: OptionsEvent<'_>,
    problem: IvProblem,
    solution: IvSolution,
)
    ensures
        TrackerStates::start(config, rate, capacity).enabled() == config,
        states.begun(ctx).enabled() == states.enabled(),
        states.after_event(event).enabled() == states.enabled(),
        states.after_solution(problem, solution).enabled() == states.enabled(),
        states.after_day().enabled() == states.enabled(),
        states.after_reset().enabled() == states.enabled(),
{
}

/// The names of reports.
pub open spec fn names_of(reports: Seq<(&'static str, Seq<Row>)>) -> Seq<&'static str> {
    reports.map_values(|report: (&'static str, Seq<Row>)| report.0)
}

proof fn lemma_one_name<T: OptionsTracker>(
    reports: Seq<(&'static str, Seq<Row>)>,
    names: Seq<&'static str>,
    state: Option<T::V>,
)
    requires
        names_of(reports) == names,
    ensures
        names_of(reports + state_reports::<T>(state)) == names + name_if(state is Some, T::label()),
{
    assert(names_of(reports + state_reports::<T>(state)) =~= names + name_if(
        state is Some,
        T::label(),
    ));
}

/// There is one report for each enabled tracker, under its name and in order.
pub proof fn law_reports_are_those_of_the_enabled_trackers(states: TrackerStates)
    ensures
        names_of(states.reports()) == report_names(states.enabled()),
{
    let c = states.enabled();
    let r0 = Seq::<(&'static str, Seq<Row>)>::empty();
    let n0 = Seq::<&'static str>::empty();
    assert(names_of(r0) =~= n0);
    lemma_one_name::<QualityTracker>(r0, n0, states.quality);
    let r1 = state_reports::<QualityTracker>(states.quality);
    let n1 = name_if(c.quality, "QualityTracker");
    assert(r0 + r1 =~= r1);
    assert(n0 + n1 =~= n1);
    lemma_one_name::<SpreadTracker>(r1, n1, states.spread);
    let r2 = r1 + state_reports::<SpreadTracker>(states.spread);
    let n2 = n1 + name_if(c.spread, "SpreadTracker");
    lemma_one_name::<ZeroDteTracker>(r2, n2, states.zero_dte);
    let r3 = r2 + state_reports::<ZeroDteTracker>(states.zero_dte);
    let n3 = n2 + name_if(c.zero_dte, "ZeroDteTracker");
    lemma_one_name::<PremiumDecayTracker>(r3, n3, states.premium_decay);
    let r4 = r3 + state_reports::<PremiumDecayTracker>(states.premium_decay);
    let n4 = n3 + name_if(c.premium_decay, "PremiumDecayTracker");
    lemma_one_name::<VolumeTracker>(r4, n4, states.volume);
    let r5 = r4 + state_reports::<VolumeTracker>(states.volume);
    let n5 = n4 + name_if(c.volume, "VolumeTracker");
    lemma_one_name::<GreeksTracker>(r5, n5, states.greeks);
    let r6 = r5 + state_reports::<GreeksTracker>(states.greeks);
    let n6 = n5 + name_if(c.greeks, "GreeksTracker");
    lemma_one_name::<PutCallRatioTracker>(r6, n6, states.put_call);
    let r7 = r6 + state_reports::<PutCallRatioTracker>(states.put_call);
    let n7 = n6 + name_if(c.put_call, "PutCallRatioTracker");
    lemma_one_name::<OptionsEffectiveSpreadTracker>(r7, n7, states.effective_spread);
}

/// An observation stands among the effects of an event exactly when it is one of
/// those of an enabled tracker, and so at the end of a day.
pub proof fn law_effects_are_those_of_the_trackers(
    states: TrackerStates,
    event: OptionsEvent<'_>,
    effect: Effect,
)
    ensures
        states.event_effects(event).contains(effect) <==> ({
            ||| states.quality is Some && QualityTracker::event_effects(
                states.quality->0,
                event,
            ).contains(effect)
            ||| states.spread is Some && SpreadTracker::event_effects(
                states.spread->0,
                event,
            ).contains(effect)
            ||| states.zero_dte is Some && ZeroDteTracker::event_effects(
                states.zero_dte->0,
                event,
            ).contains(effect)
            ||| states.premium_decay is Some && PremiumDecayTracker::event_effects(
                states.premium_decay->0,
                event,
            ).contains(effect)
            ||| states.volume is Some && VolumeTracker::event_effects(
                states.volume->0,
                event,
            ).contains(effect)
            ||| states.greeks is Some && GreeksTracker::event_effects(
                states.greeks->0,
                event,
            ).contains(effect)
            ||| states.put_call is Some && PutCallRatioTracker::event_effects(
                states.put_call->0,
                event,
            ).contains(effect)
            ||| states.effective_spread is Some && OptionsEffectiveSpreadTracker::event_effects(
                states.effective_spread->0,
                event,
            ).contains(effect)
        }),
        states.day_effects().contains(effect) <==> ({
            ||| states.quality is Some && QualityTracker::day_effects(
                states.quality->0,
            ).contains(effect)
            ||| states.spread is Some && SpreadTracker::day_effects(
                states.spread->0,
            ).contains(effect)
            ||| states.zero_dte is Some && ZeroDteTracker::day_effects(
                states.zero_dte->0,
            ).contains(effect)
            ||| states.premium_decay is Some && PremiumDecayTracker::day_effects(
                states.premium_decay->0,
            ).contains(effect)
            ||| states.volume is Some && VolumeTracker::day_effects(
                states.volume->0,
            ).contains(effect)
            ||| states.greeks is Some && GreeksTracker::day_effects(
                states.greeks->0,
            ).contains(effect)
            ||| states.put_call is Some && PutCallRatioTracker::day_effects(
                states.put_call->0,
            ).contains(effect)
            ||| states.effective_spread is Some && OptionsEffectiveSpreadTracker::day_effects(
                states.effective_spread->0,
            ).contains(effect)
        }),
{
    broadcast use lemma_contains_of_sum;

}

/// What a concatenation holds.
broadcast proof fn lemma_contains_of_sum(a: Seq<Effect>, b: Seq<Effect>, effect: Effect)
    ensures
        #[trigger] (a + b).contains(effect) <==> a.contains(effect) || b.contains(effect),
{
    if a.contains(effect) {
        let i = choose|i: int| 0 <= i < a.len() && a[i] == effect;
        assert((a + b)[i] == effect);
    }
    if b.contains(effect) {
        let i = choose|i: int| 0 <= i < b.len() && b[i] == effect;
        assert((a + b)[a.len() + i] == effect);
    }
    if (a + b).contains(effect) {
        let i = choose|i: int| 0 <= i < (a + b).len() && (a + b)[i] == effect;
        if i < a.len() {
            assert(a[i] == effect);
        } else {
            assert(b[i - a.len()] == effect);
        }
    }
}

/// Every enabled tracker gets every call: the start of a day, an event, the end
/// of a day and the reset each take its state to what the tracker makes of it.
pub proof fn law_every_tracker_gets_every_call(
    states: TrackerStates,
    ctx: DayContext,
    event: OptionsEvent<'_>,
)
    ensures
        ({
            &&& states.quality matches Some(s) ==> {
                &&& states.begun(ctx).quality == Some(QualityTracker::begun(s, ctx))
                &&& states.after_event(event).quality == Some(QualityTracker::after_event(s, event))
                &&& states.after_day().quality == Some(QualityTracker::after_day(s))
                &&& states.after_reset().quality == Some(QualityTracker::after_reset(s))
            }
            &&& states.spread matches Some(s) ==> {
                &&& states.begun(ctx).spread == Some(SpreadTracker::begun(s, ctx))
                &&& states.after_event(event).spread == Some(SpreadTracker::after_event(s, event))
                &&& states.after_day().spread == Some(SpreadTracker::after_day(s))
                &&& states.after_reset().spread == Some(SpreadTracker::after_reset(s))
            }
            &&& states.zero_dte matches Some(s) ==> {
                &&& states.begun(ctx).zero_dte == Some(ZeroDteTracker::begun(s, ctx))
                &&& states.after_event(event).zero_dte == Some(
                    ZeroDteTracker::after_event(s, event),
                )
                &&& states.after_day().zero_dte == Some(ZeroDteTracker::after_day(s))
                &&& states.after_reset().zero_dte == Some(ZeroDteTracker::after_reset(s))
            }
            &&& states.premium_decay matches Some(s) ==> {
                &&& states.begun(ctx).premium_decay == Some(PremiumDecayTracker::begun(s, ctx))
                &&& states.after_event(event).premium_decay == Some(
                    PremiumDecayTracker::after_event(s, event),
                )
                &&& states.after_day().premium_decay == Some(PremiumDecayTracker::after_day(s))
                &&& states.after_reset().premium_decay == Some(PremiumDecayTracker::after_reset(s))
            }
            &&& states.volume matches Some(s) ==> {
                &&& states.begun(ctx).volume == Some(VolumeTracker::begun(s, ctx))
                &&& states.after_event(event).volume == Some(VolumeTracker::after_event(s, event))
                &&& states.after_day().volume == Some(VolumeTracker::after_day(s))
                &&& states.after_reset().volume == Some(VolumeTracker::after_reset(s))
            }
            &&& states.greeks matches Some(s) ==> {
                &&& states.begun(ctx).greeks == Some(GreeksTracker::begun(s, ctx))
                &&& states.after_event(event).greeks == Some(GreeksTracker::after_event(s, event))
                &&& states.after_day().greeks == Some(GreeksTracker::after_day(s))
                &&& states.after_reset().greeks == Some(GreeksTracker::after_reset(s))
            }
            &&& states.put_call matches Some(s) ==> {
                &&& states.begun(ctx).put_call == Some(PutCallRatioTracker::begun(s, ctx))
                &&& states.after_event(event).put_call == Some(
                    PutCallRatioTracker::after_event(s, event),
                )
                &&& states.after_day().put_call == Some(PutCallRatioTracker::after_day(s))
                &&& states.after_reset().put_call == Some(PutCallRatioTracker::after_reset(s))
            }
            &&& states.effective_spread matches Some(s) ==> {
                &&& states.begun(ctx).effective_spread == Some(
                    OptionsEffectiveSpreadTracker::begun(s, ctx),
                )
                &&& states.after_event(event).effective_spread == Some(
                    OptionsEffectiveSpreadTracker::after_event(s, event),
                )
                &&& states.after_day().effective_spread == Some(
                    OptionsEffectiveSpreadTracker::after_day(s),
                )
                &&& states.after_reset().effective_spread == Some(
                    OptionsEffectiveSpreadTracker::after_reset(s),
                )
            }
        }),
{
}

/// The answer to a volatility problem goes to the tracker of the Greeks alone,
/// where it is enabled: a problem is awaited while that tracker has it pending,
/// the answer takes its state to what it makes of it and contributes what it
/// contributes, and the other trackers stay as they were.
pub proof fn law_answers_go_to_the_greeks(
    states: TrackerStates,
    problem: IvProblem,
    solution: IvSolution,
)
    ensures
        ({
            let after = states.after_solution(problem, solution);
            let effects = states.solution_effects(problem, solution);
            &&& states.awaits(problem) <==> (states.greeks matches Some(s)
                && s.iv_pending.contains(problem))
            &&& states.greeks matches Some(s) ==> {
                &&& after.greeks == Some(GreeksTracker::after_solution(s, problem, solution))
                &&& effects == GreeksTracker::solution_effects(s, problem, solution)
            }
            &&& states.greeks is None ==> after.greeks is None && effects.len() == 0
            &&& after.quality == states.quality && after.spread == states.spread
            &&& after.zero_dte == states.zero_dte && after.premium_decay == states.premium_decay
            &&& after.volume == states.volume && after.put_call == states.put_call
            &&& after.effective_spread == states.effective_spread
        }),
{
}

} // verus!
