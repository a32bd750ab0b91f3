//! OPRA statistical profiler core.
//!
//! Options microstructure analysis: raw OPRA CMBP-1 records pass once through
//! composable trackers, which decide what enters which statistic and what the
//! reports hold.
//!
//! ```text
//! decoded records → loader → contract lookup → OptionsEvent
//!                                                    │
//!                                       ┌────────────┼────────────┐
//!                                       ▼            ▼            ▼
//!                                QualityTracker  SpreadTracker  ...
//!                                       │            │            │
//!                                       └────────────┼────────────┘
//!                                                    ▼
//!                                       observations and report rows
//! ```
//!
//! - **Single pass**: all trackers process events simultaneously.
//! - **Composable**: each tracker is independent, enabled or disabled by the
//!   configuration.
//! - **Exact**: prices are integers and derived quantities fractions of
//!   integers; rounding begins where a statistic is accumulated.

pub mod cli;
pub mod config;
pub mod contract;
pub mod date;
pub mod diagnostics;
pub mod discovery;
pub mod event;
pub mod fraction;
pub mod history;
pub mod loader;
pub mod observation;
pub mod options_math;
pub mod os_ratio;
pub mod profiler;
pub mod report;
pub mod report_utils;
pub mod session;
pub mod sorting;
pub mod text;
pub mod tracker_set;
pub mod trackers;
pub mod underlying;

use event::{DayContext, OptionsEvent};
use observation::{Effect, IvProblem, IvSolution};
use report::Row;
use vstd::prelude::*;

verus! {

/// A tracker's counters may grow up to here before an event, so that an event
/// of any size still fits.
pub const COUNTER_LIMIT: u64 = 0xFFFF_FFFF_0000_0000;

/// Trait implemented by all options analysis trackers.
///
/// Each tracker processes OPRA CMBP-1 events enriched with contract metadata
/// (strike, expiration, DTE, moneyness, underlying price), accumulates
/// statistics across days, and produces a report at finalization. What a
/// tracker does is stated over its view, the mathematical state of the tracker.
///
/// # Lifecycle
///
/// 1. `begin_day()` — called once at the start of each trading day with day-level context
/// 2. `process_event()` — called for every enriched options event
///    (`resolve()` follows for every volatility problem that the event stated)
/// 3. `end_of_day()` — called once when a day boundary is detected
/// 4. `reset_day()` — called to prepare for the next day
/// 5. `finalize()` — called once after all data to produce the report
pub trait OptionsTracker: View + Sized {
    /// What holds of every state of the tracker.
    spec fn valid(state: Self::V) -> bool;

    /// The counters can take another event and another day.
    spec fn room(state: Self::V) -> bool;

    /// The state after the start of a day.
    spec fn begun(state: Self::V, ctx: DayContext) -> Self::V;

    /// The state after an event.
    spec fn after_event(state: Self::V, event: OptionsEvent<'_>) -> Self::V;

    /// What an event contributes to the statistics.
    spec fn event_effects(state: Self::V, event: OptionsEvent<'_>) -> Seq<Effect>;

    /// The state after the end of a day.
    spec fn after_day(state: Self::V) -> Self::V;

    /// What a day contributes to the statistics.
    spec fn day_effects(state: Self::V) -> Seq<Effect>;

    /// The state with its day-level part reset.
    spec fn after_reset(state: Self::V) -> Self::V;

    /// The volatility problems that were stated and are not answered.
    spec fn pending(state: Self::V) -> Seq<IvProblem>;

    /// The state after the answer to a problem.
    spec fn after_solution(state: Self::V, problem: IvProblem, solution: IvSolution) -> Self::V;

    /// What the answer to a problem contributes to the statistics.
    spec fn solution_effects(state: Self::V, problem: IvProblem, solution: IvSolution) -> Seq<
        Effect,
    >;

    /// The report of a state.
    spec fn report(state: Self::V) -> Seq<Row>;

    /// The name of the tracker.
    spec fn label() -> &'static str;

    /// Whether the counters can take another event and another day.
    fn has_room(&self) -> (r: bool)
        requires
            Self::valid(self@),
        ensures
            r == Self::room(self@),
    ;

    /// Called at the start of each trading day with day-level context.
    fn begin_day(&mut self, ctx: &DayContext)
        requires
            Self::valid(old(self)@),
        ensures
            final(self)@ == Self::begun(old(self)@, *ctx),
            Self::valid(final(self)@),
    ;

    /// Process a single enriched options event.
    ///
    /// The `regime` parameter is reserved for time-of-day regime analysis: no
    /// tracker uses it, and it is passed as 0.
    fn process_event(&mut self, event: &OptionsEvent<'_>, regime: u8) -> (effects: Vec<Effect>)
        requires
            Self::valid(old(self)@),
            Self::room(old(self)@),
        ensures
            final(self)@ == Self::after_event(old(self)@, *event),
            effects@ == Self::event_effects(old(self)@, *event),
            Self::valid(final(self)@),
    ;

    /// Called when a day boundary is detected.
    fn end_of_day(&mut self, day_index: u32) -> (effects: Vec<Effect>)
        requires
            Self::valid(old(self)@),
            Self::room(old(self)@),
        ensures
            final(self)@ == Self::after_day(old(self)@),
            effects@ == Self::day_effects(old(self)@),
            Self::valid(final(self)@),
    ;

    /// Reset day-level state in preparation for the next day.
    fn reset_day(&mut self)
        requires
            Self::valid(old(self)@),
        ensures
            final(self)@ == Self::after_reset(old(self)@),
            Self::valid(final(self)@),
    ;

    /// Whether a problem was stated and is not answered.
    fn awaits_solution(&self, problem: &IvProblem) -> (r: bool)
        ensures
            r == Self::pending(self@).contains(*problem),
    ;

    /// Takes the answer to a problem. An answer to a problem that is not pending
    /// changes nothing.
    fn resolve(&mut self, problem: &IvProblem, solution: &IvSolution) -> (effects: Vec<Effect>)
        requires
            Self::valid(old(self)@),
        ensures
            final(self)@ == Self::after_solution(old(self)@, *problem, *solution),
            effects@ == Self::solution_effects(old(self)@, *problem, *solution),
            Self::valid(final(self)@),
            !Self::pending(old(self)@).contains(*problem) ==> final(self)@ == old(self)@
                && effects@.len() == 0,
    ;

    /// Produce the final report after all data has been processed.
    fn finalize(&self) -> (rows: Vec<Row>)
        requires
            Self::valid(self@),
        ensures
            rows@ == Self::report(self@),
    ;

    /// Human-readable name for logging and report identification.
    fn name(&self) -> (r: &'static str)
        ensures
            r == Self::label(),
    ;
}

} // verus!
