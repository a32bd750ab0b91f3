//! Whole histories of calls on a tracker.
//!
//! The contracts of [`OptionsTracker`] speak of one call. Here they are strung
//! together: the state and the effects after a sequence of calls, and how often
//! something happened in it. Each tracker's file states what its counters and
//! statistics amount to over a history.

use crate::event::{DayContext, OptionsEvent};
use crate::observation::{Channel, Effect, IvProblem, IvSolution};
use crate::OptionsTracker;
use vstd::prelude::*;

verus! {

/// A call on a tracker.
pub enum TrackerCall<'a> {
    Begin(DayContext),
    Event(OptionsEvent<'a>),
    Answer(IvProblem, IvSolution),
    End,
    Reset,
}

/// The state after a call.
pub open spec fn after_call<T: OptionsTracker>(s: T::V, call: TrackerCall<'_>) -> T::V {
    match call {
        TrackerCall::Begin(ctx) => T::begun(s, ctx),
        TrackerCall::Event(event) => T::after_event(s, event),
        TrackerCall::Answer(problem, solution) => T::after_solution(s, problem, solution),
        TrackerCall::End => T::after_day(s),
        TrackerCall::Reset => T::after_reset(s),
    }
}

/// What a call contributes to the statistics.
pub open spec fn call_effects<T: OptionsTracker>(s: T::V, call: TrackerCall<'_>) -> Seq<Effect> {
    match call {
        TrackerCall::Event(event) => T::event_effects(s, event),
        TrackerCall::Answer(problem, solution) => T::solution_effects(s, problem, solution),
        TrackerCall::End => T::day_effects(s),
        _ => Seq::empty(),
    }
}

/// The state after a sequence of calls.
pub open spec fn after_history<T: OptionsTracker>(s: T::V, calls: Seq<TrackerCall<'_>>) -> T::V
    decreases calls.len(),
{
    if calls.len() == 0 {
        s
    } else {
        after_call::<T>(after_history::<T>(s, calls.drop_last()), calls.last())
    }
}

/// What a sequence of calls contributes to the statistics, in order.
pub open spec fn history_effects<T: OptionsTracker>(
    s: T::V,
    calls: Seq<TrackerCall<'_>>,
) -> Seq<Effect>
    decreases calls.len(),
{
    if calls.len() == 0 {
        Seq::empty()
    } else {
        history_effects::<T>(s, calls.drop_last()) + call_effects::<T>(
            after_history::<T>(s, calls.drop_last()),
            calls.last(),
        )
    }
}

/// Every answer in a sequence of calls is to a problem that is pending.
pub open spec fn answers_are_awaited<T: OptionsTracker>(
    s: T::V,
    calls: Seq<TrackerCall<'_>>,
) -> bool
    decreases calls.len(),
{
    calls.len() > 0 ==> {
        &&& answers_are_awaited::<T>(s, calls.drop_last())
        &&& calls.last() matches TrackerCall::Answer(problem, solution) ==> T::pending(
            after_history::<T>(s, calls.drop_last()),
        ).contains(problem)
    }
}

/// How many events of a kind there are among calls.
pub open spec fn count_events<'a>(
    calls: Seq<TrackerCall<'a>>,
    kind: spec_fn(OptionsEvent<'a>) -> bool,
) -> nat
    decreases calls.len(),
{
    if calls.len() == 0 {
        0
    } else {
        count_events(calls.drop_last(), kind) + match calls.last() {
            TrackerCall::Event(event) => if kind(event) {
                1nat
            } else {
                0
            },
            _ => 0,
        }
    }
}

/// The trade sizes of the events of a kind, added up.
pub open spec fn sum_sizes<'a>(
    calls: Seq<TrackerCall<'a>>,
    kind: spec_fn(OptionsEvent<'a>) -> bool,
) -> nat
    decreases calls.len(),
{
    if calls.len() == 0 {
        0
    } else {
        sum_sizes(calls.drop_last(), kind) + match calls.last() {
            TrackerCall::Event(event) => if kind(event) {
                event.trade_size as nat
            } else {
                0
            },
            _ => 0,
        }
    }
}

/// How many answers of a kind there are among calls.
pub open spec fn count_answers(
    calls: Seq<TrackerCall<'_>>,
    kind: spec_fn(IvProblem, IvSolution) -> bool,
) -> nat
    decreases calls.len(),
{
    if calls.len() == 0 {
        0
    } else {
        count_answers(calls.drop_last(), kind) + match calls.last() {
            TrackerCall::Answer(problem, solution) => if kind(problem, solution) {
                1nat
            } else {
                0
            },
            _ => 0,
        }
    }
}

/// How many days end among calls.
pub open spec fn count_days(calls: Seq<TrackerCall<'_>>) -> nat
    decreases calls.len(),
{
    if calls.len() == 0 {
        0
    } else {
        count_days(calls.drop_last()) + (if calls.last() is End {
            1nat
        } else {
            0
        })
    }
}

/// How many days end among calls with the tracker in a state of a kind.
pub open spec fn count_days_with<T: OptionsTracker>(
    s: T::V,
    calls: Seq<TrackerCall<'_>>,
    kind: spec_fn(T::V) -> bool,
) -> nat
    decreases calls.len(),
{
    if calls.len() == 0 {
        0
    } else {
        count_days_with::<T>(s, calls.drop_last(), kind) + one_if(
            calls.last() is End && kind(after_history::<T>(s, calls.drop_last())),
        )
    }
}

/// One where a condition holds, and zero otherwise.
pub open spec fn one_if(condition: bool) -> nat {
    if condition {
        1
    } else {
        0
    }
}

/// The effect is an observation in the channel.
pub open spec fn enters(effect: Effect, channel: Channel) -> bool {
    match effect {
        Effect::Observe { channel: c, .. } => c == channel,
        Effect::Trace { channel: c, .. } => c == channel,
        Effect::SolveIv(_) => false,
    }
}

/// How many of the first `n` effects are observations in a channel.
#[verifier::opaque]
pub open spec fn observed_first(effects: Seq<Effect>, channel: Channel, n: int) -> nat
    decreases n,
{
    if n <= 0 {
        0
    } else {
        observed_first(effects, channel, n - 1) + (if enters(effects[n - 1], channel) {
            1nat
        } else {
            0
        })
    }
}

/// How many effects are observations in a channel: the count of its statistic.
pub open spec fn observations(effects: Seq<Effect>, channel: Channel) -> nat {
    observed_first(effects, channel, effects.len() as int)
}

/// Where it is wanted, the effects hold one observation in a channel, and it is
/// the number `num / den`; where not, they hold none.
pub open spec fn observes(
    effects: Seq<Effect>,
    channel: Channel,
    wanted: bool,
    num: int,
    den: int,
) -> bool {
    &&& observations(effects, channel) == one_if(wanted)
    &&& forall|i: int|
        0 <= i < effects.len() && enters(#[trigger] effects[i], channel) ==> (
        effects[i] matches Effect::Observe { channel: c, value } && crate::observation::amounts_to(
            value,
            num,
            den,
        ))
}

/// Where it is wanted, the effects hold one point of a curve, at the time of an
/// event under a UTC offset, and it is the number `num / den`; where not, they
/// hold none.
pub open spec fn traces(
    effects: Seq<Effect>,
    channel: Channel,
    wanted: bool,
    ts: i64,
    offset: i32,
    num: int,
    den: int,
) -> bool {
    &&& observations(effects, channel) == one_if(wanted)
    &&& forall|i: int|
        0 <= i < effects.len() && enters(#[trigger] effects[i], channel) ==> (
        effects[i] matches Effect::Trace { channel: c, ts_event, value, utc_offset } && ts_event
            == ts && utc_offset == offset && crate::observation::amounts_to(value, num, den))
}

/// The first event of a kind among calls.
pub open spec fn first_event<'a>(
    calls: Seq<TrackerCall<'a>>,
    kind: spec_fn(OptionsEvent<'a>) -> bool,
) -> Option<OptionsEvent<'a>>
    decreases calls.len(),
{
    if calls.len() == 0 {
        None
    } else {
        match first_event(calls.drop_last(), kind) {
            Some(event) => Some(event),
            None => match calls.last() {
                TrackerCall::Event(event) => if kind(event) {
                    Some(event)
                } else {
                    None
                },
                _ => None,
            },
        }
    }
}

/// The last event of a kind among calls.
pub open spec fn last_event<'a>(
    calls: Seq<TrackerCall<'a>>,
    kind: spec_fn(OptionsEvent<'a>) -> bool,
) -> Option<OptionsEvent<'a>>
    decreases calls.len(),
{
    if calls.len() == 0 {
        None
    } else {
        match calls.last() {
            TrackerCall::Event(event) => if kind(event) {
                Some(event)
            } else {
                last_event(calls.drop_last(), kind)
            },
            _ => last_event(calls.drop_last(), kind),
        }
    }
}

/// No day-level reset is among the calls.
pub open spec fn within_a_day(calls: Seq<TrackerCall<'_>>) -> bool {
    forall|i: int| 0 <= i < calls.len() ==> !((#[trigger] calls[i]) is Reset)
}

/// The calls before the last are within the day if all are.
pub proof fn lemma_within_a_day(calls: Seq<TrackerCall<'_>>)
    requires
        calls.len() > 0,
        within_a_day(calls),
    ensures
        within_a_day(calls.drop_last()),
        !(calls.last() is Reset),
{
    assert(!(calls[calls.len() - 1] is Reset));
    assert forall|i: int| 0 <= i < calls.drop_last().len() implies !((
    #[trigger] calls.drop_last()[i]) is Reset) by {
        assert(!(calls[i] is Reset));
    }
}

/// The UTC offset of the last day that began among calls, or the one before.
pub open spec fn offset_after(before: i32, calls: Seq<TrackerCall<'_>>) -> i32
    decreases calls.len(),
{
    if calls.len() == 0 {
        before
    } else {
        match calls.last() {
            TrackerCall::Begin(ctx) => ctx.utc_offset,
            _ => offset_after(before, calls.drop_last()),
        }
    }
}

/// Where there are no effects, there are no observations.
pub proof fn lemma_no_observations(channel: Channel)
    ensures
        observations(Seq::<Effect>::empty(), channel) == 0,
{
    reveal(observed_first);
}

/// Observations add up.
pub proof fn lemma_observations_add(a: Seq<Effect>, b: Seq<Effect>, channel: Channel)
    ensures
        observations(a + b, channel) == observations(a, channel) + observations(b, channel),
{
    reveal(observed_first);
    lemma_observed_prefix(a, b, channel, a.len() as int);
    lemma_observed_rest(a, b, channel, b.len() as int);
}

proof fn lemma_observed_prefix(a: Seq<Effect>, b: Seq<Effect>, channel: Channel, n: int)
    requires
        n <= a.len(),
    ensures
        observed_first(a + b, channel, n) == observed_first(a, channel, n),
    decreases n,
{
    reveal(observed_first);
    if n > 0 {
        lemma_observed_prefix(a, b, channel, n - 1);
        assert((a + b)[n - 1] == a[n - 1]);
    }
}

proof fn lemma_observed_rest(a: Seq<Effect>, b: Seq<Effect>, channel: Channel, n: int)
    requires
        0 <= n <= b.len(),
    ensures
        observed_first(a + b, channel, a.len() + n) == observed_first(
            a + b,
            channel,
            a.len() as int,
        ) + observed_first(b, channel, n),
    decreases n,
{
    reveal(observed_first);
    if n > 0 {
        lemma_observed_rest(a, b, channel, n - 1);
        assert((a + b)[a.len() + n - 1] == b[n - 1]);
    }
}

/// The observations of a history are those before its last call and those of
/// that call.
pub proof fn lemma_last_call<T: OptionsTracker>(
    s: T::V,
    calls: Seq<TrackerCall<'_>>,
    channel: Channel,
)
    requires
        calls.len() > 0,
    ensures
        observations(history_effects::<T>(s, calls), channel) == observations(
            history_effects::<T>(s, calls.drop_last()),
            channel,
        ) + observations(
            call_effects::<T>(after_history::<T>(s, calls.drop_last()), calls.last()),
            channel,
        ),
        observations(Seq::<Effect>::empty(), channel) == 0,
{
    lemma_no_observations(channel);
    lemma_observations_add(
        history_effects::<T>(s, calls.drop_last()),
        call_effects::<T>(after_history::<T>(s, calls.drop_last()), calls.last()),
        channel,
    );
}

/// Where it is wanted, the effects hold one observation in a channel, of the
/// encoded number; where not, they hold none.
pub open spec fn observes_encoded(
    effects: Seq<Effect>,
    channel: Channel,
    wanted: bool,
    bits: u64,
) -> bool {
    &&& observations(effects, channel) == one_if(wanted)
    &&& forall|i: int|
        0 <= i < effects.len() && enters(#[trigger] effects[i], channel) ==> effects[i]
            == (Effect::Observe { channel, value: crate::observation::Sample::Binary64(bits) })
}

} // verus!
