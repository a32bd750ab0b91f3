//! QualityTracker: data quality and event count statistics.
//!
//! Tracks total events, quote/trade breakdown, unique contracts, sentinel
//! ratios, and per-DTE bucket counts.

use crate::event::{DayContext, OptionsEvent};
use crate::fraction::Fraction;
use crate::history::TrackerCall;
use crate::observation::{Channel, Effect, IvProblem, IvSolution};
use crate::report::{quotient, share, Row, Value};
use crate::report_utils::dte_bucket_index;
use crate::{OptionsTracker, COUNTER_LIMIT};
use vstd::prelude::*;

verus! {

/// `ahash::AHashSet`, of which nothing is known beyond the name below.
#[verifier::external_type_specification]
#[verifier::external_body]
#[verifier::reject_recursive_types(T)]
#[verifier::reject_recursive_types(S)]
pub struct ExAHashSet<T, S>(ahash::AHashSet<T, S>);

/// The elements of an `AHashSet`.
pub uninterp spec fn members(set: ahash::AHashSet<u32>) -> Set<u32>;

/// `AHashSet::new`: a set without elements.
#[verifier::external_body]
fn new_set() -> (set: ahash::AHashSet<u32>)
    ensures
        members(set) == Set::<u32>::empty(),
{
    ahash::AHashSet::new()
}

/// `insert` of an `AHashSet`: the element is in the set afterwards, and the
/// other elements stay.
#[verifier::external_body]
fn insert_member(set: &mut ahash::AHashSet<u32>, id: u32)
    ensures
        members(*final(set)) == members(*old(set)).insert(id),
{
    set.insert(id);
}

/// `clear` of an `AHashSet`: no element is left.
#[verifier::external_body]
fn clear_members(set: &mut ahash::AHashSet<u32>)
    ensures
        members(*final(set)) == Set::<u32>::empty(),
{
    set.clear();
}

/// `len` of an `AHashSet`: the number of its elements.
#[verifier::external_body]
fn count_members(set: &ahash::AHashSet<u32>) -> (r: usize)
    ensures
        crate::contract::has_size(members(*set), r as int),
{
    set.len()
}

/// Event counts, by kind, contract and DTE bucket, in total and for the day.
pub struct QualityTracker {
    total_events: u64,
    quote_events: u64,
    trade_events: u64,
    sentinel_events: u64,
    unique_contracts_day: ahash::AHashSet<u32>,
    unique_contracts_total: ahash::AHashSet<u32>,
    day_events: u64,
    day_trades: u64,
    n_days: u32,
    /// Per-DTE-bucket event counts, indexed by `report_utils::dte_bucket_index`.
    dte_events: [u64; 4],
}

/// The state of a [`QualityTracker`].
#[verifier::ext_equal]
pub struct QualityState {
    pub total_events: nat,
    pub quote_events: nat,
    pub trade_events: nat,
    pub sentinel_events: nat,
    pub unique_contracts_day: Set<u32>,
    pub unique_contracts_total: Set<u32>,
    pub day_events: nat,
    pub day_trades: nat,
    pub n_days: nat,
    pub dte_events: Seq<nat>,
}

impl QualityState {
    /// Before the first event.
    pub open spec fn start() -> QualityState {
        QualityState {
            total_events: 0,
            quote_events: 0,
            trade_events: 0,
            sentinel_events: 0,
            unique_contracts_day: Set::empty(),
            unique_contracts_total: Set::empty(),
            day_events: 0,
            day_trades: 0,
            n_days: 0,
            dte_events: seq![0, 0, 0, 0],
        }
    }
}

impl View for QualityTracker {
    type V = QualityState;

    closed spec fn view(&self) -> QualityState {
        QualityState {
            total_events: self.total_events as nat,
            quote_events: self.quote_events as nat,
            trade_events: self.trade_events as nat,
            sentinel_events: self.sentinel_events as nat,
            unique_contracts_day: members(self.unique_contracts_day),
            unique_contracts_total: members(self.unique_contracts_total),
            day_events: self.day_events as nat,
            day_trades: self.day_trades as nat,
            n_days: self.n_days as nat,
            dte_events: Seq::new(4, |i: int| self.dte_events[i] as nat),
        }
    }
}

impl Default for QualityTracker {
    fn default() -> (r: Self)
        ensures
            r@ == QualityState::start(),
            Self::valid(r@),
    {
        Self::new()
    }
}

impl QualityTracker {
    /// A tracker that has seen nothing.
    pub fn new() -> (r: Self)
        ensures
            r@ == QualityState::start(),
            Self::valid(r@),
    {
        QualityTracker {
            total_events: 0,
            quote_events: 0,
            trade_events: 0,
            sentinel_events: 0,
            unique_contracts_day: new_set(),
            unique_contracts_total: new_set(),
            day_events: 0,
            day_trades: 0,
            n_days: 0,
            dte_events: [0; 4],
        }
    }
}

impl OptionsTracker for QualityTracker {
    /// Every event is a quote or a trade and is in one DTE bucket; sentinels
    /// are quotes; the contracts of the day are among all contracts.
    open spec fn valid(s: QualityState) -> bool {
        &&& s.total_events == s.quote_events + s.trade_events
        &&& s.sentinel_events <= s.quote_events
        &&& s.dte_events.len() == 4
        &&& s.dte_events[0] + s.dte_events[1] + s.dte_events[2] + s.dte_events[3]
            == s.total_events
        &&& s.day_trades <= s.day_events <= s.total_events
        &&& s.day_trades <= s.trade_events
        &&& s.unique_contracts_day.subset_of(s.unique_contracts_total)
        &&& s.unique_contracts_total.finite()
        &&& s.unique_contracts_total.len() <= s.total_events
    }

    open spec fn room(s: QualityState) -> bool {
        s.total_events <= COUNTER_LIMIT && s.n_days < u32::MAX
    }

    open spec fn begun(s: QualityState, ctx: DayContext) -> QualityState {
        s
    }

    open spec fn after_event(s: QualityState, event: OptionsEvent<'_>) -> QualityState {
        let bucket = crate::report_utils::bucket_of(event.dte as int);
        QualityState {
            total_events: s.total_events + 1,
            quote_events: if event.trade() {
                s.quote_events
            } else {
                s.quote_events + 1
            },
            trade_events: if event.trade() {
                s.trade_events + 1
            } else {
                s.trade_events
            },
            sentinel_events: if !event.valid_bbo() && !event.trade() {
                s.sentinel_events + 1
            } else {
                s.sentinel_events
            },
            unique_contracts_day: s.unique_contracts_day.insert(event.instrument_id),
            unique_contracts_total: s.unique_contracts_total.insert(event.instrument_id),
            day_events: s.day_events + 1,
            day_trades: if event.trade() {
                s.day_trades + 1
            } else {
                s.day_trades
            },
            n_days: s.n_days,
            dte_events: s.dte_events.update(bucket, s.dte_events[bucket] + 1),
        }
    }

    open spec fn event_effects(s: QualityState, event: OptionsEvent<'_>) -> Seq<Effect> {
        Seq::empty()
    }

    open spec fn after_day(s: QualityState) -> QualityState {
        QualityState { n_days: s.n_days + 1, ..s }
    }

    open spec fn day_effects(s: QualityState) -> Seq<Effect> {
        seq![
            Effect::observed(Channel::EventsPerDay, crate::observation::whole(s.day_events)),
            Effect::observed(Channel::TradesPerDay, crate::observation::whole(s.day_trades)),
            Effect::observed(
                Channel::ContractsPerDay,
                crate::observation::whole(s.unique_contracts_day.len()),
            ),
        ]
    }

    open spec fn after_reset(s: QualityState) -> QualityState {
        QualityState { day_events: 0, day_trades: 0, unique_contracts_day: Set::empty(), ..s }
    }

    open spec fn pending(s: QualityState) -> Seq<IvProblem> {
        Seq::empty()
    }

    open spec fn after_solution(
        s: QualityState,
        problem: IvProblem,
        solution: IvSolution,
    ) -> QualityState {
        s
    }

    open spec fn solution_effects(
        s: QualityState,
        problem: IvProblem,
        solution: IvSolution,
    ) -> Seq<Effect> {
        Seq::empty()
    }

    open spec fn report(s: QualityState) -> Seq<Row> {
        seq![
            Row::at("tracker", Value::Text("QualityTracker")),
            Row::at("n_days", Value::Count(s.n_days as u64)),
            Row::at("total_events", Value::Count(s.total_events as u64)),
            Row::at("quote_events", Value::Count(s.quote_events as u64)),
            Row::at("trade_events", Value::Count(s.trade_events as u64)),
            Row::at("trade_pct", crate::report::share_of(s.trade_events, s.total_events, 100)),
            Row::at(
                "quote_to_trade_ratio",
                crate::report::quotient_of(s.quote_events, s.trade_events),
            ),
            Row::at("sentinel_events", Value::Count(s.sentinel_events as u64)),
            Row::at(
                "sentinel_pct",
                crate::report::share_of(s.sentinel_events, s.total_events, 100),
            ),
            Row::at("unique_contracts_total", Value::Count(s.unique_contracts_total.len() as u64)),
            Row::at("events_per_day", Value::MeanStdMinMax(Channel::EventsPerDay)),
            Row::at("trades_per_day", Value::MeanStd(Channel::TradesPerDay)),
            Row::at("contracts_per_day", Value::MeanStd(Channel::ContractsPerDay)),
            Row::below("dte_distribution", "0dte", Value::Count(s.dte_events[0] as u64)),
            Row::below("dte_distribution", "1dte", Value::Count(s.dte_events[1] as u64)),
            Row::below("dte_distribution", "2_7dte", Value::Count(s.dte_events[2] as u64)),
            Row::below("dte_distribution", "other", Value::Count(s.dte_events[3] as u64)),
        ]
    }

    open spec fn label() -> &'static str {
        "QualityTracker"
    }

    fn has_room(&self) -> bool {
        self.total_events <= COUNTER_LIMIT && self.n_days < u32::MAX
    }

    fn begin_day(&mut self, ctx: &DayContext) {
    }

    fn process_event(&mut self, event: &OptionsEvent<'_>, regime: u8) -> Vec<Effect> {
        let ghost before = self@;
        self.total_events = self.total_events + 1;
        self.day_events = self.day_events + 1;
        insert_member(&mut self.unique_contracts_day, event.instrument_id);
        insert_member(&mut self.unique_contracts_total, event.instrument_id);
        if event.is_trade() {
            self.trade_events = self.trade_events + 1;
            self.day_trades = self.day_trades + 1;
        } else {
            self.quote_events = self.quote_events + 1;
        }
        if !event.has_valid_bbo() && !event.is_trade() {
            self.sentinel_events = self.sentinel_events + 1;
        }
        let bucket: usize = dte_bucket_index(event.dte);
        assert(before.dte_events[bucket as int] == self.dte_events[bucket as int]);
        self.dte_events[bucket] = self.dte_events[bucket] + 1;
        assert(self@ =~= Self::after_event(before, *event));
        Vec::new()
    }

    fn end_of_day(&mut self, day_index: u32) -> Vec<Effect> {
        let contracts: usize = count_members(&self.unique_contracts_day);
        self.n_days = self.n_days + 1;
        let effects = vec![
            Effect::observe(Channel::EventsPerDay, Fraction::whole(self.day_events)),
            Effect::observe(Channel::TradesPerDay, Fraction::whole(self.day_trades)),
            Effect::observe(Channel::ContractsPerDay, Fraction::whole(contracts as u64)),
        ];
        effects
    }

    fn reset_day(&mut self) {
        self.day_events = 0;
        self.day_trades = 0;
        clear_members(&mut self.unique_contracts_day);
    }

    fn awaits_solution(&self, problem: &IvProblem) -> bool {
        false
    }

    fn resolve(&mut self, problem: &IvProblem, solution: &IvSolution) -> Vec<Effect> {
        Vec::new()
    }

    fn finalize(&self) -> Vec<Row> {
        let contracts: usize = count_members(&self.unique_contracts_total);
        vec![
            Row::top("tracker", Value::Text("QualityTracker")),
            Row::top("n_days", Value::Count(self.n_days as u64)),
            Row::top("total_events", Value::Count(self.total_events)),
            Row::top("quote_events", Value::Count(self.quote_events)),
            Row::top("trade_events", Value::Count(self.trade_events)),
            Row::top("trade_pct", share(self.trade_events, self.total_events, 100)),
            Row::top("quote_to_trade_ratio", quotient(self.quote_events, self.trade_events)),
            Row::top("sentinel_events", Value::Count(self.sentinel_events)),
            Row::top("sentinel_pct", share(self.sentinel_events, self.total_events, 100)),
            Row::top("unique_contracts_total", Value::Count(contracts as u64)),
            Row::top("events_per_day", Value::MeanStdMinMax(Channel::EventsPerDay)),
            Row::top("trades_per_day", Value::MeanStd(Channel::TradesPerDay)),
            Row::top("contracts_per_day", Value::MeanStd(Channel::ContractsPerDay)),
            Row::nested("dte_distribution", "0dte", Value::Count(self.dte_events[0])),
            Row::nested("dte_distribution", "1dte", Value::Count(self.dte_events[1])),
            Row::nested("dte_distribution", "2_7dte", Value::Count(self.dte_events[2])),
            Row::nested("dte_distribution", "other", Value::Count(self.dte_events[3])),
        ]
    }

    fn name(&self) -> &'static str {
        "QualityTracker"
    }
}

/// A day is observed once in each daily statistic.
proof fn lemma_quality_day(s: QualityState)
    ensures
        ({
            let effects = QualityTracker::day_effects(s);
            &&& crate::history::observations(effects, Channel::EventsPerDay) == 1
            &&& crate::history::observations(effects, Channel::TradesPerDay) == 1
            &&& crate::history::observations(effects, Channel::ContractsPerDay) == 1
        }),
{
    reveal_with_fuel(crate::history::observed_first, 4);
}

/// Over any history, the counters are how often what they count happened, and
/// each daily statistic has one observation for every day.
pub proof fn law_quality_counts_its_history<'a>(
    s: QualityState,
    calls: Seq<TrackerCall<'a>>,
)
    requires
        QualityTracker::valid(s),
    ensures
        ({
            let after = crate::history::after_history::<QualityTracker>(s, calls);
            let effects = crate::history::history_effects::<QualityTracker>(s, calls);
            let days = crate::history::count_days(calls);
            &&& after.total_events == s.total_events + crate::history::count_events(
                calls,
                |e: OptionsEvent<'a>| true,
            )
            &&& after.trade_events == s.trade_events + crate::history::count_events(
                calls,
                |e: OptionsEvent<'a>| e.trade(),
            )
            &&& after.quote_events == s.quote_events + crate::history::count_events(
                calls,
                |e: OptionsEvent<'a>| !e.trade(),
            )
            &&& after.sentinel_events == s.sentinel_events + crate::history::count_events(
                calls,
                |e: OptionsEvent<'a>| !e.valid_bbo() && !e.trade(),
            )
            &&& after.dte_events.len() == 4
            &&& forall|b: int|
                0 <= b < 4 ==> #[trigger] after.dte_events[b] == s.dte_events[b]
                    + crate::history::count_events(
                    calls,
                    |e: OptionsEvent<'a>| crate::report_utils::bucket_of(e.dte as int) == b,
                )
            &&& forall|id: u32| #[trigger]
                after.unique_contracts_total.contains(id) <==> (s.unique_contracts_total.contains(
                    id,
                ) || crate::history::count_events(
                    calls,
                    |e: OptionsEvent<'a>| e.instrument_id == id,
                ) > 0)
            &&& after.n_days == s.n_days + days
            &&& crate::history::observations(effects, Channel::EventsPerDay) == days
            &&& crate::history::observations(effects, Channel::TradesPerDay) == days
            &&& crate::history::observations(effects, Channel::ContractsPerDay) == days
        }),
    decreases calls.len(),
{
    if calls.len() == 0 {
        crate::history::lemma_no_observations(Channel::EventsPerDay);
        crate::history::lemma_no_observations(Channel::TradesPerDay);
        crate::history::lemma_no_observations(Channel::ContractsPerDay);
    } else {
        let rest = crate::history::after_history::<QualityTracker>(s, calls.drop_last());
        law_quality_counts_its_history(s, calls.drop_last());
        lemma_quality_day(rest);
        crate::history::lemma_last_call::<QualityTracker>(s, calls, Channel::EventsPerDay);
        crate::history::lemma_last_call::<QualityTracker>(s, calls, Channel::TradesPerDay);
        crate::history::lemma_last_call::<QualityTracker>(s, calls, Channel::ContractsPerDay);
    }
}

/// The day's figures over the calls since the last reset.
proof fn lemma_day_of_events<'a>(s: QualityState, calls: Seq<TrackerCall<'a>>)
    requires
        crate::history::within_a_day(calls),
    ensures
        ({
            let after = crate::history::after_history::<QualityTracker>(
                QualityTracker::after_reset(s),
                calls,
            );
            &&& after.day_events == crate::history::count_events(
                calls,
                |e: OptionsEvent<'a>| true,
            )
            &&& after.day_trades == crate::history::count_events(
                calls,
                |e: OptionsEvent<'a>| e.action == crate::event::Action::Trade,
            )
            &&& forall|id: u32| #[trigger]
                after.unique_contracts_day.contains(id) <==> crate::history::count_events(
                    calls,
                    |e: OptionsEvent<'a>| e.instrument_id == id,
                ) > 0
        }),
    decreases calls.len(),
{
    if calls.len() > 0 {
        crate::history::lemma_within_a_day(calls);
        lemma_day_of_events(s, calls.drop_last());
    }
}

/// At its end a day contributes the number of the events since the last reset,
/// that of the trades among them, and that of the instruments that had any.
pub proof fn law_day_is_the_events_since_the_reset<'a>(
    s: QualityState,
    calls: Seq<TrackerCall<'a>>,
    instruments: Set<u32>,
)
    requires
        crate::history::within_a_day(calls),
        crate::history::count_events(calls, |e: OptionsEvent<'a>| true) <= u64::MAX,
        crate::history::count_events(
            calls,
            |e: OptionsEvent<'a>| e.action == crate::event::Action::Trade,
        ) <= u64::MAX,
        instruments.finite() && instruments.len() <= u64::MAX,
        forall|id: u32| #[trigger]
            instruments.contains(id) <==> crate::history::count_events(
                calls,
                |e: OptionsEvent<'a>| e.instrument_id == id,
            ) > 0,
    ensures
        ({
            let after = crate::history::after_history::<QualityTracker>(
                QualityTracker::after_reset(s),
                calls,
            );
            let effects = QualityTracker::day_effects(after);
            &&& crate::history::observes(
                effects,
                Channel::EventsPerDay,
                true,
                crate::history::count_events(calls, |e: OptionsEvent<'a>| true) as int,
                1,
            )
            &&& crate::history::observes(
                effects,
                Channel::TradesPerDay,
                true,
                crate::history::count_events(
                    calls,
                    |e: OptionsEvent<'a>| e.action == crate::event::Action::Trade,
                ) as int,
                1,
            )
            &&& crate::history::observes(
                effects,
                Channel::ContractsPerDay,
                true,
                instruments.len() as int,
                1,
            )
        }),
{
    let after = crate::history::after_history::<QualityTracker>(
        QualityTracker::after_reset(s),
        calls,
    );
    lemma_day_of_events(s, calls);
    lemma_quality_day(after);
    assert(after.unique_contracts_day =~= instruments);
}

/// A sentinel is an event that is no trade and whose quote has no bid, no ask, or
/// no ask above a positive bid; every event is in the bucket of its days to
/// expiry.
pub proof fn law_quality_event_by_its_fields(s: QualityState, e: OptionsEvent<'_>)
    requires
        QualityTracker::valid(s),
    ensures
        ({
            let after = QualityTracker::after_event(s, e);
            let traded = e.action == crate::event::Action::Trade;
            let quoted = e.bid_px is Some && e.ask_px is Some && 0 < e.bid_px->0 < e.ask_px->0;
            &&& after.total_events == s.total_events + 1
            &&& after.trade_events == s.trade_events + crate::history::one_if(traded)
            &&& after.quote_events == s.quote_events + crate::history::one_if(!traded)
            &&& after.sentinel_events == s.sentinel_events + crate::history::one_if(
                !traded && !quoted,
            )
            &&& after.dte_events[0] == s.dte_events[0] + crate::history::one_if(e.dte == 0)
            &&& after.dte_events[1] == s.dte_events[1] + crate::history::one_if(e.dte == 1)
            &&& after.dte_events[2] == s.dte_events[2] + crate::history::one_if(2 <= e.dte <= 7)
            &&& after.dte_events[3] == s.dte_events[3] + crate::history::one_if(
                e.dte < 0 || e.dte > 7,
            )
        }),
{
    crate::event::law_accessors_by_the_prices(e);
}

/// What a tracker reports after any history from its start: the numbers of days,
/// events, quotes, trades, sentinels and instruments, the trades and sentinels in
/// percent of the events and the quotes over the trades, the events by days to
/// expiry, and the statistics under their names.
pub proof fn law_quality_report_is_that_of_the_history<'a>(
    instruments: Set<u32>,
    calls: Seq<TrackerCall<'a>>,
)
    requires
        forall|id: u32| #[trigger]
            instruments.contains(id) <==> crate::history::count_events(
                calls,
                |e: OptionsEvent<'a>| e.instrument_id == id,
            ) > 0,
    ensures
        ({
            let s = crate::history::after_history::<QualityTracker>(QualityState::start(), calls);
            let rows = QualityTracker::report(s);
            let days = crate::history::count_days(calls);
            let events = crate::history::count_events(
                calls,
                |e: OptionsEvent<'a>| true,
            );
            let trades = crate::history::count_events(
                calls,
                |e: OptionsEvent<'a>| e.trade(),
            );
            let quotes = crate::history::count_events(
                calls,
                |e: OptionsEvent<'a>| !e.trade(),
            );
            let sentinels = crate::history::count_events(
                calls,
                |e: OptionsEvent<'a>| !e.valid_bbo() && !e.trade(),
            );
            let expiring = |b: int|
                crate::history::count_events(
                    calls,
                    |e: OptionsEvent<'a>| crate::report_utils::bucket_of(e.dte as int) == b,
                );
            &&& rows.len() == 17
            &&& rows[0] == Row::at("tracker", Value::Text("QualityTracker"))
            &&& rows[1] == Row::at("n_days", Value::Count(days as u64))
            &&& rows[2] == Row::at("total_events", Value::Count(events as u64))
            &&& rows[3] == Row::at("quote_events", Value::Count(quotes as u64))
            &&& rows[4] == Row::at("trade_events", Value::Count(trades as u64))
            &&& rows[5] == Row::at("trade_pct", crate::report::share_of(trades, events, 100))
            &&& rows[6] == Row::at(
                "quote_to_trade_ratio",
                crate::report::quotient_of(quotes, trades),
            )
            &&& rows[7] == Row::at("sentinel_events", Value::Count(sentinels as u64))
            &&& rows[8] == Row::at("sentinel_pct", crate::report::share_of(sentinels, events, 100))
            &&& rows[9] == Row::at("unique_contracts_total", Value::Count(instruments.len() as u64))
            &&& rows[10] == Row::at("events_per_day", Value::MeanStdMinMax(Channel::EventsPerDay))
            &&& rows[11] == Row::at("trades_per_day", Value::MeanStd(Channel::TradesPerDay))
            &&& rows[12] == Row::at("contracts_per_day", Value::MeanStd(Channel::ContractsPerDay))
            &&& rows[13] == Row::below("dte_distribution", "0dte", Value::Count(expiring(0) as u64))
            &&& rows[14] == Row::below("dte_distribution", "1dte", Value::Count(expiring(1) as u64))
            &&& rows[15] == Row::below(
                "dte_distribution",
                "2_7dte",
                Value::Count(expiring(2) as u64),
            )
            &&& rows[16] == Row::below(
                "dte_distribution",
                "other",
                Value::Count(expiring(3) as u64),
            )
        }),
{
    law_quality_counts_its_history(QualityState::start(), calls);
    let s = crate::history::after_history::<QualityTracker>(QualityState::start(), calls);
    assert(s.unique_contracts_total =~= instruments);
}

} // verus!
