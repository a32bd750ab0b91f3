//! Single-pass profiling engine for OPRA options data.
//!
//! Resolves contracts, enriches records into events, dispatches them to the
//! trackers, and accounts for every record across all trading days. The engine
//! holds no file: it is told when a day begins, what was decoded, and when the
//! day ends.

use crate::config::{OsRatioConfig, ProfilerConfig};
use crate::contract::{ContractInfo, ContractMap};
use crate::date::Date;
use crate::diagnostics::ProfileDiagnostics;
use crate::event::{Action, DayContext, OptionsEvent, Side};
use crate::loader::{Cmbp1Record, Cmbp1RecordIterator, RecordSource, ACTION_UNAVAILABLE};
use crate::observation::{Effect, IvProblem, IvSolution};
use crate::options_math::moneyness::{Moneyness, MoneynessBuckets};
use crate::os_ratio::{compute_os_series, OsSeries};
use crate::report::Row;
use crate::session::{timestamp_as_signed, underlying_estimate};
use crate::tracker_set::{TrackerGroup, TrackerSet};
pub use crate::underlying::DailyUnderlyingPrice;
use crate::COUNTER_LIMIT;
use vstd::prelude::*;

verus! {

/// The price that stands for no price.
pub const SENTINEL_I64: i64 = i64::MAX;

/// SemVer for the per-tracker JSON output schema.
///
/// Policy: MAJOR for breaking changes (field renames/removals), MINOR for
/// additive changes (new fields), PATCH for bugfix-only (no schema change).
/// Emitted in every `_provenance.output_schema_version` block.
pub const OUTPUT_SCHEMA_VERSION: &'static str = "2.1.0";

/// Profiling result.
pub struct ProfileResult {
    pub n_days: u32,
    pub total_events: u64,
    /// Cumulative count of records whose decoding failed and were skipped
    /// across all days.
    pub total_decode_errors: u64,
    /// One report per enabled tracker, in their order.
    pub reports: Vec<(&'static str, Vec<Row>)>,
    /// The O/S report, which follows those of the trackers, where it is
    /// enabled.
    pub os_report: Option<OsSeries>,
    /// Dispatch-loop diagnostic counters with conservation law.
    pub diagnostics: ProfileDiagnostics,
}

/// A price in nanodollars, unless it is the sentinel or not positive.
pub open spec fn price_of(price: i64) -> Option<i64> {
    if price == SENTINEL_I64 || price <= 0 {
        None
    } else {
        Some(price)
    }
}

/// A fixed-point price, where there is one: neither the sentinel nor a price
/// that is not positive is.
pub fn price_or_nan(price_i64: i64) -> (r: Option<i64>)
    ensures
        r == price_of(price_i64),
{
    if price_i64 == SENTINEL_I64 || price_i64 <= 0 {
        None
    } else {
        Some(price_i64)
    }
}

/// What an action byte stands for.
pub open spec fn action_of(byte: u8) -> Action {
    if byte == 84 {
        Action::Trade
    } else if byte == 65 {
        Action::Quote
    } else {
        Action::Other
    }
}

/// What a side byte stands for.
pub open spec fn side_of(byte: u8) -> Side {
    if byte == 66 {
        Side::Bid
    } else if byte == 65 {
        Side::Ask
    } else {
        Side::Unspecified
    }
}

/// The event that a record of a contract is on a day.
pub open spec fn event_of<'a>(
    ctx: DayContext,
    buckets: MoneynessBuckets,
    contract: &'a ContractInfo,
    record: Cmbp1Record,
) -> OptionsEvent<'a> {
    let ts = crate::session::signed_timestamp(record.ts_event);
    let price = underlying_now(ctx, record);
    let action = action_of(record.action);
    OptionsEvent {
        ts_event: ts as i64,
        instrument_id: record.instrument_id,
        contract,
        action,
        side: side_of(record.side),
        trade_price: if action == Action::Trade {
            price_of(record.price)
        } else {
            None
        },
        trade_size: if action == Action::Trade {
            record.size
        } else {
            0
        },
        bid_px: price_of(record.bid_px),
        ask_px: price_of(record.ask_px),
        bid_sz: record.bid_sz,
        ask_sz: record.ask_sz,
        dte: (contract.expiration.days_from_ce - ctx.trading_date.days_from_ce) as i64,
        moneyness: match buckets.class_of(contract.strike, price, contract.contract_type) {
            Some(m) => m,
            None => Moneyness::Otm,
        },
        moneyness_ratio: MoneynessBuckets::ratio_of(contract.strike, price),
        underlying_price: price,
        publisher_id: record.publisher_id,
        bid_pb: record.bid_pb,
        ask_pb: record.ask_pb,
        ts_in_delta: record.ts_in_delta,
        flags: record.flags,
        ts_recv: crate::session::signed_timestamp(record.ts_recv) as i64,
    }
}

/// The underlying price at the time of a record.
pub open spec fn underlying_now(
    ctx: DayContext,
    record: Cmbp1Record,
) -> crate::fraction::Fraction {
    crate::session::underlying_at(
        ctx.underlying_open as int,
        ctx.underlying_close as int,
        ctx.utc_offset as int,
        crate::session::time_of_day(crate::session::signed_timestamp(record.ts_event)),
    )
}

/// The event of a record, and whether its moneyness could not be classified.
pub fn enrich<'a>(
    ctx: &DayContext,
    buckets: &MoneynessBuckets,
    contract: &'a ContractInfo,
    record: &Cmbp1Record,
) -> (r: (OptionsEvent<'a>, bool))
    ensures
        r.0 == event_of(*ctx, *buckets, contract, *record),
        r.0.dte == contract.expiration.days_from_ce - ctx.trading_date.days_from_ce,
        r.0.dte == 0 <==> contract.expiration == ctx.trading_date,
        r.1 == (buckets.class_of(
            contract.strike,
            underlying_now(*ctx, *record),
            contract.contract_type,
        ) is None),
{
    let ts_event: i64 = timestamp_as_signed(record.ts_event);
    let action: Action = match record.action {
        84 => Action::Trade,
        65 => Action::Quote,
        _ => Action::Other,
    };
    let side: Side = match record.side {
        66 => Side::Bid,
        65 => Side::Ask,
        _ => Side::Unspecified,
    };
    let dte: i64 = contract.dte(ctx.trading_date);
    let estimate = underlying_estimate(
        ctx.underlying_open,
        ctx.underlying_close,
        ctx.utc_offset,
        ts_event,
    );
    let moneyness_ratio = MoneynessBuckets::ratio(contract.strike, estimate);
    let class: Option<Moneyness> = buckets.classify(
        contract.strike,
        estimate,
        contract.contract_type,
    );
    let (moneyness, fallback): (Moneyness, bool) = match class {
        Some(m) => (m, false),
        None => (Moneyness::Otm, true),
    };
    let event = OptionsEvent {
        ts_event,
        instrument_id: record.instrument_id,
        contract,
        action,
        side,
        trade_price: if action == Action::Trade {
            price_or_nan(record.price)
        } else {
            None
        },
        trade_size: if action == Action::Trade {
            record.size
        } else {
            0
        },
        bid_px: price_or_nan(record.bid_px),
        ask_px: price_or_nan(record.ask_px),
        bid_sz: record.bid_sz,
        ask_sz: record.ask_sz,
        dte,
        moneyness,
        moneyness_ratio,
        underlying_price: estimate,
        publisher_id: record.publisher_id,
        bid_pb: record.bid_pb,
        ask_pb: record.ask_pb,
        ts_in_delta: record.ts_in_delta,
        flags: record.flags,
        ts_recv: timestamp_as_signed(record.ts_recv),
    };
    (event, fallback)
}

/// One more if a condition holds.
pub open spec fn bumped(counter: u64, hit: bool) -> u64 {
    if hit {
        (counter + 1) as u64
    } else {
        counter
    }
}

/// One more if a condition holds.
fn bump(counter: u64, hit: bool) -> (r: u64)
    requires
        counter < u64::MAX,
    ensures
        r == bumped(counter, hit),
{
    if hit {
        counter + 1
    } else {
        counter
    }
}

/// The counters after a record whose instrument is not known.
pub open spec fn counted_unknown(d: ProfileDiagnostics) -> ProfileDiagnostics {
    ProfileDiagnostics {
        total_decoded: (d.total_decoded + 1) as u64,
        unknown_instrument: (d.unknown_instrument + 1) as u64,
        ..d
    }
}

/// The record came from a CBBO file and carries no action.
pub open spec fn lacks_action(record: Cmbp1Record) -> bool {
    record.source == RecordSource::Cbbo && record.action == ACTION_UNAVAILABLE
}

/// The counters after a record that was dispatched.
pub open spec fn counted_dispatch(
    d: ProfileDiagnostics,
    record: Cmbp1Record,
    fallback: bool,
) -> ProfileDiagnostics {
    let o = d.observability;
    ProfileDiagnostics {
        total_decoded: (d.total_decoded + 1) as u64,
        dispatched: (d.dispatched + 1) as u64,
        cbbo_action_unavailable: bumped(d.cbbo_action_unavailable, lacks_action(record)),
        observability: crate::diagnostics::DispatchObservability {
            action_trade: bumped(o.action_trade, action_of(record.action) == Action::Trade),
            action_quote: bumped(o.action_quote, action_of(record.action) == Action::Quote),
            action_other: bumped(o.action_other, action_of(record.action) == Action::Other),
            moneyness_fallback: bumped(o.moneyness_fallback, fallback),
            bad_book_flagged: bumped(o.bad_book_flagged, record.flags & 0x04u8 != 0u8),
            bad_ts_flagged: bumped(o.bad_ts_flagged, record.flags & 0x08u8 != 0u8),
            snapshot_flagged: bumped(o.snapshot_flagged, record.flags & 0x20u8 != 0u8),
        },
        ..d
    }
}

/// A day that is being profiled.
#[derive(Debug, Clone, Copy, PartialEq, Eq, Structural)]
pub struct DayProgress {
    pub ctx: DayContext,
    /// Records taken.
    pub decoded: u64,
    /// Events dispatched.
    pub events: u64,
    /// Option contracts traded in the O/S band.
    pub opvol: u64,
}

/// The profiling engine, with the trackers that it dispatches to.
pub struct Profiler<G: TrackerGroup = TrackerSet> {
    trackers: G,
    buckets: MoneynessBuckets,
    os: OsRatioConfig,
    diagnostics: ProfileDiagnostics,
    total_events: u64,
    total_decode_errors: u64,
    day_index: u32,
    day: Option<DayProgress>,
    os_daily_opvol: Vec<(Date, u64)>,
}

/// The state of a [`Profiler`].
#[verifier::ext_equal]
#[verifier::reject_recursive_types(G)]
pub struct ProfilerState<G: TrackerGroup> {
    pub trackers: G::V,
    pub buckets: MoneynessBuckets,
    pub os: OsRatioConfig,
    pub diagnostics: ProfileDiagnostics,
    pub total_events: nat,
    pub total_decode_errors: nat,
    pub day_index: nat,
    pub day: Option<DayProgress>,
    pub os_daily_opvol: Seq<(Date, u64)>,
}

impl<G: TrackerGroup> ProfilerState<G> {
    /// Before the first day.
    pub open spec fn start(
        trackers: G::V,
        buckets: MoneynessBuckets,
        os: OsRatioConfig,
    ) -> Self {
        ProfilerState {
            trackers,
            buckets,
            os,
            diagnostics: ProfileDiagnostics::zero(),
            total_events: 0,
            total_decode_errors: 0,
            day_index: 0,
            day: None,
            os_daily_opvol: Seq::empty(),
        }
    }

    /// Records taken on the day that is being profiled.
    pub open spec fn day_decoded(self) -> int {
        match self.day {
            Some(day) => day.decoded as int,
            None => 0,
        }
    }

    /// Events dispatched on the day that is being profiled.
    pub open spec fn day_events(self) -> int {
        match self.day {
            Some(day) => day.events as int,
            None => 0,
        }
    }

    /// Every decoded record is accounted for; the events of the days add up to
    /// what was dispatched; the actions partition it, and records without an
    /// action are among the other ones; and there is an option volume for every
    /// day that has ended, where O/S is enabled.
    pub open spec fn valid(self) -> bool {
        &&& G::valid(self.trackers)
        &&& self.diagnostics.conserved()
        &&& self.day_decoded() <= self.diagnostics.total_decoded
        &&& self.diagnostics.observability.observes(self.diagnostics.dispatched as int)
        &&& self.diagnostics.cbbo_action_unavailable <= self.diagnostics.observability.action_other
        &&& self.total_events + self.day_events() == self.diagnostics.dispatched
        &&& self.total_decode_errors == self.diagnostics.decode_errors
        &&& self.os_daily_opvol.len() == (if self.os.enabled {
            self.day_index
        } else {
            0
        })
    }

    /// The counters can take another record and another day.
    pub open spec fn room(self) -> bool {
        &&& G::room(self.trackers)
        &&& self.diagnostics.total_decoded <= COUNTER_LIMIT
        &&& self.day is Some ==> self.day->0.opvol <= COUNTER_LIMIT
        &&& self.day_index < u32::MAX
    }

    /// After the start of a day.
    pub open spec fn begun(self, ctx: DayContext) -> Self {
        ProfilerState {
            trackers: G::begun(self.trackers, ctx),
            day: Some(DayProgress { ctx, decoded: 0, events: 0, opvol: 0 }),
            ..self
        }
    }

    /// The event of a record, given the contracts of the day.
    pub open spec fn event(
        self,
        contracts: Map<u32, ContractInfo>,
        record: Cmbp1Record,
    ) -> OptionsEvent<'static> {
        event_of(self.day->0.ctx, self.buckets, &contracts[record.instrument_id], record)
    }

    /// The volume that an event adds to the O/S numerator: that of a trade in
    /// the band.
    pub open spec fn band_volume(self, event: OptionsEvent<'_>) -> nat {
        if self.os.enabled && event.trade() && self.os.dte_min <= event.dte <= self.os.dte_max {
            event.trade_size as nat
        } else {
            0
        }
    }

    /// After a record: it is counted, and if its instrument is known, its event
    /// goes to every tracker and to the O/S numerator.
    pub open spec fn after_record(
        self,
        contracts: Map<u32, ContractInfo>,
        record: Cmbp1Record,
    ) -> Self {
        let day = self.day->0;
        if !contracts.contains_key(record.instrument_id) {
            ProfilerState {
                diagnostics: counted_unknown(self.diagnostics),
                day: Some(DayProgress { decoded: (day.decoded + 1) as u64, ..day }),
                ..self
            }
        } else {
            let contract = contracts[record.instrument_id];
            let event = self.event(contracts, record);
            let fallback = self.buckets.class_of(
                contract.strike,
                underlying_now(day.ctx, record),
                contract.contract_type,
            ) is None;
            ProfilerState {
                trackers: G::after_event(self.trackers, event),
                diagnostics: counted_dispatch(self.diagnostics, record, fallback),
                day: Some(
                    DayProgress {
                        decoded: (day.decoded + 1) as u64,
                        events: (day.events + 1) as u64,
                        opvol: (day.opvol + self.band_volume(event)) as u64,
                        ..day
                    },
                ),
                ..self
            }
        }
    }

    /// What a record contributes to the statistics.
    pub open spec fn record_effects(
        self,
        contracts: Map<u32, ContractInfo>,
        record: Cmbp1Record,
    ) -> Seq<Effect> {
        if contracts.contains_key(record.instrument_id) {
            G::event_effects(self.trackers, self.event(contracts, record))
        } else {
            Seq::empty()
        }
    }

    /// After the end of a day, with the counters of its file.
    pub open spec fn after_day(self, file: crate::loader::Tally) -> Self {
        let day = self.day->0;
        let d = self.diagnostics;
        ProfilerState {
            trackers: G::after_reset(G::after_day(self.trackers)),
            diagnostics: ProfileDiagnostics {
                decode_errors: (d.decode_errors + file.decode_errors) as u64,
                unsupported_rtype: (d.unsupported_rtype + file.unsupported_rtype) as u64,
                ..d
            },
            total_events: self.total_events + day.events as nat,
            total_decode_errors: self.total_decode_errors + file.decode_errors,
            day_index: self.day_index + 1,
            day: None,
            os_daily_opvol: if self.os.enabled {
                self.os_daily_opvol.push((day.ctx.trading_date, day.opvol))
            } else {
                self.os_daily_opvol
            },
            ..self
        }
    }

    /// The file yielded as many records as were taken on the day.
    pub open spec fn accounts_for(self, file: crate::loader::Tally) -> bool {
        file.count == self.day_decoded()
    }

    /// The counters of a file fit into the totals.
    pub open spec fn fits(self, file: crate::loader::Tally) -> bool {
        let d = self.diagnostics;
        &&& d.decode_errors + file.decode_errors <= u64::MAX
        &&& d.unsupported_rtype + file.unsupported_rtype <= u64::MAX
    }

    /// After the answer to a volatility problem.
    pub open spec fn after_solution(self, problem: IvProblem, solution: IvSolution) -> Self {
        ProfilerState {
            trackers: G::after_solution(self.trackers, problem, solution),
            ..self
        }
    }
}

/// The equity volumes of daily prices.
pub open spec fn volumes_of(prices: Seq<DailyUnderlyingPrice>) -> Seq<(Date, u64)> {
    prices.map_values(|p: DailyUnderlyingPrice| (p.date, p.volume))
}

impl<G: TrackerGroup> View for Profiler<G> {
    type V = ProfilerState<G>;

    closed spec fn view(&self) -> ProfilerState<G> {
        ProfilerState {
            trackers: self.trackers@,
            buckets: self.buckets,
            os: self.os,
            diagnostics: self.diagnostics,
            total_events: self.total_events as nat,
            total_decode_errors: self.total_decode_errors as nat,
            day_index: self.day_index as nat,
            day: self.day,
            os_daily_opvol: self.os_daily_opvol@,
        }
    }
}

impl Profiler<TrackerSet> {
    /// An engine with the trackers, bands and O/S settings of a configuration.
    pub fn new(config: &ProfilerConfig) -> (r: Self)
        ensures
            r@ == ProfilerState::<TrackerSet>::start(
                crate::tracker_set::TrackerStates::start(
                    config.trackers,
                    config.input.risk_free_rate,
                    config.reservoir_capacity,
                ),
                MoneynessBuckets {
                    atm_range: config.buckets.atm_range_pct,
                    deep_range: config.buckets.deep_range_pct,
                },
                config.os_ratio,
            ),
            r@.valid(),
    {
        let trackers = TrackerSet::from_config(
            &config.trackers,
            config.input.risk_free_rate,
            config.reservoir_capacity,
        );
        Self::with_trackers(config, trackers)
    }
}

impl<G: TrackerGroup> Profiler<G> {
    /// An engine with the bands and O/S settings of a configuration, and
    /// trackers of its own.
    pub fn with_trackers(config: &ProfilerConfig, trackers: G) -> (r: Self)
        requires
            G::valid(trackers@),
        ensures
            r@ == ProfilerState::<G>::start(
                trackers@,
                MoneynessBuckets {
                    atm_range: config.buckets.atm_range_pct,
                    deep_range: config.buckets.deep_range_pct,
                },
                config.os_ratio,
            ),
            r@.valid(),
    {
        Profiler {
            trackers,
            buckets: MoneynessBuckets {
                atm_range: config.buckets.atm_range_pct,
                deep_range: config.buckets.deep_range_pct,
            },
            os: config.os_ratio,
            diagnostics: ProfileDiagnostics::default(),
            total_events: 0,
            total_decode_errors: 0,
            day_index: 0,
            day: None,
            os_daily_opvol: Vec::new(),
        }
    }

    /// Whether a day is being profiled.
    pub fn in_day(&self) -> (r: bool)
        ensures
            r == (self@.day is Some),
    {
        self.day.is_some()
    }

    /// Whether the counters can take another record and another day.
    pub fn has_room(&self) -> (r: bool)
        requires
            self@.valid(),
        ensures
            r == self@.room(),
    {
        let day_fits: bool = match &self.day {
            Some(day) => day.opvol <= COUNTER_LIMIT,
            None => true,
        };
        day_fits && self.diagnostics.total_decoded <= COUNTER_LIMIT && self.day_index < u32::MAX
            && self.trackers.has_room()
    }

    /// Whether a file yielded as many records as were taken on the day.
    pub fn has_taken(&self, records: &Cmbp1RecordIterator) -> (r: bool)
        ensures
            r == self@.accounts_for(records@),
    {
        match &self.day {
            Some(day) => records.count() == day.decoded,
            None => records.count() == 0,
        }
    }

    /// Whether the counters of a file fit into the totals.
    pub fn has_room_for(&self, records: &Cmbp1RecordIterator) -> (r: bool)
        ensures
            r == self@.fits(records@),
    {
        records.decode_errors() <= u64::MAX - self.diagnostics.decode_errors
            && records.unsupported_rtype() <= u64::MAX - self.diagnostics.unsupported_rtype
    }

    /// The counters so far.
    pub fn diagnostics(&self) -> (r: ProfileDiagnostics)
        ensures
            r == self@.diagnostics,
    {
        self.diagnostics
    }

    /// Starts a day.
    pub fn begin_day(&mut self, ctx: &DayContext)
        requires
            old(self)@.valid(),
            old(self)@.day is None,
        ensures
            final(self)@ == old(self)@.begun(*ctx),
            final(self)@.valid(),
    {
        self.trackers.begin_day(ctx);
        self.day = Some(DayProgress { ctx: *ctx, decoded: 0, events: 0, opvol: 0 });
        assert(self@ =~= old(self)@.begun(*ctx));
    }

    /// Takes a decoded record of the day.
    pub fn process_record(
        &mut self,
        contracts: &ContractMap,
        record: &Cmbp1Record,
    ) -> (effects: Vec<Effect>)
        requires
            old(self)@.valid(),
            old(self)@.room(),
            old(self)@.day is Some,
        ensures
            final(self)@ == old(self)@.after_record(contracts@, *record),
            effects@ == old(self)@.record_effects(contracts@, *record),
            final(self)@.valid(),
    {
        let ghost before = self@;
        let day: DayProgress = match self.day {
            Some(day) => day,
            None => {
                assert(false);
                return Vec::new();
            },
        };
        self.diagnostics.total_decoded = self.diagnostics.total_decoded + 1;
        let contract: &ContractInfo = match contracts.get(record.instrument_id) {
            Some(contract) => contract,
            None => {
                self.diagnostics.unknown_instrument = self.diagnostics.unknown_instrument + 1;
                self.day = Some(DayProgress { decoded: day.decoded + 1, ..day });
                assert(self@ =~= before.after_record(contracts@, *record));
                return Vec::new();
            },
        };
        let (event, fallback) = enrich(&day.ctx, &self.buckets, contract, record);
        let mut o = self.diagnostics.observability;
        // Flags are observed, not filtered on: the event is still dispatched.
        o.bad_book_flagged = bump(o.bad_book_flagged, record.flags & 0x04 != 0);
        o.bad_ts_flagged = bump(o.bad_ts_flagged, record.flags & 0x08 != 0);
        o.snapshot_flagged = bump(o.snapshot_flagged, record.flags & 0x20 != 0);
        o.action_trade = bump(o.action_trade, event.action == Action::Trade);
        o.action_quote = bump(o.action_quote, event.action == Action::Quote);
        o.action_other = bump(o.action_other, event.action == Action::Other);
        o.moneyness_fallback = bump(o.moneyness_fallback, fallback);
        self.diagnostics.observability = o;
        self.diagnostics.cbbo_action_unavailable = bump(
            self.diagnostics.cbbo_action_unavailable,
            record.source == RecordSource::Cbbo && record.action == ACTION_UNAVAILABLE,
        );
        self.diagnostics.dispatched = self.diagnostics.dispatched + 1;
        // No tracker looks at the regime yet.
        let effects: Vec<Effect> = self.trackers.process_event(&event, 0);
        // A trade of size zero contributes nothing to the O/S numerator.
        let mut opvol: u64 = day.opvol;
        if self.os.enabled && event.is_trade() && event.dte >= self.os.dte_min && event.dte
            <= self.os.dte_max {
            opvol = opvol + event.trade_size as u64;
        }
        self.day = Some(
            DayProgress {
                ctx: day.ctx,
                decoded: day.decoded + 1,
                events: day.events + 1,
                opvol,
            },
        );
        assert(self@ =~= before.after_record(contracts@, *record));
        effects
    }

    /// Whether a volatility problem was stated and is not answered.
    pub fn awaits_solution(&self, problem: &IvProblem) -> (r: bool)
        ensures
            r == G::awaits(self@.trackers, *problem),
    {
        self.trackers.awaits_solution(problem)
    }

    /// Takes the answer to a volatility problem that was stated.
    pub fn resolve(&mut self, problem: &IvProblem, solution: &IvSolution) -> (effects: Vec<Effect>)
        requires
            old(self)@.valid(),
            G::awaits(old(self)@.trackers, *problem),
        ensures
            final(self)@ == old(self)@.after_solution(*problem, *solution),
            effects@ == G::solution_effects(old(self)@.trackers, *problem, *solution),
            final(self)@.valid(),
    {
        let effects = self.trackers.resolve(problem, solution);
        assert(self@ =~= old(self)@.after_solution(*problem, *solution));
        effects
    }

    /// Ends the day, with the accounting of its file, and makes ready for the
    /// next.
    pub fn end_day(&mut self, records: &Cmbp1RecordIterator) -> (effects: Vec<Effect>)
        requires
            old(self)@.valid(),
            old(self)@.room(),
            old(self)@.day is Some,
            old(self)@.accounts_for(records@),
            old(self)@.fits(records@),
        ensures
            final(self)@ == old(self)@.after_day(records@),
            effects@ == G::day_effects(old(self)@.trackers),
            final(self)@.valid(),
            final(self)@.day is None,
    {
        let ghost before = self@;
        let day: DayProgress = match self.day {
            Some(day) => day,
            None => {
                assert(false);
                return Vec::new();
            },
        };
        let day_decode_errors: u64 = records.decode_errors();
        self.total_decode_errors = self.total_decode_errors + day_decode_errors;
        self.diagnostics.decode_errors = self.diagnostics.decode_errors + day_decode_errors;
        self.diagnostics.unsupported_rtype = self.diagnostics.unsupported_rtype
            + records.unsupported_rtype();
        let effects: Vec<Effect> = self.trackers.end_of_day(self.day_index);
        self.total_events = self.total_events + day.events;
        if self.os.enabled {
            self.os_daily_opvol.push((day.ctx.trading_date, day.opvol));
        }
        self.day_index = self.day_index + 1;
        self.day = None;
        self.trackers.reset_day();
        assert(self@ =~= before.after_day(records@));
        effects
    }

    /// The result after the last day: the totals, the reports of the trackers,
    /// and the O/S series over the days with the equity volumes of the prices.
    pub fn finish(&self, underlying_prices: &Vec<DailyUnderlyingPrice>) -> (r: ProfileResult)
        requires
            self@.valid(),
            self@.day is None,
        ensures
            r.n_days == self@.day_index,
            r.total_events == self@.total_events,
            r.total_decode_errors == self@.total_decode_errors,
            r.diagnostics == self@.diagnostics,
            r.diagnostics.conserved(),
            r.total_events == r.diagnostics.dispatched,
            crate::tracker_set::report_models(r.reports@) == G::reports(self@.trackers),
            r.os_report is Some <==> self@.os.enabled,
            r.os_report matches Some(series) ==> crate::os_ratio::series_of(
                self@.os_daily_opvol,
                volumes_of(underlying_prices@),
                self@.os.rolling_window_days as int,
                series,
            ) && series.n_days == self@.day_index && series.rolling_window_days
                == self@.os.rolling_window_days && series.dte_min == self@.os.dte_min
                && series.dte_max == self@.os.dte_max,
    {
        let reports = self.trackers.finalize();
        let os_report: Option<OsSeries> = if self.os.enabled {
            let volumes: Vec<(Date, u64)> = equity_volumes(underlying_prices);
            Some(
                compute_os_series(
                    self.os_daily_opvol.as_slice(),
                    volumes.as_slice(),
                    self.os.rolling_window_days,
                    self.os.dte_min,
                    self.os.dte_max,
                ),
            )
        } else {
            None
        };
        ProfileResult {
            n_days: self.day_index,
            total_events: self.total_events,
            total_decode_errors: self.total_decode_errors,
            reports,
            os_report,
            diagnostics: self.diagnostics,
        }
    }
}

/// The equity volumes of daily prices.
fn equity_volumes(prices: &Vec<DailyUnderlyingPrice>) -> (r: Vec<(Date, u64)>)
    ensures
        r@ == volumes_of(prices@),
{
    let mut r: Vec<(Date, u64)> = Vec::new();
    let mut i: usize = 0;
    while i < prices.len()
        invariant
            i <= prices@.len(),
            r@ == volumes_of(prices@.take(i as int)),
        decreases prices@.len() - i,
    {
        r.push((prices[i].date, prices[i].volume));
        assert(r@ =~= volumes_of(prices@.take(i + 1)));
        i = i + 1;
    }
    assert(prices@.take(i as int) =~= prices@);
    r
}

/// Whether no price has an equity volume, so that there can be no O/S.
pub fn all_volumes_zero(prices: &Vec<DailyUnderlyingPrice>) -> (r: bool)
    ensures
        r == forall|i: int| 0 <= i < prices@.len() ==> (#[trigger] prices@[i]).volume == 0,
{
    let mut i: usize = 0;
    while i < prices.len()
        invariant
            i <= prices@.len(),
            forall|j: int| 0 <= j < i ==> (#[trigger] prices@[j]).volume == 0,
        decreases prices@.len() - i,
    {
        if prices[i].volume != 0 {
            assert(prices@[i as int].volume != 0);
            return false;
        }
        i = i + 1;
    }
    true
}

/// The state after a sequence of records of one day.
pub open spec fn after_records<G: TrackerGroup>(
    s: ProfilerState<G>,
    contracts: Map<u32, ContractInfo>,
    records: Seq<Cmbp1Record>,
) -> ProfilerState<G>
    decreases records.len(),
{
    if records.len() == 0 {
        s
    } else {
        after_records(s, contracts, records.drop_last()).after_record(contracts, records.last())
    }
}

/// How many records have an instrument that is known.
pub open spec fn count_known(
    contracts: Map<u32, ContractInfo>,
    records: Seq<Cmbp1Record>,
) -> nat
    decreases records.len(),
{
    if records.len() == 0 {
        0
    } else {
        count_known(contracts, records.drop_last()) + (if contracts.contains_key(
            records.last().instrument_id,
        ) {
            1nat
        } else {
            0
        })
    }
}

/// Conservation over a day: every record is counted once, those of known
/// instruments are dispatched and the others are not, and the events of the day
/// are the dispatched ones.
pub proof fn law_records_are_conserved<G: TrackerGroup>(
    s: ProfilerState<G>,
    contracts: Map<u32, ContractInfo>,
    records: Seq<Cmbp1Record>,
)
    requires
        s.valid(),
        s.day is Some,
        s.diagnostics.total_decoded + records.len() <= u64::MAX,
    ensures
        ({
            let after = after_records(s, contracts, records);
            let known = count_known(contracts, records);
            &&& after.diagnostics.total_decoded == s.diagnostics.total_decoded + records.len()
            &&& after.diagnostics.dispatched == s.diagnostics.dispatched + known
            &&& after.diagnostics.unknown_instrument == s.diagnostics.unknown_instrument + (
            records.len() - known)
            &&& after.diagnostics.conserved()
            &&& after.day is Some && after.day->0.events == s.day->0.events + known
            &&& after.day->0.ctx == s.day->0.ctx
            &&& after.os == s.os && after.buckets == s.buckets
            &&& known <= records.len()
        }),
    decreases records.len(),
{
    if records.len() > 0 {
        law_records_are_conserved(s, contracts, records.drop_last());
    }
}

/// The O/S volume of the records of a day: that of the trades in the band, over
/// the instruments that are known.
pub open spec fn band_total<G: TrackerGroup>(
    s: ProfilerState<G>,
    contracts: Map<u32, ContractInfo>,
    records: Seq<Cmbp1Record>,
) -> nat
    decreases records.len(),
{
    if records.len() == 0 {
        0
    } else {
        band_total(s, contracts, records.drop_last()) + (if contracts.contains_key(
            records.last().instrument_id,
        ) {
            s.band_volume(s.event(contracts, records.last()))
        } else {
            0
        })
    }
}

/// The O/S numerator of a day is the number of contracts traded in the band.
pub proof fn law_numerator_is_the_band_volume<G: TrackerGroup>(
    s: ProfilerState<G>,
    contracts: Map<u32, ContractInfo>,
    records: Seq<Cmbp1Record>,
)
    requires
        s.day is Some,
        s.day->0.opvol + band_total(s, contracts, records) <= u64::MAX,
    ensures
        ({
            let after = after_records(s, contracts, records);
            &&& after.day is Some
            &&& after.day->0.opvol == s.day->0.opvol + band_total(s, contracts, records)
            &&& after.day->0.ctx == s.day->0.ctx
            &&& after.os == s.os && after.buckets == s.buckets
        }),
    decreases records.len(),
{
    if records.len() > 0 {
        law_numerator_is_the_band_volume(s, contracts, records.drop_last());
    }
}

/// A record of an instrument that is not known leaves the trackers, the events
/// of the day and the O/S numerator alone.
pub proof fn law_unknown_instruments_are_not_dispatched<G: TrackerGroup>(
    s: ProfilerState<G>,
    contracts: Map<u32, ContractInfo>,
    record: Cmbp1Record,
)
    requires
        s.day is Some,
        !contracts.contains_key(record.instrument_id),
    ensures
        s.after_record(contracts, record).trackers == s.trackers,
        s.after_record(contracts, record).day->0.events == s.day->0.events,
        s.after_record(contracts, record).day->0.opvol == s.day->0.opvol,
        s.record_effects(contracts, record).len() == 0,
{
}

/// A CBBO record has no action, so its event is neither a quote nor a trade,
/// and has no trade volume and no trade price.
pub proof fn law_cbbo_records_are_other(
    ctx: DayContext,
    buckets: MoneynessBuckets,
    contract: &ContractInfo,
    msg: crate::loader::CbboFields,
)
    ensures
        ({
            let event = event_of(ctx, buckets, contract, Cmbp1Record::of_cbbo(msg));
            &&& event.action == Action::Other
            &&& event.trade_size == 0 && event.trade_price is None
            &&& lacks_action(Cmbp1Record::of_cbbo(msg))
        }),
{
}

/// Over the records of CBBO files every dispatched record lacks an action, and
/// lands among the other ones; over those of CMBP-1 files none does.
pub proof fn law_cbbo_counter_is_over_dispatched_records<G: TrackerGroup>(
    s: ProfilerState<G>,
    contracts: Map<u32, ContractInfo>,
    records: Seq<Cmbp1Record>,
)
    requires
        s.valid(),
        s.day is Some,
        s.diagnostics.total_decoded + records.len() <= u64::MAX,
    ensures
        ({
            let (before, after) = (
                s.diagnostics,
                after_records(s, contracts, records).diagnostics,
            );
            let (o, p) = (before.observability, after.observability);
            let known = count_known(contracts, records);
            &&& (forall|i: int| 0 <= i < records.len() ==> lacks_action(#[trigger] records[i]))
                ==> after.cbbo_action_unavailable == before.cbbo_action_unavailable + known
                && p.action_other == o.action_other + known && p.action_trade == o.action_trade
                && p.action_quote == o.action_quote
            &&& (forall|i: int|
                0 <= i < records.len() ==> (#[trigger] records[i]).source == RecordSource::Cmbp1)
                ==> after.cbbo_action_unavailable == before.cbbo_action_unavailable
            &&& after.cbbo_action_unavailable <= p.action_other <= after.dispatched
        }),
    decreases records.len(),
{
    if records.len() > 0 {
        let rest = records.drop_last();
        law_cbbo_counter_is_over_dispatched_records(s, contracts, rest);
        law_records_are_conserved(s, contracts, rest);
        law_records_are_conserved(s, contracts, records);
        lemma_records_keep_counters(s, contracts, rest);
        lemma_records_keep_counters(s, contracts, records);
        assert(forall|i: int| 0 <= i < rest.len() ==> rest[i] == records[i]);
        assert(records.last() == records[records.len() - 1]);
    }
}

/// The action counters partition what was dispatched after any records.
proof fn lemma_records_keep_counters<G: TrackerGroup>(
    s: ProfilerState<G>,
    contracts: Map<u32, ContractInfo>,
    records: Seq<Cmbp1Record>,
)
    requires
        s.valid(),
        s.day is Some,
        s.diagnostics.total_decoded + records.len() <= u64::MAX,
    ensures
        ({
            let d = after_records(s, contracts, records).diagnostics;
            d.observability.observes(d.dispatched as int) && d.cbbo_action_unavailable
                <= d.observability.action_other
        }),
    decreases records.len(),
{
    if records.len() > 0 {
        lemma_records_keep_counters(s, contracts, records.drop_last());
        law_records_are_conserved(s, contracts, records.drop_last());
    }
}

/// A call that drives an engine.
pub enum EngineCall {
    /// A day begins.
    Begin(DayContext),
    /// A record is taken, with the contracts of the day.
    Record(Map<u32, ContractInfo>, Cmbp1Record),
    /// A volatility problem is answered.
    Answer(IvProblem, IvSolution),
    /// The day ends, with the counters of its file.
    End(crate::loader::Tally),
}

impl<G: TrackerGroup> ProfilerState<G> {
    /// The engine takes the call.
    pub open spec fn admits(self, call: EngineCall) -> bool {
        match call {
            EngineCall::Begin(ctx) => self.day is None,
            EngineCall::Record(contracts, record) => self.day is Some && self.room(),
            EngineCall::Answer(problem, solution) => G::awaits(self.trackers, problem),
            EngineCall::End(file) => self.day is Some && self.room() && self.accounts_for(file)
                && self.fits(file),
        }
    }

    /// After the call.
    pub open spec fn after_call(self, call: EngineCall) -> Self {
        match call {
            EngineCall::Begin(ctx) => self.begun(ctx),
            EngineCall::Record(contracts, record) => self.after_record(contracts, record),
            EngineCall::Answer(problem, solution) => self.after_solution(problem, solution),
            EngineCall::End(file) => self.after_day(file),
        }
    }
}

/// The state after a sequence of calls.
pub open spec fn after_calls<G: TrackerGroup>(
    s: ProfilerState<G>,
    calls: Seq<EngineCall>,
) -> ProfilerState<G>
    decreases calls.len(),
{
    if calls.len() == 0 {
        s
    } else {
        after_calls(s, calls.drop_last()).after_call(calls.last())
    }
}

/// The engine takes each call of a sequence in turn.
pub open spec fn admits_calls<G: TrackerGroup>(s: ProfilerState<G>, calls: Seq<EngineCall>) -> bool
    decreases calls.len(),
{
    calls.len() > 0 ==> admits_calls(s, calls.drop_last()) && after_calls(
        s,
        calls.drop_last(),
    ).admits(calls.last())
}

/// The days that ended, and the sums of what their files yielded and of what
/// was skipped in them.
pub struct FileTotals {
    pub days: nat,
    pub count: nat,
    pub decode_errors: nat,
    pub unsupported_rtype: nat,
}

/// The totals of the files of a sequence of calls.
pub open spec fn file_totals(calls: Seq<EngineCall>) -> FileTotals
    decreases calls.len(),
{
    if calls.len() == 0 {
        FileTotals { days: 0, count: 0, decode_errors: 0, unsupported_rtype: 0 }
    } else {
        let before = file_totals(calls.drop_last());
        match calls.last() {
            EngineCall::End(file) => FileTotals {
                days: before.days + 1,
                count: before.count + file.count,
                decode_errors: before.decode_errors + file.decode_errors,
                unsupported_rtype: before.unsupported_rtype + file.unsupported_rtype,
            },
            _ => before,
        }
    }
}

/// What the files of the days yielded is what the engine decoded: over any
/// sequence of calls, the total of decoded records is the sum of the records
/// that the files of the ended days yielded, and those of the day that has not
/// ended. So it is with what was skipped. Every decoded record is dispatched or
/// of an unknown instrument.
pub proof fn law_decoded_records_are_those_of_the_files<G: TrackerGroup>(
    s: ProfilerState<G>,
    calls: Seq<EngineCall>,
)
    requires
        s.valid(),
        admits_calls(s, calls),
    ensures
        ({
            let after = after_calls(s, calls);
            let (d, e) = (s.diagnostics, after.diagnostics);
            let files = file_totals(calls);
            &&& e.total_decoded + s.day_decoded() == d.total_decoded + files.count
                + after.day_decoded()
            &&& e.decode_errors == d.decode_errors + files.decode_errors
            &&& after.total_decode_errors == e.decode_errors
            &&& e.unsupported_rtype == d.unsupported_rtype + files.unsupported_rtype
            &&& after.day_index == s.day_index + files.days
            &&& after.day_decoded() <= e.total_decoded
            &&& e.conserved()
        }),
    decreases calls.len(),
{
    if calls.len() > 0 {
        law_decoded_records_are_those_of_the_files(s, calls.drop_last());
    }
}

/// A run from its first call on: once every day has ended, the total of decoded
/// records is the sum of what the files yielded.
pub proof fn law_total_of_a_run<G: TrackerGroup>(s: ProfilerState<G>, calls: Seq<EngineCall>)
    requires
        s.valid(),
        s.diagnostics == ProfileDiagnostics::zero(),
        s.day is None,
        admits_calls(s, calls),
        after_calls(s, calls).day is None,
    ensures
        after_calls(s, calls).diagnostics.total_decoded == file_totals(calls).count,
{
    law_decoded_records_are_those_of_the_files(s, calls);
}

/// Prices of an event are positive where they are defined, so a quote whose
/// sides are defined and not crossed or locked is a valid one.
pub proof fn law_defined_prices_are_positive(
    ctx: DayContext,
    buckets: MoneynessBuckets,
    contract: &ContractInfo,
    record: Cmbp1Record,
)
    ensures
        ({
            let event = event_of(ctx, buckets, contract, record);
            &&& event.bid_px is Some ==> event.bid_px->0 > 0
            &&& event.ask_px is Some ==> event.ask_px->0 > 0
            &&& event.trade_price is Some ==> event.trade_price->0 > 0
            &&& event.open_market() == event.valid_bbo()
        }),
{
}

/// The event of a record, field by field: what it takes over from the record and
/// the contract, and what it makes of them.
///
/// - The action is a trade for `T`, a quote for `A`, and other for anything
///   else; the side is the bid for `B`, the ask for `A`, and none otherwise.
/// - A price is there where it is positive and not the greatest integer. Only a
///   trade has a trade price and a size.
/// - Days to expiry are those from the trading date to the expiration.
pub proof fn law_event_by_the_record(
    ctx: DayContext,
    buckets: MoneynessBuckets,
    contract: &ContractInfo,
    record: Cmbp1Record,
)
    ensures
        ({
            let event = event_of(ctx, buckets, contract, record);
            let traded = record.action == 84;
            &&& event.dte == contract.expiration.days_from_ce - ctx.trading_date.days_from_ce
            &&& event.dte == 0 <==> contract.expiration == ctx.trading_date
            &&& event.contract == contract
            &&& event.instrument_id == record.instrument_id
            &&& event.action == Action::Trade <==> traded
            &&& event.action == Action::Quote <==> record.action == 65
            &&& event.side == Side::Bid <==> record.side == 66
            &&& event.side == Side::Ask <==> record.side == 65
            &&& event.trade_size == (if traded {
                record.size
            } else {
                0
            })
            &&& event.trade_price is Some <==> traded && 0 < record.price < i64::MAX
            &&& event.trade_price is Some ==> event.trade_price->0 == record.price
            &&& event.bid_px is Some <==> 0 < record.bid_px < i64::MAX
            &&& event.bid_px is Some ==> event.bid_px->0 == record.bid_px
            &&& event.ask_px is Some <==> 0 < record.ask_px < i64::MAX
            &&& event.ask_px is Some ==> event.ask_px->0 == record.ask_px
            &&& event.bid_sz == record.bid_sz && event.ask_sz == record.ask_sz
            &&& event.bid_pb == record.bid_pb && event.ask_pb == record.ask_pb
            &&& event.publisher_id == record.publisher_id
            &&& event.ts_in_delta == record.ts_in_delta
            &&& event.flags == record.flags
            &&& (event.ts_event - record.ts_event) % 0x1_0000_0000_0000_0000 == 0
            &&& (event.ts_recv - record.ts_recv) % 0x1_0000_0000_0000_0000 == 0
        }),
{
}

/// The underlying price of an event is that of its day at its time: the open
/// until half past nine Eastern, the close from four in the afternoon on, and
/// the straight line between them. Its moneyness is the class of the contract's
/// strike and type at that price, or out of the money where there is no price;
/// and its ratio is that of the strike to the price.
pub proof fn law_event_price_and_class(
    ctx: DayContext,
    buckets: MoneynessBuckets,
    contract: &ContractInfo,
    record: Cmbp1Record,
)
    ensures
        ({
            let event = event_of(ctx, buckets, contract, record);
            let price = event.underlying_price;
            let tod = crate::session::time_of_day(event.ts_event as int);
            let since_open = tod - (9 - ctx.utc_offset) * 3_600_000_000_000 - 1_800_000_000_000;
            let session = 23_400_000_000_000int;
            let (open, close) = (ctx.underlying_open as int, ctx.underlying_close as int);
            &&& since_open <= 0 ==> price.is_quotient(open, 1_000_000_000)
            &&& since_open >= session ==> price.is_quotient(close, 1_000_000_000)
            &&& 0 < since_open < session ==> price.is_quotient(
                open * session + since_open * (close - open),
                session * 1_000_000_000,
            )
            &&& match buckets.class_of(contract.strike, price, contract.contract_type) {
                Some(class) => event.moneyness == class && price.num > 0,
                None => event.moneyness == Moneyness::Otm && price.num <= 0,
            }
            &&& event.moneyness_ratio is Some <==> price.num > 0
            &&& event.moneyness_ratio matches Some(ratio) ==> ratio.strike == contract.strike
                && ratio.underlying_price == price
        }),
{
    crate::session::law_estimate_by_the_clock(
        ctx.underlying_open,
        ctx.underlying_close,
        ctx.utc_offset,
        crate::session::time_of_day(crate::session::signed_timestamp(record.ts_event)),
    );
}

/// What a record adds to the day and to the counters, by its bytes. Every record
/// is decoded. One of a known instrument is dispatched, and counted by its action
/// and by its flags; if it is a trade of a contract whose days to expiry are in
/// the band, both ends included, its size is added to the O/S numerator.
pub proof fn law_record_by_its_bytes<G: TrackerGroup>(
    s: ProfilerState<G>,
    contracts: Map<u32, ContractInfo>,
    record: Cmbp1Record,
)
    requires
        s.valid(),
        s.room(),
        s.day is Some,
    ensures
        ({
            let after = s.after_record(contracts, record);
            let (d, e) = (s.diagnostics, after.diagnostics);
            let (o, p) = (d.observability, e.observability);
            let (day, now) = (s.day->0, after.day->0);
            let known = contracts.contains_key(record.instrument_id);
            let contract = contracts[record.instrument_id];
            let dte = contract.expiration.days_from_ce - day.ctx.trading_date.days_from_ce;
            let counts = known && s.os.enabled && record.action == 84 && s.os.dte_min <= dte
                && dte <= s.os.dte_max;
            let one = |hit: bool| crate::history::one_if(hit);
            &&& after.day is Some && now.ctx == day.ctx
            &&& e.total_decoded == d.total_decoded + 1
            &&& e.dispatched == d.dispatched + one(known)
            &&& e.unknown_instrument == d.unknown_instrument + one(!known)
            &&& p.action_trade == o.action_trade + one(known && record.action == 84)
            &&& p.action_quote == o.action_quote + one(known && record.action == 65)
            &&& p.action_other == o.action_other + one(
                known && record.action != 84 && record.action != 65,
            )
            &&& p.bad_book_flagged == o.bad_book_flagged + one(known && record.flags & 0x04 != 0)
            &&& p.bad_ts_flagged == o.bad_ts_flagged + one(known && record.flags & 0x08 != 0)
            &&& p.snapshot_flagged == o.snapshot_flagged + one(known && record.flags & 0x20 != 0)
            &&& p.moneyness_fallback == o.moneyness_fallback + one(
                known && underlying_now(day.ctx, record).num <= 0,
            )
            &&& e.cbbo_action_unavailable == d.cbbo_action_unavailable + one(
                known && record.source == RecordSource::Cbbo && record.action == 0,
            )
            &&& e.decode_errors == d.decode_errors && e.unsupported_rtype == d.unsupported_rtype
            &&& now.decoded == day.decoded + 1
            &&& now.events == day.events + one(known)
            &&& now.opvol == day.opvol + (if counts {
                record.size as int
            } else {
                0
            })
            &&& after.os == s.os && after.buckets == s.buckets
            &&& after.day_index == s.day_index && after.total_events == s.total_events
            &&& after.os_daily_opvol == s.os_daily_opvol
        }),
{
    if contracts.contains_key(record.instrument_id) {
        let contract = contracts[record.instrument_id];
        law_event_by_the_record(s.day->0.ctx, s.buckets, &contract, record);
        law_event_price_and_class(s.day->0.ctx, s.buckets, &contract, record);
    }
}

/// A day adds its context and, where O/S is enabled, its date and its numerator
/// behind those of the days before it; it starts from nothing and leaves nothing
/// behind but the totals.
pub proof fn law_day_by_its_ends<G: TrackerGroup>(
    s: ProfilerState<G>,
    ctx: DayContext,
    file: crate::loader::Tally,
)
    requires
        s.valid(),
        s.fits(file),
        s.day is Some,
    ensures
        ({
            let begun = s.begun(ctx);
            let (day, after) = (s.day->0, s.after_day(file));
            &&& begun.day is Some && begun.day->0.ctx == ctx
            &&& begun.day->0.decoded == 0 && begun.day->0.events == 0 && begun.day->0.opvol == 0
            &&& begun.diagnostics == s.diagnostics && begun.os_daily_opvol == s.os_daily_opvol
            &&& after.day is None
            &&& after.day_index == s.day_index + 1
            &&& after.total_events == s.total_events + day.events
            &&& after.total_decode_errors == s.total_decode_errors + file.decode_errors
            &&& after.diagnostics.cbbo_action_unavailable == s.diagnostics.cbbo_action_unavailable
            &&& begun.total_events == s.total_events && begun.day_index == s.day_index
            &&& after.diagnostics.total_decoded == s.diagnostics.total_decoded
            &&& after.diagnostics.dispatched == s.diagnostics.dispatched
            &&& after.diagnostics.unknown_instrument == s.diagnostics.unknown_instrument
            &&& after.diagnostics.observability == s.diagnostics.observability
            &&& after.diagnostics.decode_errors == s.diagnostics.decode_errors + file.decode_errors
            &&& after.diagnostics.unsupported_rtype == s.diagnostics.unsupported_rtype
                + file.unsupported_rtype
            &&& s.os.enabled ==> after.os_daily_opvol.len() == s.os_daily_opvol.len() + 1
                && after.os_daily_opvol.last() == (day.ctx.trading_date, day.opvol)
                && after.os_daily_opvol.drop_last() == s.os_daily_opvol
            &&& !s.os.enabled ==> after.os_daily_opvol == s.os_daily_opvol
            &&& after.os == s.os && after.buckets == s.buckets
        }),
{
    assert(s.after_day(file).os_daily_opvol.drop_last() =~= s.os_daily_opvol || !s.os.enabled);
}

/// The trackers get the event of every record of a known instrument, contribute
/// what they make of it, and get and contribute nothing for any other; they get
/// the start of a day, its end and the reset behind it, in this order, and the
/// answers, which change nothing else.
pub proof fn law_trackers_get_the_known_records<G: TrackerGroup>(
    s: ProfilerState<G>,
    contracts: Map<u32, ContractInfo>,
    record: Cmbp1Record,
    ctx: DayContext,
    file: crate::loader::Tally,
    problem: IvProblem,
    solution: IvSolution,
)
    ensures
        ({
            let after = s.after_record(contracts, record).trackers;
            let effects = s.record_effects(contracts, record);
            let contract = &contracts[record.instrument_id];
            let event = event_of(s.day->0.ctx, s.buckets, contract, record);
            let answered = s.after_solution(problem, solution);
            &&& contracts.contains_key(record.instrument_id) ==> after == G::after_event(
                s.trackers,
                event,
            ) && effects == G::event_effects(s.trackers, event)
            &&& !contracts.contains_key(record.instrument_id) ==> after == s.trackers
                && effects.len() == 0
            &&& s.begun(ctx).trackers == G::begun(s.trackers, ctx)
            &&& s.after_day(file).trackers == G::after_reset(G::after_day(s.trackers))
            &&& answered.trackers == G::after_solution(s.trackers, problem, solution)
            &&& answered.diagnostics == s.diagnostics && answered.day == s.day
            &&& answered.total_events == s.total_events && answered.day_index == s.day_index
            &&& answered.os_daily_opvol == s.os_daily_opvol && answered.os == s.os
            &&& answered.buckets == s.buckets
            &&& answered.total_decode_errors == s.total_decode_errors
        }),
{
}

/// The equity volumes of the O/S series are those of the prices, each under its
/// date and in order.
pub proof fn law_equity_volumes_are_those_of_the_prices(prices: Seq<DailyUnderlyingPrice>)
    ensures
        volumes_of(prices).len() == prices.len(),
        forall|i: int|
            0 <= i < prices.len() ==> (#[trigger] volumes_of(prices)[i]).0 == prices[i].date
                && volumes_of(prices)[i].1 == prices[i].volume,
{
}

/// An engine starts with nothing counted, no day and no O/S numerator.
pub proof fn law_engine_starts_empty<G: TrackerGroup>(
    trackers: G::V,
    buckets: MoneynessBuckets,
    os: OsRatioConfig,
)
    ensures
        ({
            let s = ProfilerState::<G>::start(trackers, buckets, os);
            let (d, o) = (s.diagnostics, s.diagnostics.observability);
            &&& s.trackers == trackers && s.buckets == buckets && s.os == os
            &&& s.day is None && s.day_index == 0 && s.os_daily_opvol.len() == 0
            &&& s.total_events == 0 && s.total_decode_errors == 0
            &&& d.total_decoded == 0 && d.unknown_instrument == 0 && d.dispatched == 0
            &&& d.decode_errors == 0 && d.unsupported_rtype == 0
            &&& d.cbbo_action_unavailable == 0
            &&& o.action_trade == 0 && o.action_quote == 0 && o.action_other == 0
            &&& o.moneyness_fallback == 0 && o.bad_book_flagged == 0 && o.bad_ts_flagged == 0
            &&& o.snapshot_flagged == 0
        }),
{
}

} // verus!
