//! Dispatch-loop diagnostic counters for the OPRA statistical profiler.
//!
//! Every input record yielded by the CMBP-1 decoder lands in exactly one
//! terminal bucket. The conservation law is:
//!
//! ```text
//! total_decoded == unknown_instrument + dispatched
//! ```
//!
//! `decode_errors` and `unsupported_rtype` are counted at the iterator level in
//! `loader.rs` and never enter the dispatch loop — they are carried here for
//! co-located emission only, and are excluded from `total_decoded`.

use vstd::prelude::*;

verus! {

/// SemVer for the OPRA profiler diagnostics JSON contract.
///
/// - MAJOR: field removed or semantically reinterpreted
/// - MINOR: new optional field added
/// - PATCH: docs-only
pub const PROFILER_DIAGNOSTICS_SCHEMA_VERSION: &'static str = "1.1.0";

/// Dispatch-loop diagnostic counters.
#[derive(Debug, Clone, Copy, PartialEq, Eq, Structural)]
pub struct ProfileDiagnostics {
    /// Records yielded by the decoder (post-decode, pre-dispatch).
    /// Does NOT include `decode_errors`.
    pub total_decoded: u64,
    /// Records skipped because the contract map has no such instrument.
    pub unknown_instrument: u64,
    /// Records enriched into `OptionsEvent` and dispatched to all trackers.
    pub dispatched: u64,
    /// Records whose CMBP-1 decoding failed (from `loader.rs`).
    /// These never enter the dispatch loop.
    pub decode_errors: u64,
    /// Records skipped because their rtype is neither CMBP-1/TCBBO nor
    /// CBBO-1s/1m (from `loader.rs`). Like `decode_errors`, these never enter
    /// the dispatch loop and are excluded from `total_decoded`.
    pub unsupported_rtype: u64,
    /// Of the records that WERE dispatched, how many came from a CBBO-1s/1m
    /// file and therefore carry no `action` field. Such records are all
    /// classified `Action::Other` and contribute zero trade volume. This is an
    /// OVERLAPPING observation like the `observability` block, not a terminal
    /// bucket.
    pub cbbo_action_unavailable: u64,
    /// Informational sub-counters partitioning subsets of `dispatched`.
    /// These are OVERLAPPING observations, NOT filter gates — every counted
    /// event was still dispatched to trackers.
    pub observability: DispatchObservability,
}

/// Observability sub-counters for dispatched events.
///
/// An event may be counted by multiple sub-counters simultaneously
/// (e.g., a trade with `MAYBE_BAD_BOOK` flag increments both
/// `action_trade` and `bad_book_flagged`).
#[derive(Debug, Clone, Copy, PartialEq, Eq, Structural)]
pub struct DispatchObservability {
    /// Dispatched events with `action` byte `'T'` (Trade).
    pub action_trade: u64,
    /// Dispatched events with `action` byte `'A'` (Quote).
    pub action_quote: u64,
    /// Dispatched events with `action` byte not in `{'T', 'A'}`.
    pub action_other: u64,
    /// Dispatched events where moneyness classify returned `None`
    /// and the `Otm` fallback was applied.
    pub moneyness_fallback: u64,
    /// Dispatched events with `MAYBE_BAD_BOOK` flag (0x04).
    pub bad_book_flagged: u64,
    /// Dispatched events with `BAD_TS_RECV` flag (0x08).
    pub bad_ts_flagged: u64,
    /// Dispatched events with `SNAPSHOT` flag (0x20).
    pub snapshot_flagged: u64,
}

impl DispatchObservability {
    /// No event observed.
    pub open spec fn zero() -> Self {
        DispatchObservability {
            action_trade: 0,
            action_quote: 0,
            action_other: 0,
            moneyness_fallback: 0,
            bad_book_flagged: 0,
            bad_ts_flagged: 0,
            snapshot_flagged: 0,
        }
    }

    /// The action counters partition `events` events, and each other counter
    /// counts some of them.
    pub open spec fn observes(self, events: int) -> bool {
        &&& self.action_trade + self.action_quote + self.action_other == events
        &&& self.moneyness_fallback <= events
        &&& self.bad_book_flagged <= events
        &&& self.bad_ts_flagged <= events
        &&& self.snapshot_flagged <= events
    }
}

impl Default for DispatchObservability {
    fn default() -> (r: Self)
        ensures
            r == DispatchObservability::zero(),
    {
        DispatchObservability {
            action_trade: 0,
            action_quote: 0,
            action_other: 0,
            moneyness_fallback: 0,
            bad_book_flagged: 0,
            bad_ts_flagged: 0,
            snapshot_flagged: 0,
        }
    }
}

impl ProfileDiagnostics {
    /// Nothing decoded.
    pub open spec fn zero() -> Self {
        ProfileDiagnostics {
            total_decoded: 0,
            unknown_instrument: 0,
            dispatched: 0,
            decode_errors: 0,
            unsupported_rtype: 0,
            cbbo_action_unavailable: 0,
            observability: DispatchObservability::zero(),
        }
    }

    /// Every decoded record is in exactly one terminal bucket.
    pub open spec fn conserved(self) -> bool {
        self.total_decoded == self.unknown_instrument + self.dispatched
    }

    /// Verify the conservation law holds. Returns `true` if valid.
    pub fn conservation_check(&self) -> (r: bool)
        ensures
            r == self.conserved(),
    {
        self.total_decoded >= self.dispatched && self.total_decoded - self.dispatched
            == self.unknown_instrument
    }
}

impl Default for ProfileDiagnostics {
    fn default() -> (r: Self)
        ensures
            r == ProfileDiagnostics::zero(),
    {
        ProfileDiagnostics {
            total_decoded: 0,
            unknown_instrument: 0,
            dispatched: 0,
            decode_errors: 0,
            unsupported_rtype: 0,
            cbbo_action_unavailable: 0,
            observability: DispatchObservability::default(),
        }
    }
}

/// The conservation law speaks of the dispatch loop alone: what the loader
/// skipped, or noted of a record, does not enter it.
pub proof fn law_loader_counters_are_outside_conservation(
    a: ProfileDiagnostics,
    b: ProfileDiagnostics,
)
    requires
        a.total_decoded == b.total_decoded,
        a.unknown_instrument == b.unknown_instrument,
        a.dispatched == b.dispatched,
    ensures
        a.conserved() == b.conserved(),
{
}

} // verus!
