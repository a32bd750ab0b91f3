use opra_statistical_profiler::diagnostics::{
    DispatchObservability, ProfileDiagnostics, PROFILER_DIAGNOSTICS_SCHEMA_VERSION,
};

#[test]
fn test_conservation_law_valid() {
    let d = ProfileDiagnostics {
        total_decoded: 1000,
        unknown_instrument: 150,
        dispatched: 850,
        decode_errors: 5,
        ..Default::default()
    };
    assert!(d.conservation_check());
}

#[test]
fn test_conservation_law_violated() {
    let d = ProfileDiagnostics {
        total_decoded: 1000,
        unknown_instrument: 150,
        dispatched: 849, // off by 1
        decode_errors: 5,
        ..Default::default()
    };
    assert!(!d.conservation_check());
}

/// `unsupported_rtype` records are skipped by the loader and never reach
/// the dispatch loop, so — like `decode_errors` — they must stay OUT of the
/// `total_decoded == unknown_instrument + dispatched` conservation law.
#[test]
fn test_unsupported_rtype_excluded_from_conservation_law() {
    let d = ProfileDiagnostics {
        total_decoded: 1000,
        unknown_instrument: 150,
        dispatched: 850,
        decode_errors: 5,
        unsupported_rtype: 42,
        cbbo_action_unavailable: 0,
        ..Default::default()
    };
    assert!(
        d.conservation_check(),
        "unsupported_rtype must not participate in the conservation law"
    );
}

/// `cbbo_action_unavailable` counts records that WERE dispatched, so it is
/// an overlapping observation (like the `observability` block) and is
/// bounded above by `dispatched` — never a separate terminal bucket.
#[test]
fn test_cbbo_action_unavailable_is_overlapping_not_terminal() {
    // A pure CBBO file: every dispatched record lacks an `action`.
    let d = ProfileDiagnostics {
        total_decoded: 77_220,
        unknown_instrument: 0,
        dispatched: 77_220,
        cbbo_action_unavailable: 77_220,
        observability: DispatchObservability {
            action_other: 77_220,
            ..Default::default()
        },
        ..Default::default()
    };
    assert!(d.conservation_check());
    assert!(d.cbbo_action_unavailable <= d.dispatched);
    assert_eq!(
        d.observability.action_other, d.cbbo_action_unavailable,
        "records with no action field must all land in the Other bucket"
    );
}

#[test]
fn test_default_is_zero() {
    let d = ProfileDiagnostics::default();
    assert!(d.conservation_check());
    assert_eq!(d.total_decoded, 0);
    assert_eq!(d.dispatched, 0);
}

#[test]
fn test_action_sub_counters_partition_dispatched() {
    let d = ProfileDiagnostics {
        total_decoded: 1000,
        unknown_instrument: 50,
        dispatched: 950,
        decode_errors: 0,
        observability: DispatchObservability {
            action_trade: 200,
            action_quote: 740,
            action_other: 10,
            ..Default::default()
        },
        ..Default::default()
    };
    assert!(d.conservation_check());
    assert_eq!(
        d.observability.action_trade
            + d.observability.action_quote
            + d.observability.action_other,
        d.dispatched,
        "Action sub-counters must partition dispatched"
    );
}

#[test]
fn conservation_is_checked_without_overflow() {
    let d = ProfileDiagnostics {
        total_decoded: 1,
        unknown_instrument: u64::MAX,
        dispatched: 2,
        ..Default::default()
    };
    assert!(!d.conservation_check());
    assert_eq!(PROFILER_DIAGNOSTICS_SCHEMA_VERSION, "1.1.0");
}
