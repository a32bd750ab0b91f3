use opra_statistical_profiler::options_math::moneyness::Moneyness;
use opra_statistical_profiler::report::report_file_name;
use opra_statistical_profiler::report_utils::{
    dte_bucket_index, finalize_curve, moneyness_index, DTE_LABELS, MONEYNESS_LABELS,
};

#[test]
fn test_dte_bucket_index() {
    assert_eq!(dte_bucket_index(0), 0);
    assert_eq!(dte_bucket_index(1), 1);
    assert_eq!(dte_bucket_index(2), 2);
    assert_eq!(dte_bucket_index(7), 2);
    assert_eq!(dte_bucket_index(8), 3);
    assert_eq!(dte_bucket_index(365), 3);
    assert_eq!(dte_bucket_index(-1), 3);
}

#[test]
fn test_moneyness_index() {
    assert_eq!(moneyness_index(Moneyness::DeepItm), 0);
    assert_eq!(moneyness_index(Moneyness::Itm), 1);
    assert_eq!(moneyness_index(Moneyness::Atm), 2);
    assert_eq!(moneyness_index(Moneyness::Otm), 3);
    assert_eq!(moneyness_index(Moneyness::DeepOtm), 4);
}

#[test]
fn test_dte_labels_match_indices() {
    assert_eq!(DTE_LABELS[dte_bucket_index(0)], "0dte");
    assert_eq!(DTE_LABELS[dte_bucket_index(1)], "1dte");
    assert_eq!(DTE_LABELS[dte_bucket_index(5)], "2_7dte");
    assert_eq!(DTE_LABELS[dte_bucket_index(30)], "other");
}

#[test]
fn test_moneyness_labels_match_indices() {
    assert_eq!(MONEYNESS_LABELS[moneyness_index(Moneyness::Atm)], "atm");
    assert_eq!(MONEYNESS_LABELS[moneyness_index(Moneyness::DeepOtm)], "deep_otm");
}

#[test]
fn curves_report_the_minutes_with_values() {
    assert_eq!(finalize_curve(&vec![0, 3, 0, 0, 1]), vec![1, 4]);
    assert!(finalize_curve(&vec![0, 0]).is_empty());
    assert!(finalize_curve(&Vec::new()).is_empty());
}

#[test]
fn report_files_are_numbered() {
    assert_eq!(report_file_name(0, "QualityTracker"), "01_QualityTracker.json");
    assert_eq!(report_file_name(8, "OsRatio"), "09_OsRatio.json");
    assert_eq!(report_file_name(9, "X"), "10_X.json");
    assert_eq!(report_file_name(122, "X"), "123_X.json");
}
