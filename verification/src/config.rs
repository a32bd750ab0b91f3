//! Profiler configuration.
//!
//! Fractions (the risk-free rate, the moneyness bands) are in billionths.

use vstd::prelude::*;

verus! {

/// Top-level profiler configuration.
#[derive(Debug)]
pub struct ProfilerConfig {
    pub input: InputConfig,
    pub trackers: TrackerConfig,
    pub output: OutputConfig,
    pub buckets: BucketConfig,
    pub os_ratio: OsRatioConfig,
    pub reservoir_capacity: usize,
}

/// Input data source configuration.
#[derive(Debug)]
pub struct InputConfig {
    /// Directory containing OPRA `.dbn.zst` files.
    pub data_dir: String,
    /// Filename pattern (e.g., "opra-pillar-{date}.cmbp-1.dbn.zst").
    pub filename_pattern: String,
    /// Underlying symbol (e.g., "NVDA").
    pub symbol: String,
    /// Path to EQUS OHLCV file for underlying prices.
    pub underlying_prices_file: Option<String>,
    /// Annualized risk-free rate for BSM calculations, in billionths.
    pub risk_free_rate: i64,
    /// Optional date range filter (inclusive, YYYY-MM-DD).
    pub date_start: Option<String>,
    pub date_end: Option<String>,
}

/// Which trackers to enable.
#[derive(Debug, Clone, Copy, PartialEq, Eq, Structural)]
pub struct TrackerConfig {
    pub quality: bool,
    pub spread: bool,
    pub premium_decay: bool,
    pub volume: bool,
    pub greeks: bool,
    pub zero_dte: bool,
    pub put_call: bool,
    pub effective_spread: bool,
}

impl Default for TrackerConfig {
    /// All trackers.
    fn default() -> (r: Self)
        ensures
            r == (TrackerConfig {
                quality: true,
                spread: true,
                premium_decay: true,
                volume: true,
                greeks: true,
                zero_dte: true,
                put_call: true,
                effective_spread: true,
            }),
    {
        TrackerConfig {
            quality: true,
            spread: true,
            premium_decay: true,
            volume: true,
            greeks: true,
            zero_dte: true,
            put_call: true,
            effective_spread: true,
        }
    }
}

/// Output configuration.
#[derive(Debug)]
pub struct OutputConfig {
    pub output_dir: String,
    /// Whether the reports are written to disk.
    pub write_summaries: bool,
}

impl Default for OutputConfig {
    /// Reports are written to `output_opra`.
    fn default() -> (r: Self)
        ensures
            r.output_dir@ == "output_opra"@,
            r.write_summaries,
    {
        OutputConfig { output_dir: default_output_dir(), write_summaries: true }
    }
}

/// Bucketing configuration for DTE and moneyness analysis.
#[derive(Debug, Clone, Copy, PartialEq, Eq, Structural)]
pub struct BucketConfig {
    /// ATM range as fraction of underlying price, in billionths.
    pub atm_range_pct: i64,
    /// Deep ITM/OTM boundary, in billionths.
    pub deep_range_pct: i64,
}

impl Default for BucketConfig {
    /// An ATM band of 2% and a deep boundary of 10%.
    fn default() -> (r: Self)
        ensures
            r == (BucketConfig { atm_range_pct: 20_000_000, deep_range_pct: 100_000_000 }),
    {
        BucketConfig { atm_range_pct: default_atm_range(), deep_range_pct: default_deep_range() }
    }
}

/// Option-to-stock volume ratio (O/S) configuration.
///
/// O/S = OPVOL / EQVOL (Johnson & So 2012, *Journal of Financial Economics*
/// 106(2):262-286, Eq. 9): total option-contract volume (calls + puts, UNSIGNED,
/// restricted to the `dte_min..=dte_max` band) divided by equity volume expressed
/// in round lots of 100 shares. ΔO/S is the deviation of O/S from its trailing
/// `rolling_window_days` mean.
#[derive(Debug, Clone, Copy, PartialEq, Eq, Structural)]
pub struct OsRatioConfig {
    /// Whether to compute and emit the O/S ratio report.
    pub enabled: bool,
    /// Trailing window (in trading days) for the ΔO/S rolling-mean deviation.
    pub rolling_window_days: usize,
    /// Inclusive lower bound of the option DTE band for OPVOL.
    pub dte_min: i64,
    /// Inclusive upper bound of the option DTE band for OPVOL.
    pub dte_max: i64,
}

impl Default for OsRatioConfig {
    /// Enabled, with six days of window and contracts of 5 to 35 days.
    fn default() -> (r: Self)
        ensures
            r == (OsRatioConfig {
                enabled: true,
                rolling_window_days: 6,
                dte_min: 5,
                dte_max: 35,
            }),
    {
        OsRatioConfig {
            enabled: default_true(),
            rolling_window_days: default_os_rolling_window(),
            dte_min: default_os_dte_min(),
            dte_max: default_os_dte_max(),
        }
    }
}

/// Window of the O/S deviation where none is configured.
pub fn default_os_rolling_window() -> (r: usize)
    ensures
        r == 6,
{
    6
}

/// Lower bound of the O/S band where none is configured.
pub fn default_os_dte_min() -> (r: i64)
    ensures
        r == 5,
{
    5
}

/// Upper bound of the O/S band where none is configured.
pub fn default_os_dte_max() -> (r: i64)
    ensures
        r == 35,
{
    35
}

/// ATM range where none is configured: 2%.
pub fn default_atm_range() -> (r: i64)
    ensures
        r == 20_000_000,
{
    20_000_000
}

/// Deep boundary where none is configured: 10%.
pub fn default_deep_range() -> (r: i64)
    ensures
        r == 100_000_000,
{
    100_000_000
}

/// Symbol where none is configured.
pub fn default_symbol() -> (r: String)
    ensures
        r@ == "NVDA"@,
{
    "NVDA".to_owned()
}

/// Risk-free rate where none is configured: 5%.
pub fn default_risk_free_rate() -> (r: i64)
    ensures
        r == 50_000_000,
{
    50_000_000
}

/// Switches are on where they are not configured.
pub fn default_true() -> (r: bool)
    ensures
        r,
{
    true
}

/// Output directory where none is configured.
pub fn default_output_dir() -> (r: String)
    ensures
        r@ == "output_opra"@,
{
    "output_opra".to_owned()
}

/// Sample size of the distributions where none is configured.
pub fn default_reservoir_capacity() -> (r: usize)
    ensures
        r == 10_000,
{
    10_000
}

impl ProfilerConfig {
    /// The configuration of an input alone: all else has its default.
    pub fn with_defaults(input: InputConfig) -> (r: Self)
        ensures
            r.input == input,
            r.trackers == (TrackerConfig {
                quality: true,
                spread: true,
                premium_decay: true,
                volume: true,
                greeks: true,
                zero_dte: true,
                put_call: true,
                effective_spread: true,
            }),
            r.output.output_dir@ == "output_opra"@ && r.output.write_summaries,
            r.buckets == (BucketConfig { atm_range_pct: 20_000_000, deep_range_pct: 100_000_000 }),
            r.os_ratio == (OsRatioConfig {
                enabled: true,
                rolling_window_days: 6,
                dte_min: 5,
                dte_max: 35,
            }),
            r.reservoir_capacity == 10_000,
    {
        ProfilerConfig {
            input,
            trackers: TrackerConfig::default(),
            output: OutputConfig::default(),
            buckets: BucketConfig::default(),
            os_ratio: OsRatioConfig::default(),
            reservoir_capacity: default_reservoir_capacity(),
        }
    }
}

} // verus!
