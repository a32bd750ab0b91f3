//! Option-to-stock volume ratio (O/S) — Johnson & So (2012).
//!
//! Reference: Johnson, T. L. & So, E. C. (2012). "The Option to Stock Volume
//! Ratio and Future Returns." *Journal of Financial Economics* 106(2):262-286.
//!
//! # Formula (Eq. 9)
//!
//! ```text
//! O/S_d = OPVOL_d / EQVOL_d
//! ```
//!
//! where `OPVOL_d` is the total option-contract volume (calls + puts, UNSIGNED,
//! restricted to a DTE band) on day `d`, and `EQVOL_d` is the equity volume
//! expressed in **round lots of 100 shares** (`shares / 100`), to make it
//! commensurate with option contracts (each pertains to 100 shares). O/S is a
//! dimensionless **fraction**.
//!
//! `ΔO/S_d` is the deviation from a trailing `rolling_window_days` mean:
//!
//! ```text
//! ΔO/S_d = (O/S_d − mean(O/S over the prior `window` days)) / mean(...)
//! ```
//!
//! Days before the window is warm have none.
//!
//! - **AD-OS-1 (CRITICAL):** Johnson-So's headline alpha is CROSS-SECTIONAL (a decile
//!   spread over ~1,700 firms). A single name is an UNESTABLISHED extrapolation;
//!   the credible single-name analog is ΔO/S, magnitude UNCALIBRATED.
//! - **No forward-IC claim** is made here: this module emits the **instrument**
//!   (the per-day O/S/ΔO/S series), not a measured IC.

use crate::date::Date;
use crate::fraction::Fraction;
use crate::sorting::stable_sort;
use std::collections::BTreeMap;
use vstd::prelude::*;

verus! {

/// The equity round-lot size: EQVOL is in lots of 100 shares so that it is
/// commensurate with option contracts (each on 100 shares).
pub const ROUND_LOT_SIZE: u64 = 100;

/// What a reader of the series has to bear in mind; part of the report.
pub const CAVEATS: &'static str = "O/S = OPVOL/(EQVOL/100) stored as a FRACTION (Johnson-So 2012 mean 4.34% = 0.0434; x100 for percent). SINGLE-NAME NVDA is an UNESTABLISHED extrapolation of the CROSS-SECTIONAL Johnson-So result (AD-OS-1); NVDA is the WEAKEST short-sale-cost + leverage regime (AD-OS-2); the 5-35-DTE band is the opposite end of the maturity spectrum from the 0DTE-dominated window (AD-OS-4). NO forward-IC claim is made: on a short pilot only (n_days - rolling_window_days) DeltaO/S points exist, far below the hft-rules §13 IC gate. If os_ratio_summary.n_finite == 0 the underlying volume was unavailable (fallback-price mode) — provide an EQUS underlying_prices_file. See theory:option_to_stock_volume_ratio.";

/// A deviation of O/S from its trailing mean, by what it is computed from:
/// `(current - mean(prior)) / mean(prior)`.
#[derive(Debug)]
pub struct DeltaOs {
    /// O/S of the day.
    pub current: Fraction,
    /// O/S of the days of the window, in order.
    pub prior: Vec<Fraction>,
}

/// The series on one day.
#[derive(Debug)]
pub struct OsDay {
    pub date: Date,
    /// Option contracts traded in the band.
    pub opvol: u64,
    /// Shares traded, if they are known.
    pub eqvol_shares: Option<u64>,
    /// Round lots traded, if they are known.
    pub eqvol_round_lots: Option<Fraction>,
    /// O/S, where shares were traded.
    pub os_ratio: Option<Fraction>,
    /// ΔO/S, where it is defined.
    pub delta_os: Option<DeltaOs>,
}

/// The per-day O/S and ΔO/S series, with what it was computed for.
#[derive(Debug)]
pub struct OsSeries {
    pub n_days: usize,
    pub rolling_window_days: usize,
    pub dte_min: i64,
    pub dte_max: i64,
    /// Days whose equity volume is not known.
    pub n_join_miss: usize,
    pub per_day: Vec<OsDay>,
    /// Days that have an O/S, and the least and the greatest of them.
    pub os_n_finite: usize,
    pub os_min: Option<Fraction>,
    pub os_max: Option<Fraction>,
    /// Days that have a ΔO/S.
    pub delta_n_finite: usize,
    /// Days before the window is warm.
    pub n_warmup_null: usize,
}

/// A deviation, with the ratios of the window as a sequence.
pub struct DeltaModel {
    pub current: Fraction,
    pub prior: Seq<Fraction>,
}

impl View for DeltaOs {
    type V = DeltaModel;

    open spec fn view(&self) -> DeltaModel {
        DeltaModel { current: self.current, prior: self.prior@ }
    }
}

/// Volumes under the numbers of their days.
pub open spec fn by_day(volumes: Seq<(Date, u64)>) -> Seq<(i64, (Date, u64))> {
    volumes.map_values(|v: (Date, u64)| (v.0.days_from_ce as i64, v))
}

/// The volume of a day; where a day occurs twice, the later entry counts.
pub open spec fn volume_on(volumes: Seq<(Date, u64)>, date: Date) -> Option<u64>
    decreases volumes.len(),
{
    if volumes.len() == 0 {
        None
    } else if volumes.last().0 == date {
        Some(volumes.last().1)
    } else {
        volume_on(volumes.drop_last(), date)
    }
}

/// O/S of a day: contracts over round lots, where there are lots. No contracts
/// give an O/S of zero.
pub open spec fn ratio_of(opvol: u64, eqvol: Option<u64>) -> Option<Fraction> {
    match eqvol {
        Some(shares) => if shares > 0 {
            Some(Fraction { num: (opvol * ROUND_LOT_SIZE) as i128, den: shares as u128 })
        } else {
            None
        },
        None => None,
    }
}

/// O/S of each day.
pub open spec fn ratios(days: Seq<(Date, u64)>, eqvol: Seq<(Date, u64)>) -> Seq<Option<Fraction>> {
    days.map_values(|d: (Date, u64)| ratio_of(d.1, volume_on(eqvol, d.0)))
}

/// Every day of the window before day `i` has an O/S, and one of them is not
/// zero, so that their mean is not.
pub open spec fn window_is_warm(os: Seq<Option<Fraction>>, window: int, i: int) -> bool {
    &&& 0 < window <= i
    &&& forall|j: int| i - window <= j < i ==> (#[trigger] os[j]) is Some
    &&& exists|j: int| i - window <= j < i && (#[trigger] os[j])->0.num != 0
}

/// ΔO/S of day `i`.
pub open spec fn delta_of(os: Seq<Option<Fraction>>, window: int, i: int) -> Option<DeltaModel> {
    if os[i] is Some && window_is_warm(os, window, i) {
        Some(
            DeltaModel {
                current: os[i]->0,
                prior: Seq::new(window as nat, |j: int| os[i - window + j]->0),
            },
        )
    } else {
        None
    }
}

/// How many of the first `n` values are there.
pub open spec fn count_some(os: Seq<Option<Fraction>>, n: int) -> nat
    decreases n,
{
    if n <= 0 {
        0
    } else {
        count_some(os, n - 1) + (if os[n - 1] is Some {
            1nat
        } else {
            0
        })
    }
}

/// On how many of the first `n` days the equity volume is not known.
pub open spec fn count_missing(days: Seq<(Date, u64)>, eqvol: Seq<(Date, u64)>, n: int) -> nat
    decreases n,
{
    if n <= 0 {
        0
    } else {
        count_missing(days, eqvol, n - 1) + (if volume_on(eqvol, days[n - 1].0) is None {
            1nat
        } else {
            0
        })
    }
}

/// On how many of the first `n` days there is a ΔO/S.
pub open spec fn count_deltas(os: Seq<Option<Fraction>>, window: int, n: int) -> nat
    decreases n,
{
    if n <= 0 {
        0
    } else {
        count_deltas(os, window, n - 1) + (if delta_of(os, window, n - 1) is Some {
            1nat
        } else {
            0
        })
    }
}

/// Every value before the `i`-th is greater than it.
pub open spec fn first_below(os: Seq<Option<Fraction>>, i: int) -> bool {
    forall|j: int| 0 <= j < i && (#[trigger] os[j]) is Some ==> os[i]->0.lt(os[j]->0)
}

/// Every value before the `i`-th is less than it.
pub open spec fn first_above(os: Seq<Option<Fraction>>, i: int) -> bool {
    forall|j: int| 0 <= j < i && (#[trigger] os[j]) is Some ==> os[j]->0.lt(os[i]->0)
}

/// `least` is the least of the first `n` values that are there, the first of
/// them where several are equal.
pub open spec fn is_least(os: Seq<Option<Fraction>>, n: int, least: Option<Fraction>) -> bool {
    &&& least is Some <==> count_some(os, n) > 0
    &&& least is Some ==> least->0.valid() && exists|i: int|
        0 <= i < n && os[i] == least && #[trigger] first_below(os, i)
    &&& forall|i: int|
        0 <= i < n && (#[trigger] os[i]) is Some ==> least is Some && !os[i]->0.lt(least->0)
}

/// `greatest` is the greatest of the first `n` values that are there, the first
/// of them where several are equal.
pub open spec fn is_greatest(
    os: Seq<Option<Fraction>>,
    n: int,
    greatest: Option<Fraction>,
) -> bool {
    &&& greatest is Some <==> count_some(os, n) > 0
    &&& greatest is Some ==> greatest->0.valid() && exists|i: int|
        0 <= i < n && os[i] == greatest && #[trigger] first_above(os, i)
    &&& forall|i: int|
        0 <= i < n && (#[trigger] os[i]) is Some ==> greatest is Some && !greatest->0.lt(os[i]->0)
}

/// The map holds the volumes under the numbers of their days.
spec fn maps_volumes(map: Map<i32, u64>, volumes: Seq<(Date, u64)>) -> bool {
    forall|date: Date| #[trigger]
        volume_on(volumes, date) == if map.contains_key(date.days_from_ce) {
            Some(map[date.days_from_ce])
        } else {
            None
        }
}

/// Volumes by the numbers of their days; where a day occurs twice, the later
/// entry stays.
fn volume_map(volumes: &[(Date, u64)]) -> (map: BTreeMap<i32, u64>)
    ensures
        maps_volumes(map@, volumes@),
{
    let mut map: BTreeMap<i32, u64> = BTreeMap::new();
    let mut i: usize = 0;
    while i < volumes.len()
        invariant
            i <= volumes@.len(),
            maps_volumes(map@, volumes@.take(i as int)),
        decreases volumes@.len() - i,
    {
        let (date, volume) = volumes[i];
        let ghost before = map@;
        map.insert(date.days_from_ce, volume);
        proof {
            let now = volumes@.take(i + 1);
            assert(now.drop_last() =~= volumes@.take(i as int));
            assert(now.last() == (date, volume));
            assert forall|d: Date| #[trigger]
                volume_on(now, d) == if map@.contains_key(d.days_from_ce) {
                    Some(map@[d.days_from_ce])
                } else {
                    None
                } by {
                assert(volume_on(now.drop_last(), d) == if before.contains_key(d.days_from_ce) {
                    Some(before[d.days_from_ce])
                } else {
                    None
                });
                assert(d.days_from_ce == date.days_from_ce ==> d == date);
            }
        }
        i = i + 1;
    }
    assert(volumes@.take(i as int) =~= volumes@);
    map
}

/// The volume of a day in a map.
fn lookup(map: &BTreeMap<i32, u64>, date: Date) -> (r: Option<u64>)
    ensures
        r == if map@.contains_key(date.days_from_ce) {
            Some(map@[date.days_from_ce])
        } else {
            None
        },
{
    match map.get(&date.days_from_ce) {
        Some(volume) => Some(*volume),
        None => None,
    }
}

proof fn lemma_order_trans(a: Fraction, b: Fraction, c: Fraction)
    requires
        a.valid(),
        b.valid(),
        c.valid(),
    ensures
        !a.lt(b) && c.lt(b) ==> !a.lt(c) && c.lt(a),
        !b.lt(a) && b.lt(c) ==> !c.lt(a) && a.lt(c),
{
    let (an, ad, bn, bd, cn, cd) = (
        a.num as int,
        a.den as int,
        b.num as int,
        b.den as int,
        c.num as int,
        c.den as int,
    );
    if !a.lt(b) && c.lt(b) {
        lemma_chain(cn, cd, bn, bd, an, ad);
    }
    if !b.lt(a) && b.lt(c) {
        lemma_chain_up(an, ad, bn, bd, cn, cd);
    }
}

/// c < b and b <= a give c < a.
proof fn lemma_chain(cn: int, cd: int, bn: int, bd: int, an: int, ad: int)
    requires
        cd > 0,
        bd > 0,
        ad > 0,
        cn * bd < bn * cd,
        an * bd >= bn * ad,
    ensures
        cn * ad < an * cd,
{
    assert((cn * bd) * ad < (bn * cd) * ad) by (nonlinear_arith)
        requires
            cn * bd < bn * cd,
            ad > 0,
    ;
    assert((an * bd) * cd >= (bn * ad) * cd) by (nonlinear_arith)
        requires
            an * bd >= bn * ad,
            cd > 0,
    ;
    assert((bn * cd) * ad == (bn * ad) * cd) by (nonlinear_arith);
    assert((cn * bd) * ad == (cn * ad) * bd) by (nonlinear_arith);
    assert((an * bd) * cd == (an * cd) * bd) by (nonlinear_arith);
    assert(cn * ad < an * cd) by (nonlinear_arith)
        requires
            (cn * ad) * bd < (an * cd) * bd,
            bd > 0,
    ;
}

/// a <= b and b < c give a < c.
proof fn lemma_chain_up(an: int, ad: int, bn: int, bd: int, cn: int, cd: int)
    requires
        cd > 0,
        bd > 0,
        ad > 0,
        bn * ad >= an * bd,
        bn * cd < cn * bd,
    ensures
        an * cd < cn * ad,
{
    assert((bn * ad) * cd >= (an * bd) * cd) by (nonlinear_arith)
        requires
            bn * ad >= an * bd,
            cd > 0,
    ;
    assert((bn * cd) * ad < (cn * bd) * ad) by (nonlinear_arith)
        requires
            bn * cd < cn * bd,
            ad > 0,
    ;
    assert((bn * ad) * cd == (bn * cd) * ad) by (nonlinear_arith);
    assert((an * bd) * cd == (an * cd) * bd) by (nonlinear_arith);
    assert((cn * bd) * ad == (cn * ad) * bd) by (nonlinear_arith);
    assert(an * cd < cn * ad) by (nonlinear_arith)
        requires
            (an * cd) * bd < (cn * ad) * bd,
            bd > 0,
    ;
}

/// The least and the greatest of the ratios that are there, and their number.
fn summary_stats(os: &Vec<Option<Fraction>>) -> (r: (usize, Option<Fraction>, Option<Fraction>))
    requires
        forall|i: int| 0 <= i < os@.len() && (#[trigger] os@[i]) is Some ==> os@[i]->0.valid(),
    ensures
        r.0 == count_some(os@, os@.len() as int),
        is_least(os@, os@.len() as int, r.1),
        is_greatest(os@, os@.len() as int, r.2),
{
    let mut n: usize = 0;
    let mut least: Option<Fraction> = None;
    let mut greatest: Option<Fraction> = None;
    let mut i: usize = 0;
    while i < os.len()
        invariant
            i <= os@.len(),
            n <= i,
            n == count_some(os@, i as int),
            is_least(os@, i as int, least),
            is_greatest(os@, i as int, greatest),
            forall|j: int| 0 <= j < os@.len() && (#[trigger] os@[j]) is Some ==> os@[j]->0.valid(),
        decreases os@.len() - i,
    {
        let ghost old_least = least;
        let ghost old_greatest = greatest;
        if let Some(value) = os[i] {
            n = n + 1;
            let lower: bool = match least {
                Some(m) => value.less_than(&m),
                None => true,
            };
            if lower {
                least = Some(value);
            }
            let higher: bool = match greatest {
                Some(m) => m.less_than(&value),
                None => true,
            };
            if higher {
                greatest = Some(value);
            }
            proof {
                assert(os@[i as int] == Some(value));
                assert forall|j: int|
                    0 <= j < i + 1 && (#[trigger] os@[j]) is Some implies !os@[j]->0.lt(least->0)
                    && !greatest->0.lt(os@[j]->0) by {
                    if j < i {
                        assert(!os@[j]->0.lt(old_least->0));
                        assert(!old_greatest->0.lt(os@[j]->0));
                        lemma_order_trans(os@[j]->0, old_least->0, value);
                        lemma_order_trans(os@[j]->0, old_greatest->0, value);
                    } else {
                        assert(value.num * value.den == value.num * value.den);
                    }
                }
                if lower {
                    assert forall|j: int|
                        0 <= j < i && (#[trigger] os@[j]) is Some implies value.lt(os@[j]->0) by {
                        lemma_order_trans(os@[j]->0, old_least->0, value);
                    }
                    assert(first_below(os@, i as int));
                } else {
                    let j = choose|j: int|
                        0 <= j < i && os@[j] == old_least && #[trigger] first_below(os@, j);
                    assert(os@[j] == least && first_below(os@, j));
                }
                if higher {
                    assert forall|j: int|
                        0 <= j < i && (#[trigger] os@[j]) is Some implies os@[j]->0.lt(value) by {
                        lemma_order_trans(os@[j]->0, old_greatest->0, value);
                    }
                    assert(first_above(os@, i as int));
                } else {
                    let j = choose|j: int|
                        0 <= j < i && os@[j] == old_greatest && #[trigger] first_above(os@, j);
                    assert(os@[j] == greatest && first_above(os@, j));
                }
            }
        } else {
            proof {
                if least is Some {
                    let j = choose|j: int|
                        0 <= j < i && os@[j] == least && #[trigger] first_below(os@, j);
                    assert(os@[j] == least && first_below(os@, j));
                    let k = choose|k: int|
                        0 <= k < i && os@[k] == greatest && #[trigger] first_above(os@, k);
                    assert(os@[k] == greatest && first_above(os@, k));
                }
            }
        }
        i = i + 1;
    }
    (n, least, greatest)
}

/// ΔO/S of day `i`.
fn delta_on(os: &Vec<Option<Fraction>>, window: usize, i: usize) -> (r: Option<DeltaOs>)
    requires
        i < os@.len(),
    ensures
        match r {
            Some(delta) => delta_of(os@, window as int, i as int) == Some(delta@),
            None => delta_of(os@, window as int, i as int) is None,
        },
{
    if window == 0 || i < window {
        return None;
    }
    let current: Fraction = match os[i] {
        Some(value) => value,
        None => {
            return None;
        },
    };
    let mut prior: Vec<Fraction> = Vec::new();
    let mut nonzero: bool = false;
    let mut j: usize = i - window;
    while j < i
        invariant
            0 < window <= i < os@.len(),
            i - window <= j <= i,
            forall|k: int| i - window <= k < j ==> (#[trigger] os@[k]) is Some,
            nonzero == exists|k: int| i - window <= k < j && (#[trigger] os@[k])->0.num != 0,
            prior@ == Seq::new((j - (i - window)) as nat, |k: int| os@[i - window + k]->0),
        decreases i - j,
    {
        match os[j] {
            Some(value) => {
                let ghost before = nonzero;
                prior.push(value);
                if value.num != 0 {
                    nonzero = true;
                }
                proof {
                    assert(os@[j as int]->0 == value);
                    if before {
                        let k = choose|k: int|
                            i - window <= k < j && (#[trigger] os@[k])->0.num != 0;
                        assert(os@[k]->0.num != 0);
                    }
                    assert(prior@ =~= Seq::new(
                        (j + 1 - (i - window)) as nat,
                        |k: int| os@[i - window + k]->0,
                    ));
                }
            },
            None => {
                assert(!(os@[j as int] is Some));
                return None;
            },
        }
        j = j + 1;
    }
    if nonzero {
        Some(DeltaOs { current, prior })
    } else {
        None
    }
}

/// Compute the per-day O/S and ΔO/S series.
///
/// `opvol_per_day` is the per-day option-contract volume in the DTE band (the
/// numerator), `eqvol_per_day` is the per-day equity SHARE volume (the
/// denominator). Both are `(date, volume)` pairs; the function joins them by
/// date and sorts by date.
///
/// `dte_min`/`dte_max` are echoed for provenance.
///
/// - No shares on a day: no O/S.
/// - No contracts on a day: an O/S of zero.
/// - A day that `eqvol_per_day` lacks: no O/S, and it is counted in
///   `n_join_miss` (recorded, never silently dropped).
pub fn compute_os_series(
    opvol_per_day: &[(Date, u64)],
    eqvol_per_day: &[(Date, u64)],
    rolling_window_days: usize,
    dte_min: i64,
    dte_max: i64,
) -> (r: OsSeries)
    ensures
        r.n_days == opvol_per_day@.len(),
        r.rolling_window_days == rolling_window_days,
        r.dte_min == dte_min && r.dte_max == dte_max,
        series_of(opvol_per_day@, eqvol_per_day@, rolling_window_days as int, r),
{
    let mut unsorted: Vec<(i64, (Date, u64))> = Vec::new();
    let mut i: usize = 0;
    while i < opvol_per_day.len()
        invariant
            i <= opvol_per_day@.len(),
            unsorted@ == by_day(opvol_per_day@.take(i as int)),
        decreases opvol_per_day@.len() - i,
    {
        let day: (Date, u64) = opvol_per_day[i];
        unsorted.push((day.0.days_from_ce as i64, day));
        assert(unsorted@ =~= by_day(opvol_per_day@.take(i + 1)));
        i = i + 1;
    }
    assert(opvol_per_day@.take(i as int) =~= opvol_per_day@);
    let sorted: Vec<(i64, (Date, u64))> = stable_sort(unsorted);
    let ghost days: Seq<(Date, u64)> = sorted@.map_values(|d: (i64, (Date, u64))| d.1);
    let ghost all = ratios(days, eqvol_per_day@);
    proof {
        assert forall|k: int| 0 <= k < sorted@.len() implies (#[trigger] sorted@[k]).0
            == sorted@[k].1.0.days_from_ce by {
            lemma_key_is_day(opvol_per_day@, sorted@, k);
        }
        assert(by_day(days) =~= sorted@);
    }
    let eqvol_map: BTreeMap<i32, u64> = volume_map(eqvol_per_day);
    let n_days: usize = sorted.len();
    let mut n_join_miss: usize = 0;
    let mut os: Vec<Option<Fraction>> = Vec::new();
    let mut shares: Vec<Option<u64>> = Vec::new();
    let mut d: usize = 0;
    while d < n_days
        invariant
            d <= n_days == sorted@.len(),
            days == sorted@.map_values(|x: (i64, (Date, u64))| x.1),
            all == ratios(days, eqvol_per_day@),
            maps_volumes(eqvol_map@, eqvol_per_day@),
            n_join_miss <= d,
            n_join_miss == count_missing(days, eqvol_per_day@, d as int),
            os@ == all.take(d as int),
            shares@.len() == d,
            forall|k: int|
                0 <= k < d ==> #[trigger] shares@[k] == volume_on(eqvol_per_day@, days[k].0),
        decreases n_days - d,
    {
        let (date, opvol) = sorted[d].1;
        assert(days[d as int] == (date, opvol));
        let eqvol: Option<u64> = lookup(&eqvol_map, date);
        assert(eqvol == volume_on(eqvol_per_day@, date));
        let ratio: Option<Fraction> = match eqvol {
            None => {
                n_join_miss = n_join_miss + 1;
                None
            },
            Some(0) => None,
            Some(volume) => Some(
                Fraction { num: opvol as i128 * ROUND_LOT_SIZE as i128, den: volume as u128 },
            ),
        };
        os.push(ratio);
        shares.push(eqvol);
        assert(ratio == ratio_of(opvol, eqvol));
        assert(all[d as int] == ratio);
        assert(os@ =~= all.take(d + 1));
        d = d + 1;
    }
    assert(os@ =~= all);
    let mut per_day: Vec<OsDay> = Vec::new();
    let mut delta_n_finite: usize = 0;
    let mut e: usize = 0;
    while e < n_days
        invariant
            e <= n_days == sorted@.len() == days.len(),
            days == sorted@.map_values(|x: (i64, (Date, u64))| x.1),
            os@ == all,
            all.len() == n_days,
            shares@.len() == n_days,
            forall|k: int|
                0 <= k < n_days ==> #[trigger] shares@[k] == volume_on(eqvol_per_day@, days[k].0),
            per_day@.len() == e,
            forall|k: int|
                0 <= k < e ==> day_of(
                    days,
                    eqvol_per_day@,
                    all,
                    rolling_window_days as int,
                    k,
                    #[trigger] per_day@[k],
                ),
            delta_n_finite <= e,
            delta_n_finite == count_deltas(all, rolling_window_days as int, e as int),
        decreases n_days - e,
    {
        let (date, opvol) = sorted[e].1;
        assert(days[e as int] == (date, opvol));
        assert(shares@[e as int] == volume_on(eqvol_per_day@, date));
        let delta_os: Option<DeltaOs> = delta_on(&os, rolling_window_days, e);
        if delta_os.is_some() {
            delta_n_finite = delta_n_finite + 1;
        }
        let eqvol: Option<u64> = shares[e];
        let eqvol_round_lots: Option<Fraction> = match eqvol {
            Some(volume) => Some(Fraction { num: volume as i128, den: ROUND_LOT_SIZE as u128 }),
            None => None,
        };
        let day = OsDay {
            date,
            opvol,
            eqvol_shares: eqvol,
            eqvol_round_lots,
            os_ratio: os[e],
            delta_os,
        };
        assert(day_of(days, eqvol_per_day@, all, rolling_window_days as int, e as int, day));
        per_day.push(day);
        e = e + 1;
    }
    let (os_n_finite, os_min, os_max) = summary_stats(&os);
    let n_warmup_null: usize = if rolling_window_days < n_days {
        rolling_window_days
    } else {
        n_days
    };
    let r = OsSeries {
        n_days,
        rolling_window_days,
        dte_min,
        dte_max,
        n_join_miss,
        per_day,
        os_n_finite,
        os_min,
        os_max,
        delta_n_finite,
        n_warmup_null,
    };
    assert(days =~= days_of(r));
    r
}

/// A sorted key is the day of its entry.
proof fn lemma_key_is_day(
    volumes: Seq<(Date, u64)>,
    sorted: Seq<(i64, (Date, u64))>,
    k: int,
)
    requires
        sorted.to_multiset() == by_day(volumes).to_multiset(),
        0 <= k < sorted.len(),
    ensures
        sorted[k].0 == sorted[k].1.0.days_from_ce,
{
    broadcast use vstd::seq_lib::group_to_multiset_ensures;

    assert(sorted.to_multiset().contains(sorted[k]));
    assert(by_day(volumes).contains(sorted[k]));
    let j = choose|j: int| 0 <= j < by_day(volumes).len() && by_day(volumes)[j] == sorted[k];
    assert(by_day(volumes)[j] == (volumes[j].0.days_from_ce as i64, volumes[j]));
}

/// What the series says of day `k`.
pub open spec fn day_of(
    days: Seq<(Date, u64)>,
    eqvol: Seq<(Date, u64)>,
    os: Seq<Option<Fraction>>,
    window: int,
    k: int,
    day: OsDay,
) -> bool {
    &&& day.date == days[k].0 && day.opvol == days[k].1
    &&& day.eqvol_shares == volume_on(eqvol, days[k].0)
    &&& day.eqvol_round_lots == match volume_on(eqvol, days[k].0) {
        Some(shares) => Some(Fraction { num: shares as i128, den: ROUND_LOT_SIZE as u128 }),
        None => None,
    }
    &&& day.os_ratio == os[k]
    &&& match day.delta_os {
        Some(delta) => delta_of(os, window, k) == Some(delta@),
        None => delta_of(os, window, k) is None,
    }
}

/// The days of a series with their option volumes.
pub open spec fn days_of(series: OsSeries) -> Seq<(Date, u64)> {
    series.per_day@.map_values(|day: OsDay| (day.date, day.opvol))
}

/// `r` is the series of the volumes: its days are those of the option volumes
/// in order of date, each with its ratio and deviation, and the counts and
/// extremes are those of the days.
pub open spec fn series_of(
    opvol: Seq<(Date, u64)>,
    eqvol: Seq<(Date, u64)>,
    window: int,
    r: OsSeries,
) -> bool {
    let days = days_of(r);
    let os = ratios(days, eqvol);
    let n = days.len() as int;
    &&& crate::sorting::is_stable_sort(by_day(opvol), by_day(days))
    &&& by_day(opvol).to_multiset() == by_day(days).to_multiset()
    &&& n == opvol.len()
    &&& forall|k: int| 0 <= k < n ==> day_of(days, eqvol, os, window, k, #[trigger] r.per_day@[k])
    &&& r.n_join_miss == count_missing(days, eqvol, n)
    &&& r.os_n_finite == count_some(os, n)
    &&& is_least(os, n, r.os_min)
    &&& is_greatest(os, n, r.os_max)
    &&& r.delta_n_finite == count_deltas(os, window, n)
    &&& r.n_warmup_null == if window < n {
        window
    } else {
        n
    }
}

/// No day before the window is warm has a ΔO/S.
pub proof fn law_warmup_days_have_no_delta(
    opvol: Seq<(Date, u64)>,
    eqvol: Seq<(Date, u64)>,
    window: int,
    r: OsSeries,
    i: int,
)
    requires
        series_of(opvol, eqvol, window, r),
        0 <= i < opvol.len(),
        i < window,
    ensures
        r.per_day@[i].delta_os is None,
{
    assert(day_of(days_of(r), eqvol, ratios(days_of(r), eqvol), window, i, r.per_day@[i]));
}

/// ΔO/S of a day depends on the ratios of that day and of the days before it
/// alone.
proof fn lemma_delta_of_prefix(
    a: Seq<Option<Fraction>>,
    b: Seq<Option<Fraction>>,
    window: int,
    i: int,
)
    requires
        0 <= i < a.len(),
        i < b.len(),
        forall|j: int| 0 <= j <= i ==> #[trigger] a[j] == b[j],
    ensures
        delta_of(a, window, i) == delta_of(b, window, i),
{
    if window_is_warm(a, window, i) {
        let j = choose|j: int| i - window <= j < i && (#[trigger] a[j])->0.num != 0;
        assert(b[j]->0.num != 0);
        assert forall|k: int| i - window <= k < i implies (#[trigger] b[k]) is Some by {
            assert(a[k] is Some);
        }
    }
    if window_is_warm(b, window, i) {
        let j = choose|j: int| i - window <= j < i && (#[trigger] b[j])->0.num != 0;
        assert(a[j]->0.num != 0);
        assert forall|k: int| i - window <= k < i implies (#[trigger] a[k]) is Some by {
            assert(b[k] is Some);
        }
    }
    if 0 < window <= i {
        assert(Seq::new(window as nat, |j: int| a[i - window + j]->0) =~= Seq::new(
            window as nat,
            |j: int| b[i - window + j]->0,
        ));
    }
}

/// The two deviations are the same, or neither is defined.
pub open spec fn same_delta(a: Option<DeltaOs>, b: Option<DeltaOs>) -> bool {
    match (a, b) {
        (Some(x), Some(y)) => x@ == y@,
        (None, None) => true,
        _ => false,
    }
}

/// The volumes up to a day.
pub open spec fn up_to(volumes: Seq<(Date, u64)>, last: Date) -> Seq<(Date, u64)> {
    volumes.filter(|v: (Date, u64)| v.0.days_from_ce <= last.days_from_ce)
}

/// No look-ahead: two series whose inputs agree up to a day, in option volumes
/// and in equity volumes, agree up to that day, whatever the inputs hold of
/// later days. The days up to it come first in both, and each has the same
/// volumes, the same O/S and the same ΔO/S.
pub proof fn law_no_lookahead(
    a: Seq<(Date, u64)>,
    b: Seq<(Date, u64)>,
    eqvol_a: Seq<(Date, u64)>,
    eqvol_b: Seq<(Date, u64)>,
    window: int,
    x: OsSeries,
    y: OsSeries,
    last: Date,
)
    requires
        series_of(a, eqvol_a, window, x),
        series_of(b, eqvol_b, window, y),
        up_to(a, last) == up_to(b, last),
        up_to(eqvol_a, last) == up_to(eqvol_b, last),
    ensures
        ({
            let n = up_to(a, last).len() as int;
            &&& n <= a.len() && n <= b.len()
            &&& forall|i: int|
                0 <= i < n ==> {
                    let (p, q) = (#[trigger] x.per_day@[i], y.per_day@[i]);
                    &&& p.date.days_from_ce <= last.days_from_ce
                    &&& p.date == q.date && p.opvol == q.opvol
                    &&& p.eqvol_shares == q.eqvol_shares
                    &&& p.eqvol_round_lots == q.eqvol_round_lots
                    &&& p.os_ratio == q.os_ratio
                    &&& same_delta(p.delta_os, q.delta_os)
                }
            &&& forall|i: int|
                n <= i < a.len() ==> last.days_from_ce < (
                #[trigger] x.per_day@[i]).date.days_from_ce
            &&& forall|i: int|
                n <= i < b.len() ==> last.days_from_ce < (
                #[trigger] y.per_day@[i]).date.days_from_ce
        }),
{
    let (dx, dy) = (days_of(x), days_of(y));
    let m = lemma_sorted_up_to(a, dx, last);
    let k = lemma_sorted_up_to(b, dy, last);
    crate::sorting::law_stable_sort_is_unique(
        by_day(up_to(a, last)),
        by_day(dx.take(m)),
        by_day(dy.take(k)),
    );
    lemma_by_day_injective(dx.take(m), dy.take(k));
    let (p, q) = (ratios(dx, eqvol_a), ratios(dy, eqvol_b));
    assert forall|j: int| 0 <= j < m implies #[trigger] p[j] == q[j] && dx[j] == dy[j] && volume_on(
        eqvol_a,
        dx[j].0,
    ) == volume_on(eqvol_b, dy[j].0) by {
        assert(dx.take(m)[j] == dy.take(k)[j]);
        lemma_volume_up_to(eqvol_a, dx[j].0, last);
        lemma_volume_up_to(eqvol_b, dx[j].0, last);
    }
    assert forall|i: int| 0 <= i < m implies {
        let (u, v) = (#[trigger] x.per_day@[i], y.per_day@[i]);
        &&& u.date.days_from_ce <= last.days_from_ce
        &&& u.date == v.date && u.opvol == v.opvol
        &&& u.eqvol_shares == v.eqvol_shares
        &&& u.eqvol_round_lots == v.eqvol_round_lots
        &&& u.os_ratio == v.os_ratio
        &&& same_delta(u.delta_os, v.delta_os)
    } by {
        assert(p[i] == q[i]);
        assert(day_of(dx, eqvol_a, p, window, i, x.per_day@[i]));
        assert(day_of(dy, eqvol_b, q, window, i, y.per_day@[i]));
        lemma_delta_of_prefix(p, q, window, i);
    }
    assert forall|i: int| m <= i < a.len() implies last.days_from_ce < (
    #[trigger] x.per_day@[i]).date.days_from_ce by {
        assert(dx[i].0 == x.per_day@[i].date);
    }
    assert forall|i: int| m <= i < b.len() implies last.days_from_ce < (
    #[trigger] y.per_day@[i]).date.days_from_ce by {
        assert(dy[i].0 == y.per_day@[i].date);
    }
}

/// The days up to a day come first among sorted days, and they are the sorted
/// volumes up to that day.
proof fn lemma_sorted_up_to(
    volumes: Seq<(Date, u64)>,
    days: Seq<(Date, u64)>,
    last: Date,
) -> (m: int)
    requires
        crate::sorting::is_stable_sort(by_day(volumes), by_day(days)),
    ensures
        0 <= m <= days.len(),
        m == up_to(volumes, last).len(),
        forall|i: int| 0 <= i < m ==> (#[trigger] days[i]).0.days_from_ce <= last.days_from_ce,
        forall|i: int|
            m <= i < days.len() ==> last.days_from_ce < (#[trigger] days[i]).0.days_from_ce,
        crate::sorting::is_stable_sort(by_day(up_to(volumes, last)), by_day(days.take(m))),
{
    let m = lemma_split_point(days, last);
    let (early, late) = (by_day(days.take(m)), by_day(days.skip(m)));
    assert(by_day(days) =~= early + late);
    assert forall|i: int, j: int| 0 <= i <= j < early.len() implies (#[trigger] early[i]).0 <= (
    #[trigger] early[j]).0 by {
        assert(early[i] == by_day(days)[i] && early[j] == by_day(days)[j]);
    }
    assert forall|key: i64| #[trigger]
        crate::sorting::with_key(by_day(up_to(volumes, last)), key) == crate::sorting::with_key(
            early,
            key,
        ) by {
        lemma_keys_up_to(volumes, last, key);
        crate::sorting::lemma_with_key_add(early, late, key);
        assert(crate::sorting::with_key(by_day(volumes), key) == crate::sorting::with_key(
            by_day(days),
            key,
        ));
        if key <= last.days_from_ce {
            assert forall|i: int| 0 <= i < late.len() implies (#[trigger] late[i]).0 != key by {
                assert(late[i] == by_day(days)[m + i]);
                assert(last.days_from_ce < days[m + i].0.days_from_ce);
            }
            crate::sorting::lemma_no_such_key(late, key);
            assert(crate::sorting::with_key(early, key) =~= crate::sorting::with_key(
                by_day(days),
                key,
            ));
        } else {
            assert forall|i: int| 0 <= i < early.len() implies (#[trigger] early[i]).0 != key by {
                assert(early[i] == by_day(days)[i]);
                assert(days[i].0.days_from_ce <= last.days_from_ce);
            }
            crate::sorting::lemma_no_such_key(early, key);
        }
    }
    crate::sorting::lemma_stable_sort_length(by_day(up_to(volumes, last)), early);
    m
}

/// Sorted days split into those up to a day and those after it.
proof fn lemma_split_point(days: Seq<(Date, u64)>, last: Date) -> (m: int)
    requires
        crate::sorting::ascending(by_day(days)),
    ensures
        0 <= m <= days.len(),
        forall|i: int| 0 <= i < m ==> (#[trigger] days[i]).0.days_from_ce <= last.days_from_ce,
        forall|i: int|
            m <= i < days.len() ==> last.days_from_ce < (#[trigger] days[i]).0.days_from_ce,
    decreases days.len(),
{
    let n = days.len() as int;
    if n == 0 {
        0
    } else if days[n - 1].0.days_from_ce <= last.days_from_ce {
        assert forall|i: int| 0 <= i < n implies (#[trigger] days[i]).0.days_from_ce
            <= last.days_from_ce by {
            assert(by_day(days)[i].0 <= by_day(days)[n - 1].0);
        }
        n
    } else {
        let rest = days.drop_last();
        assert forall|i: int, j: int| 0 <= i <= j < by_day(rest).len() implies (
        #[trigger] by_day(rest)[i]).0 <= (#[trigger] by_day(rest)[j]).0 by {
            assert(by_day(rest)[i] == by_day(days)[i] && by_day(rest)[j] == by_day(days)[j]);
        }
        let m = lemma_split_point(rest, last);
        assert forall|i: int| 0 <= i < m implies (#[trigger] days[i]).0.days_from_ce
            <= last.days_from_ce by {
            assert(rest[i] == days[i]);
        }
        assert forall|i: int| m <= i < n implies last.days_from_ce < (
        #[trigger] days[i]).0.days_from_ce by {
            if i < n - 1 {
                assert(rest[i] == days[i]);
            }
        }
        m
    }
}

/// Of the volumes up to a day, those of a day are all of that day, or none.
proof fn lemma_keys_up_to(volumes: Seq<(Date, u64)>, last: Date, key: i64)
    ensures
        crate::sorting::with_key(by_day(up_to(volumes, last)), key) == if key <= last.days_from_ce {
            crate::sorting::with_key(by_day(volumes), key)
        } else {
            Seq::empty()
        },
    decreases volumes.len(),
{
    reveal(Seq::filter);
    if volumes.len() == 0 {
        assert(by_day(volumes) =~= Seq::empty());
        assert(up_to(volumes, last) =~= volumes);
        crate::sorting::lemma_no_such_key(by_day(volumes), key);
    } else {
        let rest = volumes.drop_last();
        let v = volumes.last();
        let item = (v.0.days_from_ce as i64, v);
        lemma_keys_up_to(rest, last, key);
        assert(by_day(volumes) =~= by_day(rest).push(item));
        crate::sorting::lemma_with_key_push(by_day(rest), item, key);
        if v.0.days_from_ce <= last.days_from_ce {
            assert(up_to(volumes, last) =~= up_to(rest, last).push(v));
            assert(by_day(up_to(volumes, last)) =~= by_day(up_to(rest, last)).push(item));
            crate::sorting::lemma_with_key_push(by_day(up_to(rest, last)), item, key);
        } else {
            assert(up_to(volumes, last) =~= up_to(rest, last));
        }
    }
}

/// The volume of a day is among the volumes up to any later day.
proof fn lemma_volume_up_to(volumes: Seq<(Date, u64)>, date: Date, last: Date)
    requires
        date.days_from_ce <= last.days_from_ce,
    ensures
        volume_on(up_to(volumes, last), date) == volume_on(volumes, date),
    decreases volumes.len(),
{
    reveal(Seq::filter);
    if volumes.len() > 0 {
        let rest = volumes.drop_last();
        lemma_volume_up_to(rest, date, last);
        if volumes.last().0.days_from_ce <= last.days_from_ce {
            assert(up_to(volumes, last) =~= up_to(rest, last).push(volumes.last()));
            assert(up_to(volumes, last).drop_last() =~= up_to(rest, last));
        } else {
            assert(up_to(volumes, last) =~= up_to(rest, last));
        }
    }
}

/// No contracts in a whole window leave its mean at zero, and there is no ΔO/S.
pub proof fn law_zero_mean_has_no_delta(
    opvol: Seq<(Date, u64)>,
    eqvol: Seq<(Date, u64)>,
    window: int,
    r: OsSeries,
    i: int,
)
    requires
        series_of(opvol, eqvol, window, r),
        0 <= i < opvol.len(),
        forall|j: int| 0 <= j && i - window <= j < i ==> (#[trigger] r.per_day@[j]).opvol == 0,
    ensures
        r.per_day@[i].delta_os is None,
{
    let days = days_of(r);
    let os = ratios(days, eqvol);
    assert(day_of(days, eqvol, os, window, i, r.per_day@[i]));
    if window_is_warm(os, window, i) {
        let j = choose|j: int| i - window <= j < i && (#[trigger] os[j])->0.num != 0;
        assert(r.per_day@[j].opvol == 0);
        assert(days[j].1 == 0);
        assert(os[j] == ratio_of(0, volume_on(eqvol, days[j].0)));
        assert(false);
    }
}

/// No contracts on a day on which shares were traded give an O/S of zero, which
/// is a value like any other.
pub proof fn law_no_option_volume_is_a_ratio_of_zero(
    opvol: Seq<(Date, u64)>,
    eqvol: Seq<(Date, u64)>,
    window: int,
    r: OsSeries,
    i: int,
)
    requires
        series_of(opvol, eqvol, window, r),
        0 <= i < opvol.len(),
        r.per_day@[i].opvol == 0,
        r.per_day@[i].eqvol_shares is Some,
        r.per_day@[i].eqvol_shares->0 > 0,
    ensures
        r.per_day@[i].os_ratio is Some,
        r.per_day@[i].os_ratio->0.valid(),
        r.per_day@[i].os_ratio->0.num == 0,
{
    let days = days_of(r);
    assert(day_of(days, eqvol, ratios(days, eqvol), window, i, r.per_day@[i]));
    assert(days[i].1 == 0);
}

/// Without equity volumes there is no O/S at all, and no ΔO/S; the days are
/// still there.
pub proof fn law_no_equity_volume_no_ratio(
    opvol: Seq<(Date, u64)>,
    eqvol: Seq<(Date, u64)>,
    window: int,
    r: OsSeries,
)
    requires
        series_of(opvol, eqvol, window, r),
        forall|j: int| 0 <= j < eqvol.len() ==> (#[trigger] eqvol[j]).1 == 0,
    ensures
        r.per_day@.len() == opvol.len(),
        r.os_n_finite == 0,
        r.os_min is None && r.os_max is None,
        r.delta_n_finite == 0,
        forall|k: int|
            0 <= k < opvol.len() ==> (#[trigger] r.per_day@[k]).os_ratio is None
                && r.per_day@[k].delta_os is None,
{
    let days = days_of(r);
    let os = ratios(days, eqvol);
    assert forall|k: int| 0 <= k < os.len() implies (#[trigger] os[k]) is None by {
        lemma_all_zero(eqvol, days[k].0);
    }
    lemma_count_none(os, window, os.len() as int);
    assert forall|k: int| 0 <= k < opvol.len() implies (#[trigger] r.per_day@[k]).os_ratio is None
        && r.per_day@[k].delta_os is None by {
        assert(day_of(days, eqvol, os, window, k, r.per_day@[k]));
    }
}

/// Where all volumes are zero, no day has another.
proof fn lemma_all_zero(volumes: Seq<(Date, u64)>, date: Date)
    requires
        forall|j: int| 0 <= j < volumes.len() ==> (#[trigger] volumes[j]).1 == 0,
    ensures
        volume_on(volumes, date) is None || volume_on(volumes, date) == Some(0u64),
    decreases volumes.len(),
{
    if volumes.len() > 0 {
        assert(volumes[volumes.len() - 1].1 == 0);
        lemma_all_zero(volumes.drop_last(), date);
    }
}

/// Where there is no ratio, none is counted.
proof fn lemma_count_none(os: Seq<Option<Fraction>>, window: int, n: int)
    requires
        n <= os.len(),
        forall|k: int| 0 <= k < os.len() ==> (#[trigger] os[k]) is None,
    ensures
        count_some(os, n) == 0,
        count_deltas(os, window, n) == 0,
    decreases n,
{
    if n > 0 {
        assert(os[n - 1] is None);
        lemma_count_none(os, window, n - 1);
    }
}

/// The order in which the days are given does not matter, neither of the option
/// volumes nor of the equity volumes, if each day is given once in either: the
/// series has the same days in the same order, each with the same volumes, O/S
/// and ΔO/S, and its counts and extremes are the same.
pub proof fn law_order_of_days_does_not_matter(
    a: Seq<(Date, u64)>,
    b: Seq<(Date, u64)>,
    eqvol_a: Seq<(Date, u64)>,
    eqvol_b: Seq<(Date, u64)>,
    window: int,
    x: OsSeries,
    y: OsSeries,
)
    requires
        a.to_multiset() == b.to_multiset(),
        forall|i: int, j: int|
            0 <= i < j < a.len() ==> (#[trigger] a[i]).0 != (#[trigger] a[j]).0,
        eqvol_a.to_multiset() == eqvol_b.to_multiset(),
        forall|i: int, j: int|
            0 <= i < j < eqvol_a.len() ==> (#[trigger] eqvol_a[i]).0 != (#[trigger] eqvol_a[j]).0,
        series_of(a, eqvol_a, window, x),
        series_of(b, eqvol_b, window, y),
    ensures
        days_of(x) == days_of(y),
        x.n_join_miss == y.n_join_miss,
        x.os_n_finite == y.os_n_finite,
        x.delta_n_finite == y.delta_n_finite,
        x.n_warmup_null == y.n_warmup_null,
        forall|k: int|
            0 <= k < days_of(x).len() ==> {
                let (p, q) = (#[trigger] x.per_day@[k], y.per_day@[k]);
                &&& p.eqvol_shares == q.eqvol_shares
                &&& p.eqvol_round_lots == q.eqvol_round_lots
                &&& p.os_ratio == q.os_ratio
                &&& same_delta(p.delta_os, q.delta_os)
            },
        x.os_min == y.os_min,
        x.os_max == y.os_max,
{
    broadcast use vstd::seq_lib::group_to_multiset_ensures;

    let (ka, kb) = (by_day(a), by_day(b));
    lemma_multiset_map(a, b);
    assert forall|i: int, j: int| 0 <= i < j < ka.len() implies (#[trigger] ka[i]).0 != (
    #[trigger] ka[j]).0 by {
        assert(a[i].0 != a[j].0);
    }
    crate::sorting::law_order_of_distinct_keys_does_not_matter(
        ka,
        kb,
        by_day(days_of(x)),
        by_day(days_of(y)),
    );
    lemma_by_day_injective(days_of(x), days_of(y));
    let os = ratios(days_of(x), eqvol_a);
    assert forall|date: Date| #[trigger]
        volume_on(eqvol_a, date) == volume_on(eqvol_b, date) by {
        lemma_volume_in_any_order(eqvol_a, eqvol_b, date);
    }
    assert(os =~= ratios(days_of(y), eqvol_b));
    lemma_missing_in_any_order(days_of(x), eqvol_a, eqvol_b, days_of(x).len() as int);
    assert forall|k: int| 0 <= k < days_of(x).len() implies {
        let (p, q) = (#[trigger] x.per_day@[k], y.per_day@[k]);
        &&& p.eqvol_shares == q.eqvol_shares
        &&& p.eqvol_round_lots == q.eqvol_round_lots
        &&& p.os_ratio == q.os_ratio
        &&& same_delta(p.delta_os, q.delta_os)
    } by {
        assert(day_of(days_of(x), eqvol_a, os, window, k, x.per_day@[k]));
        assert(day_of(days_of(y), eqvol_b, os, window, k, y.per_day@[k]));
    }
    lemma_extremes_are_unique(os, os.len() as int, x.os_min, y.os_min, x.os_max, y.os_max);
}

/// There is one least and one greatest of values.
proof fn lemma_extremes_are_unique(
    os: Seq<Option<Fraction>>,
    n: int,
    least: Option<Fraction>,
    other_least: Option<Fraction>,
    greatest: Option<Fraction>,
    other_greatest: Option<Fraction>,
)
    requires
        is_least(os, n, least),
        is_least(os, n, other_least),
        is_greatest(os, n, greatest),
        is_greatest(os, n, other_greatest),
    ensures
        least == other_least,
        greatest == other_greatest,
{
    if least is Some {
        let i = choose|i: int| 0 <= i < n && os[i] == least && #[trigger] first_below(os, i);
        let j = choose|j: int| 0 <= j < n && os[j] == other_least && #[trigger] first_below(os, j);
        assert(!os[i]->0.lt(other_least->0) && !os[j]->0.lt(least->0));
        let k = choose|k: int| 0 <= k < n && os[k] == greatest && #[trigger] first_above(os, k);
        let l = choose|l: int|
            0 <= l < n && os[l] == other_greatest && #[trigger] first_above(os, l);
        assert(!other_greatest->0.lt(os[k]->0) && !greatest->0.lt(os[l]->0));
        assert(i == j && k == l);
    }
}

/// As many days lack an equity volume where the volumes are the same.
proof fn lemma_missing_in_any_order(
    days: Seq<(Date, u64)>,
    p: Seq<(Date, u64)>,
    q: Seq<(Date, u64)>,
    n: int,
)
    requires
        forall|date: Date| #[trigger] volume_on(p, date) == volume_on(q, date),
    ensures
        count_missing(days, p, n) == count_missing(days, q, n),
    decreases n,
{
    if n > 0 {
        lemma_missing_in_any_order(days, p, q, n - 1);
        assert(volume_on(p, days[n - 1].0) == volume_on(q, days[n - 1].0));
    }
}

/// Where each day is given once, a day has the volume that it is given with.
proof fn lemma_volume_is_given(volumes: Seq<(Date, u64)>, date: Date)
    requires
        forall|i: int, j: int|
            0 <= i < j < volumes.len() ==> (#[trigger] volumes[i]).0 != (#[trigger] volumes[j]).0,
    ensures
        forall|volume: u64| #[trigger]
            volumes.contains((date, volume)) <==> volume_on(volumes, date) == Some(volume),
    decreases volumes.len(),
{
    if volumes.len() > 0 {
        let rest = volumes.drop_last();
        let last = volumes.last();
        assert forall|i: int, j: int| 0 <= i < j < rest.len() implies (#[trigger] rest[i]).0 != (
        #[trigger] rest[j]).0 by {
            assert(volumes[i].0 != volumes[j].0);
        }
        lemma_volume_is_given(rest, date);
        assert forall|volume: u64| #[trigger]
            volumes.contains((date, volume)) <==> volume_on(volumes, date) == Some(volume) by {
            if volumes.contains((date, volume)) {
                let k = choose|k: int| 0 <= k < volumes.len() && volumes[k] == (date, volume);
                if k < volumes.len() - 1 {
                    assert(volumes[k].0 != volumes[volumes.len() - 1].0);
                    assert(rest[k] == (date, volume));
                    assert(rest.contains((date, volume)));
                }
            }
            if volume_on(volumes, date) == Some(volume) {
                if last.0 == date {
                    assert(volumes[volumes.len() - 1] == (date, volume));
                } else {
                    assert(rest.contains((date, volume)));
                    let k = choose|k: int| 0 <= k < rest.len() && rest[k] == (date, volume);
                    assert(volumes[k] == (date, volume));
                }
            }
        }
    }
}

/// Volumes that are the same up to order are the same day by day, if each day
/// is given once.
proof fn lemma_volume_in_any_order(a: Seq<(Date, u64)>, b: Seq<(Date, u64)>, date: Date)
    requires
        a.to_multiset() == b.to_multiset(),
        forall|i: int, j: int|
            0 <= i < j < a.len() ==> (#[trigger] a[i]).0 != (#[trigger] a[j]).0,
    ensures
        volume_on(a, date) == volume_on(b, date),
{
    assert forall|i: int, j: int| 0 <= i < j < b.len() implies (#[trigger] b[i]).0 != (
    #[trigger] b[j]).0 by {
        lemma_distinct_in_any_order(a, b, i, j);
    }
    lemma_volume_is_given(a, date);
    lemma_volume_is_given(b, date);
    match volume_on(a, date) {
        Some(volume) => {
            assert(a.contains((date, volume)));
            vstd::seq_lib::to_multiset_contains(a, (date, volume));
            vstd::seq_lib::to_multiset_contains(b, (date, volume));
            assert(b.contains((date, volume)));
        },
        None => {
            if let Some(volume) = volume_on(b, date) {
                assert(b.contains((date, volume)));
                vstd::seq_lib::to_multiset_contains(a, (date, volume));
                vstd::seq_lib::to_multiset_contains(b, (date, volume));
                assert(a.contains((date, volume)));
            }
        },
    }
}

/// Days that are distinct in one order are so in any other.
proof fn lemma_distinct_in_any_order(a: Seq<(Date, u64)>, b: Seq<(Date, u64)>, i: int, j: int)
    requires
        a.to_multiset() == b.to_multiset(),
        forall|k: int, l: int|
            0 <= k < l < a.len() ==> (#[trigger] a[k]).0 != (#[trigger] a[l]).0,
        0 <= i < j < b.len(),
    ensures
        b[i].0 != b[j].0,
{
    broadcast use vstd::seq_lib::group_to_multiset_ensures;

    if b[i].0 == b[j].0 {
        assert(b.to_multiset().contains(b[i]) && b.to_multiset().contains(b[j]));
        assert(a.contains(b[i]) && a.contains(b[j]));
        let k = choose|k: int| 0 <= k < a.len() && a[k] == b[i];
        let l = choose|l: int| 0 <= l < a.len() && a[l] == b[j];
        assert(k == l);
        assert(b[i] == b[j]);
        let x = b[i];
        let rest = a.remove(k);
        assert(rest.to_multiset() =~= a.to_multiset().remove(x));
        assert(b.remove(j).to_multiset() =~= b.to_multiset().remove(x));
        assert(b.remove(j)[i] == x);
        assert(b.remove(j).contains(x));
        assert(rest.to_multiset().contains(x));
        assert(rest.contains(x));
        let m = choose|m: int| 0 <= m < rest.len() && rest[m] == x;
        let n = if m < k {
            m
        } else {
            m + 1
        };
        assert(a[n] == x && n != k);
    }
}

/// Volumes are the same if they are so under the numbers of their days.
proof fn lemma_by_day_injective(a: Seq<(Date, u64)>, b: Seq<(Date, u64)>)
    requires
        by_day(a) == by_day(b),
    ensures
        a == b,
{
    assert(by_day(a).len() == a.len() && by_day(b).len() == b.len());
    assert forall|k: int| 0 <= k < a.len() implies a[k] == b[k] by {
        assert(by_day(a)[k].1 == a[k]);
        assert(by_day(b)[k].1 == b[k]);
    }
    assert(a =~= b);
}

/// Volumes that are the same up to order are so under the numbers of their
/// days.
proof fn lemma_multiset_map(a: Seq<(Date, u64)>, b: Seq<(Date, u64)>)
    requires
        a.to_multiset() == b.to_multiset(),
    ensures
        by_day(a).to_multiset() == by_day(b).to_multiset(),
    decreases a.len(),
{
    broadcast use vstd::seq_lib::group_to_multiset_ensures;

    if a.len() == 0 {
        assert(b.len() == 0) by {
            vstd::seq_lib::to_multiset_len(a);
            vstd::seq_lib::to_multiset_len(b);
        }
        assert(by_day(a) =~= by_day(b));
    } else {
        let x = a.last();
        let a0 = a.drop_last();
        assert(a =~= a0.push(x));
        assert(b.to_multiset().contains(x));
        assert(b.contains(x));
        let j = choose|j: int| 0 <= j < b.len() && b[j] == x;
        let b0 = b.remove(j);
        assert(b0.to_multiset() =~= b.to_multiset().remove(x));
        assert(a0.to_multiset() =~= a.to_multiset().remove(x)) by {
            assert(a.to_multiset() =~= a0.to_multiset().insert(x));
        }
        lemma_multiset_map(a0, b0);
        assert(by_day(a) =~= by_day(a0).push(by_day(a).last()));
        assert(by_day(b0) =~= by_day(b).remove(j));
        assert(by_day(a).to_multiset() =~= by_day(a0).to_multiset().insert(by_day(a).last()));
        assert(by_day(b).to_multiset() =~= by_day(b0).to_multiset().insert(by_day(b)[j])) by {
            assert(by_day(b).remove(j).to_multiset() =~= by_day(b).to_multiset().remove(
                by_day(b)[j],
            ));
            assert(by_day(b).contains(by_day(b)[j]));
        }
    }
}

/// A deviation is of its own day against the days just before it. Where day `i`
/// of a series has one, the window is not empty and reaches back to no day
/// before the first; the deviation's ratio is the O/S of day `i`; its window
/// holds the O/S of the `window` days before day `i`, in order; and one of those
/// is not zero. Where day `i` has none, it has no O/S itself, or the window is
/// empty or reaches back too far, or a day of the window has no O/S, or all of
/// the window is zero.
pub proof fn law_deviation_is_from_the_days_before(
    opvol: Seq<(Date, u64)>,
    eqvol: Seq<(Date, u64)>,
    window: int,
    r: OsSeries,
    i: int,
)
    requires
        series_of(opvol, eqvol, window, r),
        0 <= i < r.per_day@.len(),
    ensures
        r.per_day@[i].delta_os matches Some(delta) ==> {
            &&& 0 < window <= i
            &&& r.per_day@[i].os_ratio == Some(delta.current)
            &&& delta.prior@.len() == window
            &&& forall|j: int|
                0 <= j < window ==> r.per_day@[i - window + j].os_ratio == Some(
                    #[trigger] delta.prior@[j],
                )
            &&& exists|j: int| 0 <= j < window && (#[trigger] delta.prior@[j]).num != 0
        },
        r.per_day@[i].delta_os is None ==> {
            ||| window <= 0 || i < window
            ||| r.per_day@[i].os_ratio is None
            ||| exists|k: int| i - window <= k < i && (#[trigger] r.per_day@[k]).os_ratio is None
            ||| forall|k: int|
                i - window <= k < i ==> ((#[trigger] r.per_day@[k]).os_ratio matches Some(ratio)
                    && ratio.num == 0)
        },
{
    let days = days_of(r);
    let os = ratios(days, eqvol);
    assert(day_of(days, eqvol, os, window, i, r.per_day@[i]));
    assert forall|k: int| 0 <= k < days.len() implies (#[trigger] r.per_day@[k]).os_ratio
        == os[k] by {
        assert(day_of(days, eqvol, os, window, k, r.per_day@[k]));
    }
    match r.per_day@[i].delta_os {
        Some(delta) => {
            assert forall|j: int| 0 <= j < window implies r.per_day@[i - window + j].os_ratio
                == Some(#[trigger] delta.prior@[j]) by {
                assert(os[i - window + j] is Some);
                assert(delta@.prior[j] == os[i - window + j]->0);
            }
            let k = choose|k: int| i - window <= k < i && (#[trigger] os[k])->0.num != 0;
            assert(delta@.prior[k - (i - window)] == os[k]->0);
            assert(delta.prior@[k - (i - window)].num != 0);
        },
        None => {
            if 0 < window <= i && os[i] is Some && !(exists|k: int|
                i - window <= k < i && (#[trigger] r.per_day@[k]).os_ratio is None) {
                assert forall|k: int| i - window <= k < i implies (#[trigger] os[k]) is Some by {
                    assert(r.per_day@[k].os_ratio == os[k]);
                }
                assert forall|k: int| i - window <= k < i implies ((
                #[trigger] r.per_day@[k]).os_ratio matches Some(ratio) && ratio.num == 0) by {
                    assert(os[k] is Some);
                }
            }
        },
    }
}

/// The days of a series by the volumes that were given. They are the days of the
/// option volumes, as often as given, in order of date. A day's shares are those
/// of the last equity volume that is given for it, and unknown where none is;
/// its round lots are a hundredth of them. Where shares were traded its O/S is
/// the contracts over the round lots, that is a hundred times the contracts over
/// the shares; where none were, or it is not known, there is none.
pub proof fn law_days_by_the_volumes(
    opvol: Seq<(Date, u64)>,
    eqvol: Seq<(Date, u64)>,
    window: int,
    r: OsSeries,
    i: int,
)
    requires
        series_of(opvol, eqvol, window, r),
        0 <= i < r.per_day@.len(),
    ensures
        r.per_day@.map_values(|day: OsDay| (day.date, day.opvol)).to_multiset()
            == opvol.to_multiset(),
        forall|j: int|
            0 <= j <= i ==> (#[trigger] r.per_day@[j]).date.days_from_ce
                <= r.per_day@[i].date.days_from_ce,
        ({
            let day = r.per_day@[i];
            &&& day.eqvol_shares matches Some(shares) ==> {
                &&& exists|k: int|
                    0 <= k < eqvol.len() && #[trigger] eqvol[k] == (day.date, shares) && forall|
                        l: int,
                    |
                        k < l < eqvol.len() ==> (#[trigger] eqvol[l]).0 != day.date
                &&& day.eqvol_round_lots is Some
                &&& day.eqvol_round_lots->0.is_quotient(shares as int, 100)
                &&& shares > 0 <==> day.os_ratio is Some
                &&& shares > 0 ==> day.os_ratio->0.is_quotient(day.opvol * 100, shares as int)
            }
            &&& day.eqvol_shares is None ==> {
                &&& forall|k: int| 0 <= k < eqvol.len() ==> (#[trigger] eqvol[k]).0 != day.date
                &&& day.eqvol_round_lots is None
                &&& day.os_ratio is None
            }
        }),
{
    let days = days_of(r);
    let os = ratios(days, eqvol);
    assert(day_of(days, eqvol, os, window, i, r.per_day@[i]));
    lemma_last_volume(eqvol, r.per_day@[i].date);
    lemma_multiset_of_days(opvol, days);
    assert forall|j: int| 0 <= j <= i implies (#[trigger] r.per_day@[j]).date.days_from_ce
        <= r.per_day@[i].date.days_from_ce by {
        assert(by_day(days)[j].0 == days[j].0.days_from_ce);
        assert(by_day(days)[i].0 == days[i].0.days_from_ce);
        assert(by_day(days)[j].0 <= by_day(days)[i].0);
    }
}

/// The volume of a day is that of its last entry.
proof fn lemma_last_volume(volumes: Seq<(Date, u64)>, date: Date)
    ensures
        volume_on(volumes, date) matches Some(volume) ==> exists|k: int|
            0 <= k < volumes.len() && #[trigger] volumes[k] == (date, volume) && forall|l: int|
                k < l < volumes.len() ==> (#[trigger] volumes[l]).0 != date,
        volume_on(volumes, date) is None ==> forall|k: int|
            0 <= k < volumes.len() ==> (#[trigger] volumes[k]).0 != date,
    decreases volumes.len(),
{
    if volumes.len() > 0 {
        let rest = volumes.drop_last();
        lemma_last_volume(rest, date);
        assert forall|k: int| 0 <= k < rest.len() implies rest[k] == #[trigger] volumes[k] by {}
        if volumes.last().0 == date {
            assert(volumes[volumes.len() - 1] == (date, volumes.last().1));
        } else if let Some(volume) = volume_on(volumes, date) {
            let k = choose|k: int|
                0 <= k < rest.len() && #[trigger] rest[k] == (date, volume) && forall|l: int|
                    k < l < rest.len() ==> (#[trigger] rest[l]).0 != date;
            assert(volumes[k] == (date, volume));
            assert forall|l: int| k < l < volumes.len() implies (#[trigger] volumes[l]).0
                != date by {
                if l < rest.len() {
                    assert(rest[l].0 != date);
                }
            }
        } else {
            assert forall|k: int| 0 <= k < volumes.len() implies (#[trigger] volumes[k]).0
                != date by {
                if k < rest.len() {
                    assert(rest[k].0 != date);
                }
            }
        }
    }
}

/// Volumes that are the same up to order under the numbers of their days are so
/// themselves.
proof fn lemma_multiset_of_days(a: Seq<(Date, u64)>, b: Seq<(Date, u64)>)
    requires
        by_day(a).to_multiset() == by_day(b).to_multiset(),
    ensures
        a.to_multiset() == b.to_multiset(),
    decreases a.len(),
{
    broadcast use vstd::seq_lib::group_to_multiset_ensures;

    assert(by_day(a).len() == by_day(b).len()) by {
        vstd::seq_lib::to_multiset_len(by_day(a));
        vstd::seq_lib::to_multiset_len(by_day(b));
    }
    if a.len() == 0 {
        assert(a =~= b);
    } else {
        let x = a.last();
        let a0 = a.drop_last();
        let kx = by_day(a).last();
        assert(by_day(b).to_multiset().contains(kx));
        assert(by_day(b).contains(kx));
        let j = choose|j: int| 0 <= j < by_day(b).len() && by_day(b)[j] == kx;
        assert(b[j] == x);
        let b0 = b.remove(j);
        assert(by_day(b0) =~= by_day(b).remove(j));
        assert(by_day(a) =~= by_day(a0).push(kx));
        assert(by_day(a).to_multiset() =~= by_day(a0).to_multiset().insert(kx));
        assert(by_day(b0).to_multiset() =~= by_day(b).to_multiset().remove(kx));
        assert(by_day(a0).to_multiset() =~= by_day(b0).to_multiset());
        lemma_multiset_of_days(a0, b0);
        assert(a =~= a0.push(x));
        assert(a.to_multiset() =~= a0.to_multiset().insert(x));
        assert(b0.to_multiset() =~= b.to_multiset().remove(x));
        assert(b.to_multiset() =~= b0.to_multiset().insert(x));
    }
}

/// The counts and extremes of a series by its days. As many days are missed,
/// have an O/S and have a deviation as there are such days; the days before the
/// window is warm are as many as the window is long, or all of them. The least
/// and the greatest O/S are there exactly where a day has one; each is the O/S of
/// some day, and no day has a lesser or a greater one.
pub proof fn law_summary_by_the_days(
    opvol: Seq<(Date, u64)>,
    eqvol: Seq<(Date, u64)>,
    window: int,
    r: OsSeries,
)
    requires
        series_of(opvol, eqvol, window, r),
    ensures
        r.n_join_miss == r.per_day@.filter(|day: OsDay| day.eqvol_shares is None).len(),
        r.os_n_finite == r.per_day@.filter(|day: OsDay| day.os_ratio is Some).len(),
        r.delta_n_finite == r.per_day@.filter(|day: OsDay| day.delta_os is Some).len(),
        r.n_warmup_null <= window && r.n_warmup_null <= opvol.len(),
        r.n_warmup_null == window || r.n_warmup_null == opvol.len(),
        forall|i: int|
            0 <= i < r.per_day@.len() ==> ((#[trigger] r.per_day@[i]).os_ratio matches Some(ratio)
                ==> {
                &&& r.os_min is Some && r.os_max is Some
                &&& r.os_min->0.num * ratio.den <= ratio.num * r.os_min->0.den
                &&& ratio.num * r.os_max->0.den <= r.os_max->0.num * ratio.den
            }),
        r.os_min is Some ==> exists|i: int|
            0 <= i < r.per_day@.len() && (#[trigger] r.per_day@[i]).os_ratio == r.os_min,
        r.os_max is Some ==> exists|i: int|
            0 <= i < r.per_day@.len() && (#[trigger] r.per_day@[i]).os_ratio == r.os_max,
{
    let days = days_of(r);
    let os = ratios(days, eqvol);
    let n = days.len() as int;
    assert forall|k: int| 0 <= k < n implies (#[trigger] r.per_day@[k]).os_ratio == os[k] by {
        assert(day_of(days, eqvol, os, window, k, r.per_day@[k]));
    }
    lemma_counts_by_the_days(opvol, eqvol, window, r, n);
    assert(r.per_day@.take(n) =~= r.per_day@);
    if r.os_min is Some {
        let i = choose|i: int| 0 <= i < n && os[i] == r.os_min && #[trigger] first_below(os, i);
        assert(r.per_day@[i].os_ratio == r.os_min);
    }
    if r.os_max is Some {
        let i = choose|i: int| 0 <= i < n && os[i] == r.os_max && #[trigger] first_above(os, i);
        assert(r.per_day@[i].os_ratio == r.os_max);
    }
    assert forall|i: int| 0 <= i < n implies ((#[trigger] r.per_day@[i]).os_ratio matches Some(
        ratio,
    ) ==> {
        &&& r.os_min is Some && r.os_max is Some
        &&& r.os_min->0.num * ratio.den <= ratio.num * r.os_min->0.den
        &&& ratio.num * r.os_max->0.den <= r.os_max->0.num * ratio.den
    }) by {
        assert(r.per_day@[i].os_ratio == os[i]);
        if os[i] is Some {
            assert(!os[i]->0.lt(r.os_min->0));
            assert(!r.os_max->0.lt(os[i]->0));
        }
    }
}

/// The counts over the first `n` days.
proof fn lemma_counts_by_the_days(
    opvol: Seq<(Date, u64)>,
    eqvol: Seq<(Date, u64)>,
    window: int,
    r: OsSeries,
    n: int,
)
    requires
        series_of(opvol, eqvol, window, r),
        0 <= n <= r.per_day@.len(),
    ensures
        ({
            let os = ratios(days_of(r), eqvol);
            let first = r.per_day@.take(n);
            &&& count_missing(days_of(r), eqvol, n) == first.filter(
                |day: OsDay| day.eqvol_shares is None,
            ).len()
            &&& count_some(os, n) == first.filter(|day: OsDay| day.os_ratio is Some).len()
            &&& count_deltas(os, window, n) == first.filter(
                |day: OsDay| day.delta_os is Some,
            ).len()
        }),
    decreases n,
{
    reveal(Seq::filter);
    let first = r.per_day@.take(n);
    if n > 0 {
        lemma_counts_by_the_days(opvol, eqvol, window, r, n - 1);
        assert(first.drop_last() =~= r.per_day@.take(n - 1));
        let days = days_of(r);
        assert(day_of(
            days,
            eqvol,
            ratios(days, eqvol),
            window,
            n - 1,
            r.per_day@[n - 1],
        ));
    }
}

} // verus!
