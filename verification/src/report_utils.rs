//! Shared report utilities: DTE bucketing, moneyness indexing, and the
//! selection of the minutes of an intraday curve that are reported.

use crate::options_math::moneyness::Moneyness;
use vstd::prelude::*;

verus! {

/// DTE bucket labels.
pub const DTE_LABELS: [&'static str; 4] = ["0dte", "1dte", "2_7dte", "other"];

/// Moneyness labels.
pub const MONEYNESS_LABELS: [&'static str; 5] = ["deep_itm", "itm", "atm", "otm", "deep_otm"];

/// The bucket of a number of days to expiry.
pub open spec fn bucket_of(dte: int) -> int {
    if dte == 0 {
        0
    } else if dte == 1 {
        1
    } else if 2 <= dte <= 7 {
        2
    } else {
        3
    }
}

/// The place of a moneyness class in the order of `MONEYNESS_LABELS`.
pub open spec fn index_of(m: Moneyness) -> int {
    match m {
        Moneyness::DeepItm => 0,
        Moneyness::Itm => 1,
        Moneyness::Atm => 2,
        Moneyness::Otm => 3,
        Moneyness::DeepOtm => 4,
    }
}

/// Map a DTE value to a bucket index (0-3).
///
/// | DTE | Bucket | Label |
/// |-----|--------|-------|
/// | 0 | 0 | 0dte |
/// | 1 | 1 | 1dte |
/// | 2-7 | 2 | 2_7dte |
/// | 8+ | 3 | other |
pub fn dte_bucket_index(dte: i64) -> (r: usize)
    ensures
        r == bucket_of(dte as int),
        r < 4,
{
    match dte {
        0 => 0,
        1 => 1,
        2..=7 => 2,
        _ => 3,
    }
}

/// Map a `Moneyness` classification to an index (0-4).
pub fn moneyness_index(m: Moneyness) -> (r: usize)
    ensures
        r == index_of(m),
        r < 5,
{
    match m {
        Moneyness::DeepItm => 0,
        Moneyness::Itm => 1,
        Moneyness::Atm => 2,
        Moneyness::Otm => 3,
        Moneyness::DeepOtm => 4,
    }
}

/// The minutes of an intraday curve that are reported: those that have values,
/// in order. `counts` are the numbers of values of the minutes.
pub fn finalize_curve(counts: &Vec<u64>) -> (r: Vec<usize>)
    ensures
        forall|i: int, j: int| 0 <= i < j < r@.len() ==> (#[trigger] r@[i]) < (#[trigger] r@[j]),
        forall|i: int|
            0 <= i < r@.len() ==> (#[trigger] r@[i]) < counts@.len() && counts@[r@[i] as int] > 0,
        forall|m: int|
            0 <= m < counts@.len() && (#[trigger] counts@[m]) > 0 ==> r@.contains(m as usize),
{
    let mut r: Vec<usize> = Vec::new();
    let mut m: usize = 0;
    while m < counts.len()
        invariant
            m <= counts@.len(),
            forall|i: int, j: int|
                0 <= i < j < r@.len() ==> (#[trigger] r@[i]) < (#[trigger] r@[j]),
            forall|i: int| 0 <= i < r@.len() ==> (#[trigger] r@[i]) < m && counts@[r@[i] as int] > 0,
            forall|k: int| 0 <= k < m && (#[trigger] counts@[k]) > 0 ==> r@.contains(k as usize),
        decreases counts@.len() - m,
    {
        let ghost before = r@;
        if counts[m] > 0 {
            r.push(m);
            proof {
                assert(r@[before.len() as int] == m);
                assert forall|k: usize| before.contains(k) implies r@.contains(k) by {
                    let i = choose|i: int| 0 <= i < before.len() && before[i] == k;
                    assert(r@[i] == k);
                }
            }
        }
        m = m + 1;
    }
    r
}

/// The buckets of days to expiry: today, tomorrow, two to seven days, and the
/// others, the days that have passed among them.
pub proof fn law_buckets_of_days(dte: int)
    ensures
        bucket_of(dte) == 0 <==> dte == 0,
        bucket_of(dte) == 1 <==> dte == 1,
        bucket_of(dte) == 2 <==> 2 <= dte <= 7,
        bucket_of(dte) == 3 <==> dte < 0 || dte > 7,
{
}

/// The classes are numbered from deep in the money to deep out of it.
pub proof fn law_classes_are_numbered(m: Moneyness)
    ensures
        index_of(m) == 0 <==> m == Moneyness::DeepItm,
        index_of(m) == 1 <==> m == Moneyness::Itm,
        index_of(m) == 2 <==> m == Moneyness::Atm,
        index_of(m) == 3 <==> m == Moneyness::Otm,
        index_of(m) == 4 <==> m == Moneyness::DeepOtm,
{
}

/// The label at the index of a class is the label of the class.
pub proof fn law_moneyness_labels_match_indices(m: Moneyness)
    ensures
        MONEYNESS_LABELS[index_of(m)] == m.label_of(),
{
}

} // verus!
