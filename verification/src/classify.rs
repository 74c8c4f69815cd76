//! Equal-interval classification: partitioning a value range into bins of
//! equal width between the minimum and maximum observed sample.

use vstd::prelude::*;
use vstd::arithmetic::div_mod::lemma_fundamental_div_mod;
use vstd::arithmetic::div_mod::lemma_mod_bound;
use vstd::arithmetic::mul::lemma_mul_inequality;
use crate::errors::DensityError;

verus! {

/// The least element of a sequence of scalar samples.
pub open spec fn seq_min(s: Seq<i64>) -> int
    recommends
        s.len() > 0,
    decreases s.len(),
{
    if s.len() <= 1 {
        s[0] as int
    } else if s.last() < seq_min(s.drop_last()) {
        s.last() as int
    } else {
        seq_min(s.drop_last())
    }
}

/// The greatest element of a sequence of scalar samples.
pub open spec fn seq_max(s: Seq<i64>) -> int
    recommends
        s.len() > 0,
    decreases s.len(),
{
    if s.len() <= 1 {
        s[0] as int
    } else if s.last() > seq_max(s.drop_last()) {
        s.last() as int
    } else {
        seq_max(s.drop_last())
    }
}

/// Width of one class: the observed range divided (rounding toward zero)
/// by the number of classes.
pub open spec fn spec_interval(s: Seq<i64>, nb_class: int) -> int
    recommends
        s.len() > 0,
        nb_class > 0,
{
    (seq_max(s) - seq_min(s)) / nb_class
}

/// Stepping at most `nb` times by the class width never leaves the range.
proof fn lemma_steps_stay_in_range(k: int, nb: int, range: int)
    requires
        0 <= k <= nb,
        0 < nb,
        0 <= range,
    ensures
        0 <= k * (range / nb) <= range,
{
    lemma_mod_bound(range, nb);
    lemma_fundamental_div_mod(range, nb);
    lemma_mul_inequality(k, nb, range / nb);
    lemma_mul_inequality(0, k, range / nb);
    assert(nb * (range / nb) == (range / nb) * nb) by (nonlinear_arith);
}

/// Equal-interval class breaks over a non-empty collection of scalar
/// samples. Returns `nb_class + 1` breakpoints: the first is the minimum of
/// `values`, each later one is one class width above the one before, and the
/// last is overwritten with the exact maximum so that no rounding drift
/// accumulated over `nb_class` additions survives in the upper bound.
///
/// The breaks are non-decreasing, begin exactly at the minimum and end
/// exactly at the maximum of the classified values.
pub fn equal_interval(values: &Vec<i64>, nb_class: u32) -> (r: Result<Vec<i64>, DensityError>)
    ensures
        nb_class == 0 ==> r == Err::<Vec<i64>, DensityError>(DensityError::InvalidParameter),
        nb_class >= 1 && values@.len() == 0 ==> r == Err::<Vec<i64>, DensityError>(
            DensityError::EmptyInput,
        ),
        nb_class >= 1 && values@.len() > 0 ==> {
            &&& r is Ok
            &&& r->Ok_0@.len() == nb_class + 1
            &&& r->Ok_0@[0] == seq_min(values@)
            &&& r->Ok_0@[nb_class as int] == seq_max(values@)
            &&& forall|k: int|
                0 <= k < nb_class ==> r->Ok_0@[k] == seq_min(values@) + k * spec_interval(
                    values@,
                    nb_class as int,
                )
            &&& forall|k: int| 0 <= k < nb_class ==> #[trigger] r->Ok_0@[k] <= r->Ok_0@[k + 1]
        },
{
    if nb_class == 0 {
        return Err(DensityError::InvalidParameter);
    }
    if values.len() == 0 {
        return Err(DensityError::EmptyInput);
    }
    let mut mn: i64 = values[0];
    let mut mx: i64 = values[0];
    let mut idx: usize = 1;
    while idx < values.len()
        invariant
            1 <= idx <= values@.len(),
            mn as int == seq_min(values@.take(idx as int)),
            mx as int == seq_max(values@.take(idx as int)),
            mn <= mx,
        decreases values@.len() - idx,
    {
        let v: i64 = values[idx];
        proof {
            assert(values@.take(idx + 1).drop_last() =~= values@.take(idx as int));
            assert(values@.take(idx + 1).last() == values@[idx as int]);
        }
        if v < mn {
            mn = v;
        }
        if v > mx {
            mx = v;
        }
        idx = idx + 1;
    }
    proof {
        assert(values@.take(values@.len() as int) =~= values@);
    }
    let range: u64 = (mx as i128 - mn as i128) as u64;
    let interval: u64 = range / (nb_class as u64);
    let ghost gap: int = spec_interval(values@, nb_class as int);
    proof {
        assert(interval as int == gap);
    }
    let mut breaks: Vec<i64> = Vec::new();
    let mut val: i128 = mn as i128;
    let mut k: u64 = 0;
    while k < nb_class as u64 + 1
        invariant
            0 <= k <= nb_class as u64 + 1,
            nb_class >= 1,
            gap == spec_interval(values@, nb_class as int),
            interval as int == gap,
            mn as int == seq_min(values@),
            mx as int == seq_max(values@),
            mn <= mx,
            val == mn as int + k * gap,
            breaks@.len() == k,
            forall|j: int| 0 <= j < k ==> breaks@[j] == mn as int + j * gap,
            forall|j: int| 0 <= j < k - 1 ==> #[trigger] breaks@[j] <= breaks@[j + 1],
        decreases nb_class as u64 + 1 - k,
    {
        proof {
            lemma_steps_stay_in_range(k as int, nb_class as int, mx as int - mn as int);
            assert(k as int * gap == (k as int - 1) * gap + gap) by (nonlinear_arith);
            assert((k as int + 1) * gap == k as int * gap + gap) by (nonlinear_arith);
        }
        breaks.push(val as i64);
        val = val + interval as i128;
        k = k + 1;
    }
    let last: usize = nb_class as usize;
    proof {
        lemma_steps_stay_in_range(nb_class as int, nb_class as int, mx as int - mn as int);
    }
    breaks.set(last, mx);
    Ok(breaks)
}

} // verus!
