//! Rank queries over buckets: percentiles by nearest rank and the mean of
//! the samples between two percentiles.

use crate::buckets::{
    lemma_samples_below_monotone, samples, samples_below, values_rise, Bucket,
};
use vstd::prelude::*;

verus! {

/// One hundred percent, in hundredths of a percent.
pub const FULL: u32 = 10_000;

/// Fifty percent, in hundredths of a percent. Percentiles below it are
/// counted from the lowest bucket, the others from the highest.
pub const HALF: u32 = 5_000;

/// Rank of the percentile among `total` samples: the least whole number that
/// is at least `total * hundredths / 10000`.
pub open spec fn rank_at(total: nat, hundredths: nat) -> nat {
    ((total * hundredths + 9_999) / 10_000) as nat
}

/// Number of samples that have to be passed to reach the percentile: counted
/// from the lowest bucket below fifty percent, and from the highest bucket
/// otherwise. At least one sample is always asked for.
pub open spec fn rank_needed(total: nat, hundredths: nat) -> nat {
    let rank = rank_at(total, hundredths);
    let need = if hundredths < HALF {
        rank
    } else {
        (total - rank) as nat
    };
    if need == 0 {
        1
    } else {
        need
    }
}

/// Bucket `i` is the one in which the percentile lies: the count that is
/// asked for is reached in it, and not before it.
pub open spec fn is_percentile_slot(b: Seq<Bucket>, hundredths: nat, i: int) -> bool {
    let total = samples(b);
    let need = rank_needed(total, hundredths);
    &&& 0 <= i < b.len()
    &&& if hundredths < HALF {
        samples_below(b, i) < need <= samples_below(b, i + 1)
    } else {
        total - samples_below(b, i + 1) < need <= total - samples_below(b, i)
    }
}

/// The percentile of the samples in `b`: the nominal value of the bucket in
/// which it lies. It is 0 where there is no sample, and for a percentage
/// above one hundred.
pub open spec fn percentile_of(b: Seq<Bucket>, hundredths: nat) -> u64 {
    if samples(b) == 0 || hundredths > FULL {
        0
    } else {
        b[choose|i: int| is_percentile_slot(b, hundredths, i)].value
    }
}

/// The rank of a percentile is at most the number of samples.
pub proof fn lemma_rank_within_total(total: nat, hundredths: nat)
    requires
        hundredths <= FULL,
    ensures
        rank_at(total, hundredths) <= total,
        total >= 1 ==> 1 <= rank_needed(total, hundredths) <= total,
{
    assert(total * hundredths <= total * 10_000) by (nonlinear_arith)
        requires
            hundredths <= 10_000,
    ;
}

/// A percentile lies in one bucket only.
pub proof fn lemma_percentile_slot_unique(b: Seq<Bucket>, hundredths: nat, i: int, j: int)
    requires
        is_percentile_slot(b, hundredths, i),
        is_percentile_slot(b, hundredths, j),
    ensures
        i == j,
{
    if i < j {
        lemma_samples_below_monotone(b, i + 1, j);
    } else if j < i {
        lemma_samples_below_monotone(b, j + 1, i);
    }
}

/// The percentile is the value of the bucket in which it lies.
pub proof fn lemma_percentile_at(b: Seq<Bucket>, hundredths: nat, i: int)
    requires
        samples(b) > 0,
        hundredths <= FULL,
        is_percentile_slot(b, hundredths, i),
    ensures
        percentile_of(b, hundredths) == b[i].value,
{
    let j = choose|j: int| is_percentile_slot(b, hundredths, j);
    lemma_percentile_slot_unique(b, hundredths, i, j);
}

/// Place of the percentile among `total` samples in rising order, the
/// lowest at place 0.
pub open spec fn sample_place(total: nat, hundredths: nat) -> nat {
    if hundredths < HALF {
        (rank_needed(total, hundredths) - 1) as nat
    } else {
        (total - rank_needed(total, hundredths)) as nat
    }
}

/// Bucket `i` holds the sample at place `place` of the samples in rising
/// order.
pub open spec fn holds_place(b: Seq<Bucket>, place: nat, i: int) -> bool {
    0 <= i < b.len() && samples_below(b, i) <= place < samples_below(b, i + 1)
}

/// The percentile lies in the bucket that holds the sample at its place.
pub proof fn lemma_percentile_place(b: Seq<Bucket>, hundredths: nat, i: int)
    requires
        samples(b) > 0,
        hundredths <= FULL,
    ensures
        sample_place(samples(b), hundredths) < samples(b),
        is_percentile_slot(b, hundredths, i) == holds_place(
            b,
            sample_place(samples(b), hundredths),
            i,
        ),
{
    lemma_rank_within_total(samples(b), hundredths);
}

/// Among the first `n` buckets, where they hold more samples than `place`,
/// one holds the sample at that place.
pub proof fn lemma_place_is_held(b: Seq<Bucket>, place: nat, n: int) -> (i: int)
    requires
        0 <= n <= b.len(),
        place < samples_below(b, n),
    ensures
        holds_place(b, place, i),
        i < n,
    decreases n,
{
    if samples_below(b, n - 1) <= place {
        n - 1
    } else {
        lemma_place_is_held(b, place, n - 1)
    }
}

/// A later place is held by no earlier bucket.
pub proof fn lemma_places_in_order(b: Seq<Bucket>, low: nat, high: nat, i: int, j: int)
    requires
        holds_place(b, low, i),
        holds_place(b, high, j),
        low <= high,
    ensures
        i <= j,
{
    if j < i {
        lemma_samples_below_monotone(b, j + 1, i);
    }
}

/// The place of a percentile does not fall as the percentage rises.
pub proof fn lemma_sample_place_rises(total: nat, low: nat, high: nat)
    requires
        total >= 1,
        low <= high <= FULL,
    ensures
        sample_place(total, low) <= sample_place(total, high),
{
    lemma_rank_within_total(total, low);
    lemma_rank_within_total(total, high);
    assert(total * low <= total * high) by (nonlinear_arith)
        requires
            low <= high,
    ;
}

/// With samples, every percentile up to one hundred percent lies in a
/// bucket, and that bucket holds a sample.
pub proof fn lemma_percentile_lies(b: Seq<Bucket>, hundredths: nat) -> (i: int)
    requires
        samples(b) > 0,
        hundredths <= FULL,
    ensures
        is_percentile_slot(b, hundredths, i),
        percentile_of(b, hundredths) == b[i].value,
        b[i].count > 0,
{
    let place = sample_place(samples(b), hundredths);
    lemma_percentile_place(b, hundredths, 0);
    let i = lemma_place_is_held(b, place, b.len() as int);
    lemma_percentile_place(b, hundredths, i);
    lemma_percentile_at(b, hundredths, i);
    i
}

/// Where the values of the buckets never fall, a percentile is no more
/// than one at a higher percentage: from the least sample by the median to
/// the greatest.
pub proof fn lemma_percentiles_in_order(b: Seq<Bucket>, low: nat, high: nat)
    requires
        values_rise(b),
        low <= high <= FULL,
    ensures
        percentile_of(b, low) <= percentile_of(b, high),
{
    if samples(b) > 0 {
        let i = lemma_percentile_lies(b, low);
        let j = lemma_percentile_lies(b, high);
        lemma_percentile_place(b, low, i);
        lemma_percentile_place(b, high, j);
        lemma_sample_place_rises(samples(b), low, high);
        lemma_places_in_order(
            b,
            sample_place(samples(b), low),
            sample_place(samples(b), high),
            i,
            j,
        );
    }
}

/// The percentile of the samples in `buckets`, which hold `total` samples.
pub fn percentile_in(buckets: &Vec<Bucket>, total: u64, hundredths: u32) -> (value: u64)
    requires
        total == samples(buckets@),
    ensures
        value == percentile_of(buckets@, hundredths as nat),
{
    if total == 0 || hundredths > FULL {
        return 0;
    }
    let ghost b = buckets@;
    proof {
        lemma_rank_within_total(total as nat, hundredths as nat);
    }
    let product: u128 = total as u128 * hundredths as u128;
    let rank: u64 = ((product + 9_999) / 10_000) as u64;
    let from_bottom = hundredths < HALF;
    let mut need: u64 = if from_bottom {
        rank
    } else {
        total - rank
    };
    if need == 0 {
        need = 1;
    }
    let n: usize = buckets.len();
    let mut have: u64 = 0;
    if from_bottom {
        let mut i: usize = 0;
        proof {
            lemma_samples_below_monotone(b, 1, n as int);
        }
        while have + buckets[i].count < need
            invariant
                b == buckets@,
                n == b.len(),
                0 <= i < n,
                have == samples_below(b, i as int),
                have + b[i as int].count <= total,
                have < need <= total,
                total == samples(b),
            decreases n - i,
        {
            have = have + buckets[i].count;
            i = i + 1;
            proof {
                assert(have == samples_below(b, i as int));
                assert(i < n);
                lemma_samples_below_monotone(b, i + 1, n as int);
            }
        }
        proof {
            lemma_percentile_at(b, hundredths as nat, i as int);
        }
        buckets[i].value
    } else {
        let mut i: usize = n - 1;
        proof {
            lemma_samples_below_monotone(b, n - 1, n as int);
        }
        while have + buckets[i].count < need
            invariant
                b == buckets@,
                n == b.len(),
                0 <= i < n,
                have == total - samples_below(b, i + 1),
                have + b[i as int].count <= total,
                have < need <= total,
                total == samples(b),
            decreases i,
        {
            have = have + buckets[i].count;
            proof {
                assert(have == total - samples_below(b, i as int));
                assert(i > 0);
                lemma_samples_below_monotone(b, i - 1, i as int);
            }
            i = i - 1;
        }
        proof {
            lemma_percentile_at(b, hundredths as nat, i as int);
        }
        buckets[i].value
    }
}

/// Number of samples in the first `n` buckets whose value is between `lo`
/// and `hi`, both included.
pub open spec fn kept_count(b: Seq<Bucket>, lo: u64, hi: u64, n: int) -> nat
    decreases n,
{
    if n <= 0 || n > b.len() {
        0
    } else {
        kept_count(b, lo, hi, n - 1) + if lo <= b[n - 1].value <= hi {
            b[n - 1].count as nat
        } else {
            0
        }
    }
}

/// Sum of the samples in the first `n` buckets whose value is between `lo`
/// and `hi`, both included, each sample taken at the value of its bucket.
pub open spec fn kept_sum(b: Seq<Bucket>, lo: u64, hi: u64, n: int) -> nat
    decreases n,
{
    if n <= 0 || n > b.len() {
        0
    } else {
        kept_sum(b, lo, hi, n - 1) + if lo <= b[n - 1].value <= hi {
            b[n - 1].value as nat * b[n - 1].count as nat
        } else {
            0
        }
    }
}

/// A mean of the samples without the tails, and how many samples it is of.
#[derive(Clone, Copy, Debug, PartialEq, Eq, Structural)]
pub struct TruncatedMean {
    /// Mean of the samples that were kept, rounded down; 0 where none was.
    pub mean: u64,
    /// Number of samples between the two percentiles.
    pub kept: u64,
    /// Number of samples outside them.
    pub ignored: u64,
}

/// Lower bound of the truncated mean: the percentile at the threshold.
pub open spec fn lower_cut(b: Seq<Bucket>, threshold: nat) -> u64 {
    percentile_of(b, threshold)
}

/// Upper bound of the truncated mean: the percentile at one hundred percent
/// less the threshold, and 0 for a threshold above one hundred percent.
pub open spec fn upper_cut(b: Seq<Bucket>, threshold: nat) -> u64 {
    if threshold <= FULL {
        percentile_of(b, (FULL - threshold) as nat)
    } else {
        0
    }
}

/// The truncated mean of the samples in `b`: the mean of the samples whose
/// bucket value lies between the two cuts, both included.
pub open spec fn truncated_mean_of(b: Seq<Bucket>, threshold: nat) -> TruncatedMean {
    let lo = lower_cut(b, threshold);
    let hi = upper_cut(b, threshold);
    let kept = kept_count(b, lo, hi, b.len() as int);
    let sum = kept_sum(b, lo, hi, b.len() as int);
    TruncatedMean {
        mean: if kept > 0 {
            (sum / kept) as u64
        } else {
            0
        },
        kept: kept as u64,
        ignored: (samples(b) - kept) as u64,
    }
}

/// The samples that are kept are among the samples, and their sum lies
/// between the bounds times their number.
pub proof fn lemma_kept_bounds(b: Seq<Bucket>, lo: u64, hi: u64, n: int)
    requires
        0 <= n <= b.len(),
    ensures
        kept_count(b, lo, hi, n) <= samples_below(b, n),
        lo * kept_count(b, lo, hi, n) <= kept_sum(b, lo, hi, n) <= hi * kept_count(b, lo, hi, n),
    decreases n,
{
    if n > 0 {
        lemma_kept_bounds(b, lo, hi, n - 1);
        let v = b[n - 1].value as nat;
        let c = b[n - 1].count as nat;
        let k = kept_count(b, lo, hi, n - 1);
        if lo <= b[n - 1].value <= hi {
            assert(lo * (k + c) == lo * k + lo * c) by (nonlinear_arith);
            assert(hi * (k + c) == hi * k + hi * c) by (nonlinear_arith);
            assert(lo * c <= v * c <= hi * c) by (nonlinear_arith)
                requires
                    lo <= v <= hi,
            ;
        }
    }
}

/// A mean lies between the bounds of what it is the mean of.
pub proof fn lemma_mean_between(sum: nat, count: nat, lo: nat, hi: nat)
    requires
        count > 0,
        lo * count <= sum <= hi * count,
    ensures
        lo <= sum / count <= hi,
{
    assert(lo <= sum / count) by (nonlinear_arith)
        requires
            count > 0,
            lo * count <= sum,
    ;
    assert(sum / count <= hi) by (nonlinear_arith)
        requires
            count > 0,
            sum <= hi * count,
    ;
}

/// The truncated mean lies between its two cuts where any sample is kept,
/// and the samples kept and ignored are all the samples.
pub proof fn lemma_truncated_mean_between(b: Seq<Bucket>, threshold: nat)
    requires
        samples(b) <= u64::MAX,
    ensures
        truncated_mean_of(b, threshold).kept + truncated_mean_of(b, threshold).ignored == samples(
            b,
        ),
        truncated_mean_of(b, threshold).kept > 0 ==> lower_cut(b, threshold) <= truncated_mean_of(
            b,
            threshold,
        ).mean <= upper_cut(b, threshold),
{
    let lo = lower_cut(b, threshold);
    let hi = upper_cut(b, threshold);
    lemma_kept_bounds(b, lo, hi, b.len() as int);
    let kept = kept_count(b, lo, hi, b.len() as int);
    if kept > 0 {
        lemma_mean_between(kept_sum(b, lo, hi, b.len() as int), kept, lo as nat, hi as nat);
    }
}

/// A bucket among the first `n` whose value is between `lo` and `hi` has
/// its samples kept.
pub proof fn lemma_kept_holds(b: Seq<Bucket>, lo: u64, hi: u64, i: int, n: int)
    requires
        0 <= i < n <= b.len(),
        lo <= b[i].value <= hi,
    ensures
        kept_count(b, lo, hi, n) >= b[i].count,
    decreases n,
{
    if i < n - 1 {
        lemma_kept_holds(b, lo, hi, i, n - 1);
    }
}

/// The truncated mean at `threshold` lies between its two cuts and
/// between the least and the greatest sample, and with samples one of them
/// is kept.
pub open spec fn within_cuts(b: Seq<Bucket>, threshold: nat) -> bool {
    let result = truncated_mean_of(b, threshold);
    &&& lower_cut(b, threshold) <= result.mean <= upper_cut(b, threshold)
    &&& percentile_of(b, 0) <= result.mean <= percentile_of(b, FULL as nat)
    &&& samples(b) > 0 ==> result.kept > 0
}

/// Where the values of the buckets never fall, a truncated mean that
/// leaves out no more than half of the samples at each end lies between
/// its two cuts, and so between the least and the greatest sample.
pub proof fn lemma_truncated_mean_within(b: Seq<Bucket>, threshold: nat)
    requires
        values_rise(b),
        samples(b) <= u64::MAX,
        threshold <= HALF,
    ensures
        within_cuts(b, threshold),
{
    let lo = lower_cut(b, threshold);
    let hi = upper_cut(b, threshold);
    lemma_kept_bounds(b, lo, hi, b.len() as int);
    lemma_truncated_mean_between(b, threshold);
    lemma_percentiles_in_order(b, threshold, (FULL - threshold) as nat);
    lemma_percentiles_in_order(b, 0, threshold);
    lemma_percentiles_in_order(b, (FULL - threshold) as nat, FULL as nat);
    if samples(b) > 0 {
        let i = lemma_percentile_lies(b, threshold);
        lemma_kept_holds(b, lo, hi, i, b.len() as int);
    }
}

/// The truncated mean of the samples in `buckets`, which hold `total`
/// samples: the tails below the percentile at `threshold` and above the one
/// at one hundred percent less `threshold` are left out.
pub fn truncated_mean_in(buckets: &Vec<Bucket>, total: u64, threshold: u32) -> (result:
    TruncatedMean)
    requires
        total == samples(buckets@),
    ensures
        result == truncated_mean_of(buckets@, threshold as nat),
        result.kept + result.ignored == total,
        result.kept > 0 ==> lower_cut(buckets@, threshold as nat) <= result.mean <= upper_cut(
            buckets@,
            threshold as nat,
        ),
        values_rise(buckets@) && threshold <= HALF ==> within_cuts(buckets@, threshold as nat),
{
    proof {
        if values_rise(buckets@) && threshold <= HALF {
            lemma_truncated_mean_within(buckets@, threshold as nat);
        }
    }
    let lo = percentile_in(buckets, total, threshold);
    let hi = if threshold <= FULL {
        percentile_in(buckets, total, FULL - threshold)
    } else {
        0
    };
    let ghost b = buckets@;
    let n: usize = buckets.len();
    let mut kept: u64 = 0;
    let mut sum: u128 = 0;
    let mut i: usize = 0;
    while i < n
        invariant
            b == buckets@,
            n == b.len(),
            0 <= i <= n,
            total == samples(b),
            kept == kept_count(b, lo, hi, i as int),
            sum == kept_sum(b, lo, hi, i as int),
        decreases n - i,
    {
        proof {
            lemma_kept_bounds(b, lo, hi, i + 1);
            lemma_samples_below_monotone(b, i + 1, n as int);
            assert(hi * kept_count(b, lo, hi, i + 1) <= u64::MAX * u64::MAX) by (nonlinear_arith)
                requires
                    hi <= u64::MAX,
                    kept_count(b, lo, hi, i + 1) <= u64::MAX,
            ;
        }
        let bucket = buckets[i];
        if lo <= bucket.value && bucket.value <= hi {
            kept = kept + bucket.count;
            assert(bucket.value * bucket.count <= u64::MAX * u64::MAX) by (nonlinear_arith)
                requires
                    bucket.value <= u64::MAX,
                    bucket.count <= u64::MAX,
            ;
            sum = sum + bucket.value as u128 * bucket.count as u128;
        }
        i = i + 1;
    }
    proof {
        lemma_truncated_mean_between(b, threshold as nat);
        lemma_kept_bounds(b, lo, hi, n as int);
        if kept > 0 {
            lemma_mean_between(sum as nat, kept as nat, lo as nat, hi as nat);
        }
    }
    let mean: u64 = if kept > 0 {
        (sum / kept as u128) as u64
    } else {
        0
    };
    TruncatedMean { mean, kept, ignored: total - kept }
}

} // verus!
