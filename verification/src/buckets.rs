//! The contents of a histogram as a sequence of buckets, and what holds of
//! the number of samples in them.

use vstd::prelude::*;

verus! {

/// One bucket of a histogram: its nominal value and how many samples it holds.
#[derive(Clone, Copy, Debug, PartialEq, Eq, Structural)]
pub struct Bucket {
    pub value: u64,
    pub count: u64,
}

/// `n` as a `u64`, or the nearest `u64` where it does not fit.
pub open spec fn saturated(n: int) -> u64 {
    if n > u64::MAX {
        u64::MAX
    } else if n < 0 {
        0
    } else {
        n as u64
    }
}

/// The buckets `b` after `count` more samples were counted in bucket `slot`.
/// A count stays at `u64::MAX`; a slot that `b` does not have changes nothing.
pub open spec fn with_added(b: Seq<Bucket>, slot: int, count: u64) -> Seq<Bucket> {
    if 0 <= slot < b.len() {
        b.update(slot, Bucket { value: b[slot].value, count: saturated(b[slot].count + count) })
    } else {
        b
    }
}

/// Number of samples in the first `n` buckets.
pub open spec fn samples_below(b: Seq<Bucket>, n: int) -> nat
    decreases n,
{
    if n <= 0 || n > b.len() {
        0
    } else {
        samples_below(b, n - 1) + b[n - 1].count as nat
    }
}

/// Number of samples in all buckets.
pub open spec fn samples(b: Seq<Bucket>) -> nat {
    samples_below(b, b.len() as int)
}

/// No bucket stands for a lower value than a bucket before it.
pub open spec fn values_rise(b: Seq<Bucket>) -> bool {
    forall|i: int, j: int|
        0 <= i <= j < b.len() ==> (#[trigger] b[i]).value <= (#[trigger] b[j]).value
}

/// All buckets are empty.
pub open spec fn all_empty(b: Seq<Bucket>) -> bool {
    forall|i: int| 0 <= i < b.len() ==> (#[trigger] b[i]).count == 0
}

/// Adding a count to one bucket adds it to the number of samples.
pub proof fn lemma_samples_with_added(b: Seq<Bucket>, slot: int, count: u64, n: int)
    requires
        0 <= slot < b.len(),
        b[slot].count + count <= u64::MAX,
        0 <= n <= b.len(),
    ensures
        samples_below(with_added(b, slot, count), n) == samples_below(b, n) + if slot < n {
            count as nat
        } else {
            0
        },
    decreases n,
{
    if n > 0 {
        lemma_samples_with_added(b, slot, count, n - 1);
    }
}

/// A bucket holds no more samples than the buckets up to and including it.
pub proof fn lemma_count_within_samples(b: Seq<Bucket>, slot: int, n: int)
    requires
        0 <= slot < n <= b.len(),
    ensures
        b[slot].count <= samples_below(b, n),
    decreases n,
{
    if slot < n - 1 {
        lemma_count_within_samples(b, slot, n - 1);
    }
}

/// The number of samples in the first `n` buckets grows with `n`.
pub proof fn lemma_samples_below_monotone(b: Seq<Bucket>, m: int, n: int)
    requires
        0 <= m <= n <= b.len(),
    ensures
        samples_below(b, m) <= samples_below(b, n),
    decreases n,
{
    if m < n {
        lemma_samples_below_monotone(b, m, n - 1);
    }
}

/// Empty buckets hold no samples.
pub proof fn lemma_samples_all_empty(b: Seq<Bucket>, n: int)
    requires
        all_empty(b),
        0 <= n <= b.len(),
    ensures
        samples_below(b, n) == 0,
    decreases n,
{
    if n > 0 {
        lemma_samples_all_empty(b, n - 1);
    }
}

} // verus!
