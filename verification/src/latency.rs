//! Latency histogram: the bucketed store of the `histogram` crate, with
//! rank queries proved over its bucket contents.

use crate::buckets::{
    all_empty, lemma_count_within_samples, lemma_samples_all_empty, lemma_samples_below_monotone,
    lemma_samples_with_added, samples, samples_below, saturated, values_rise, with_added,
    Bucket,
};
use crate::rank::{
    lemma_percentiles_in_order, lower_cut, percentile_in, percentile_of, truncated_mean_in,
    truncated_mean_of, upper_cut, within_cuts, TruncatedMean, FULL, HALF,
};
use histogram::Histogram;
use vstd::prelude::*;

verus! {

/// The histogram of the `histogram` crate: counts of samples in buckets
/// that grow wider with the values they stand for.
#[verifier::external_type_specification]
#[verifier::external_body]
pub struct ExHistogram(Histogram);

/// Largest value that a histogram made by `Histogram::new` counts in a bucket.
pub const MAX_VALUE: u64 = 60_000_000_000;

/// Values up to this one have a bucket of their own, so they are kept exactly.
pub const EXACT_VALUE: u64 = 1024;

/// Most samples a [`LatencyHistogram`] takes. Up to this count the 64-bit
/// floats in which the store computes its statistics hold every count exactly.
pub const SAMPLE_CAPACITY: u64 = 9_007_199_254_740_992;

/// `value`, or `MAX_VALUE` where it is larger.
pub open spec fn clamped(value: u64) -> u64 {
    if value > MAX_VALUE {
        MAX_VALUE
    } else {
        value
    }
}

/// The buckets of a histogram, lowest first, as iterating over it shows them.
pub uninterp spec fn buckets_of(h: Histogram) -> Seq<Bucket>;

/// Whether the histogram has the configuration of `Histogram::new` and has
/// counted every sample it was given in one of its buckets.
pub uninterp spec fn is_regular(h: Histogram) -> bool;

/// Index of the bucket in which a histogram made by `Histogram::new` counts
/// the value `v`.
pub uninterp spec fn slot_of(v: u64) -> int;

/// Nominal value of the bucket with index `slot` in a histogram made by
/// `Histogram::new`.
pub uninterp spec fn value_of(slot: int) -> u64;

/// What `Histogram::mean` reports for the given buckets.
pub uninterp spec fn mean_of(b: Seq<Bucket>) -> u64;

/// What `Histogram::stddev` reports for the given buckets.
pub uninterp spec fn stddev_of(b: Seq<Bucket>) -> u64;

/// The buckets `b` after the first `n` buckets of `other` were merged into
/// them: each count is added where the nominal value of its bucket is counted.
pub open spec fn merged_prefix(b: Seq<Bucket>, other: Seq<Bucket>, n: int) -> Seq<Bucket>
    decreases n,
{
    if n <= 0 || n > other.len() {
        b
    } else {
        with_added(merged_prefix(b, other, n - 1), slot_of(other[n - 1].value), other[n - 1].count)
    }
}

/// The buckets `b` after all of `other` was merged into them.
pub open spec fn merged(b: Seq<Bucket>, other: Seq<Bucket>) -> Seq<Bucket> {
    merged_prefix(b, other, other.len() as int)
}

/// Number of buckets of a histogram made by `Histogram::new`: one for each
/// index up to that of `MAX_VALUE`.
pub open spec fn bucket_total() -> int {
    slot_of(MAX_VALUE) + 1
}

/// What the two index computations of the histogram give: every value up to
/// `MAX_VALUE` has a bucket, no bucket stands for more than `MAX_VALUE`, the
/// nominal values never fall as the index rises, and up to `EXACT_VALUE` a
/// value and the index of its bucket are one number.
pub open spec fn layout_facts() -> bool {
    &&& forall|v: u64| v <= MAX_VALUE ==> 0 <= #[trigger] slot_of(v) < bucket_total()
    &&& forall|v: u64| v <= EXACT_VALUE ==> #[trigger] slot_of(v) == v
    &&& forall|i: int| 0 <= i < bucket_total() ==> #[trigger] value_of(i) <= MAX_VALUE
    &&& forall|i: int| 0 <= i <= EXACT_VALUE ==> #[trigger] value_of(i) == i
    &&& forall|i: int, j: int|
        0 <= i <= j < bucket_total() ==> #[trigger] value_of(i) <= #[trigger] value_of(j)
}

/// The buckets `b` are those of a histogram made by `Histogram::new`, with
/// whatever counts.
pub open spec fn default_layout(b: Seq<Bucket>) -> bool {
    &&& layout_facts()
    &&& b.len() == bucket_total()
    &&& forall|i: int| 0 <= i < b.len() ==> (#[trigger] b[i]).value == value_of(i)
}

/// The buckets of a histogram made by `Histogram::new` that holds no sample.
pub open spec fn empty_buckets() -> Seq<Bucket> {
    Seq::new(bucket_total() as nat, |i: int| Bucket { value: value_of(i), count: 0 })
}

/// `Histogram::new`: a histogram with the default configuration, whose
/// buckets are laid out as `default_layout` says and are all empty.
#[verifier::external_body]
fn new_histogram() -> (h: Histogram)
    ensures
        is_regular(h),
        default_layout(buckets_of(h)),
        all_empty(buckets_of(h)),
{
    Histogram::new()
}

/// `Histogram::increment` with a value that the histogram has a bucket for:
/// the count of that bucket grows by one (it stays at `u64::MAX`), and no
/// other bucket changes.
#[verifier::external_body]
fn increment_histogram(h: &mut Histogram, value: u64)
    requires
        is_regular(*old(h)),
        value <= MAX_VALUE,
    ensures
        is_regular(*final(h)),
        buckets_of(*final(h)) == with_added(buckets_of(*old(h)), slot_of(value), 1),
{
    let _ = h.increment(value);
}

/// `Histogram::merge`: for each bucket of `other`, lowest first, its count is
/// added to the bucket of `h` in which its nominal value is counted.
#[verifier::external_body]
fn merge_histogram(h: &mut Histogram, other: &Histogram)
    requires
        is_regular(*old(h)),
        is_regular(*other),
    ensures
        is_regular(*final(h)),
        buckets_of(*final(h)) == merged(buckets_of(*old(h)), buckets_of(*other)),
{
    h.merge(other);
}

/// `Clone::clone` of a histogram: the copy has the same configuration and
/// the same buckets.
#[verifier::external_body]
fn clone_histogram(h: &Histogram) -> (copy: Histogram)
    ensures
        is_regular(copy) == is_regular(*h),
        buckets_of(copy) == buckets_of(*h),
{
    h.clone()
}

/// Iteration over a histogram (`IntoIterator for &Histogram`): the buckets in
/// index order, each with `Bucket::value`, which is the nominal value of its
/// index, and `Bucket::count`.
#[verifier::external_body]
fn histogram_buckets(h: &Histogram) -> (v: Vec<Bucket>)
    requires
        is_regular(*h),
    ensures
        v@ == buckets_of(*h),
        forall|i: int| 0 <= i < v@.len() ==> (#[trigger] v@[i]).value == value_of(i),
{
    h.into_iter().map(|b| Bucket { value: b.value(), count: b.count() }).collect()
}

/// `Histogram::mean`, with 0 in place of its error: the error comes exactly
/// when the histogram holds no sample.
#[verifier::external_body]
fn histogram_mean(h: &Histogram) -> (m: u64)
    requires
        is_regular(*h),
    ensures
        m == mean_of(buckets_of(*h)),
        samples(buckets_of(*h)) == 0 ==> m == 0,
{
    h.mean().unwrap_or_default()
}

/// `Histogram::stddev`, with 0 in place of `None`: `None` comes exactly when
/// the histogram holds no sample.
#[verifier::external_body]
fn histogram_stddev(h: &Histogram) -> (s: u64)
    requires
        is_regular(*h),
    ensures
        s == stddev_of(buckets_of(*h)),
        samples(buckets_of(*h)) == 0 ==> s == 0,
{
    h.stddev().unwrap_or_default()
}

/// `Histogram::minimum`, with 0 in place of its error: the value of the
/// lowest bucket that holds a sample, which is the percentile at zero
/// percent, and 0 where no bucket holds one.
#[verifier::external_body]
fn histogram_minimum(h: &Histogram) -> (m: u64)
    requires
        is_regular(*h),
        samples(buckets_of(*h)) <= SAMPLE_CAPACITY,
    ensures
        m == percentile_of(buckets_of(*h), 0),
{
    h.minimum().unwrap_or_default()
}

/// `Histogram::maximum`, with 0 in place of its error: the value of the
/// highest bucket that holds a sample, which is the percentile at one
/// hundred percent, and 0 where no bucket holds one.
#[verifier::external_body]
fn histogram_maximum(h: &Histogram) -> (m: u64)
    requires
        is_regular(*h),
        samples(buckets_of(*h)) <= SAMPLE_CAPACITY,
    ensures
        m == percentile_of(buckets_of(*h), FULL as nat),
{
    h.maximum().unwrap_or_default()
}

/// Counting more samples in a bucket keeps the layout.
pub proof fn lemma_layout_with_added(b: Seq<Bucket>, slot: int, count: u64)
    requires
        default_layout(b),
    ensures
        default_layout(with_added(b, slot, count)),
{
    let c = with_added(b, slot, count);
    assert forall|i: int| 0 <= i < c.len() implies (#[trigger] c[i]).value == value_of(i) by {
        assert(b[i].value == value_of(i));
    }
}

/// Buckets in the default layout stand for values that never fall.
pub proof fn lemma_layout_rises(b: Seq<Bucket>)
    requires
        default_layout(b),
    ensures
        values_rise(b),
{
    assert forall|i: int, j: int| 0 <= i <= j < b.len() implies (#[trigger] b[i]).value <= (
    #[trigger] b[j]).value by {
        assert(b[i].value == value_of(i));
        assert(b[j].value == value_of(j));
    }
}

/// Buckets in the default layout that are all empty are `empty_buckets`.
pub proof fn lemma_empty_buckets(b: Seq<Bucket>)
    requires
        default_layout(b),
        all_empty(b),
    ensures
        b == empty_buckets(),
{
    assert forall|i: int| 0 <= i < b.len() implies b[i] == empty_buckets()[i] by {
        assert(b[i].value == value_of(i));
        assert(b[i].count == 0);
    }
    assert(b =~= empty_buckets());
}

/// `empty_buckets` are in the default layout and hold no sample, as far as
/// the layout is what `layout_facts` says.
pub(crate) proof fn lemma_empty_buckets_hold_nothing()
    requires
        layout_facts(),
    ensures
        default_layout(empty_buckets()),
        all_empty(empty_buckets()),
        samples(empty_buckets()) == 0,
{
    assert(slot_of(MAX_VALUE) >= 0);
    lemma_samples_all_empty(empty_buckets(), empty_buckets().len() as int);
}

/// Merging keeps the layout, and adds the samples that are merged in where
/// the sum of both fits.
pub proof fn lemma_merged_prefix(b: Seq<Bucket>, other: Seq<Bucket>, n: int)
    requires
        default_layout(b),
        default_layout(other),
        samples(b) + samples(other) <= u64::MAX,
        0 <= n <= other.len(),
    ensures
        default_layout(merged_prefix(b, other, n)),
        samples(merged_prefix(b, other, n)) == samples(b) + samples_below(other, n),
    decreases n,
{
    if n > 0 {
        lemma_merged_prefix(b, other, n - 1);
        let m = merged_prefix(b, other, n - 1);
        let slot = slot_of(other[n - 1].value);
        let count = other[n - 1].count;
        assert(other[n - 1].value == value_of(n - 1));
        assert(0 <= slot < m.len());
        lemma_count_within_samples(m, slot, m.len() as int);
        lemma_samples_below_monotone(other, n, other.len() as int);
        lemma_samples_with_added(m, slot, count, m.len() as int);
        lemma_layout_with_added(m, slot, count);
    }
}

/// Every sample in `b` is of a value up to `EXACT_VALUE`.
pub open spec fn exact_only(b: Seq<Bucket>) -> bool {
    forall|i: int| EXACT_VALUE < i < b.len() ==> (#[trigger] b[i]).count == 0
}

/// The buckets of `a`, each with the count of the same bucket of `b` added.
pub open spec fn summed(a: Seq<Bucket>, b: Seq<Bucket>) -> Seq<Bucket> {
    Seq::new(
        a.len(),
        |i: int| Bucket { value: a[i].value, count: saturated(a[i].count + b[i].count) },
    )
}

/// The buckets of `a`, the first `n` of them with the count of the same
/// bucket of `b` added.
pub open spec fn summed_prefix(a: Seq<Bucket>, b: Seq<Bucket>, n: int) -> Seq<Bucket> {
    Seq::new(
        a.len(),
        |i: int|
            if i < n {
                Bucket { value: a[i].value, count: saturated(a[i].count + b[i].count) }
            } else {
                a[i]
            },
    )
}

/// Merging samples of values up to `EXACT_VALUE` adds the counts bucket by
/// bucket.
pub proof fn lemma_merged_prefix_exact(a: Seq<Bucket>, b: Seq<Bucket>, n: int)
    requires
        default_layout(a),
        default_layout(b),
        exact_only(b),
        0 <= n <= b.len(),
    ensures
        merged_prefix(a, b, n) == summed_prefix(a, b, n),
    decreases n,
{
    if n > 0 {
        lemma_merged_prefix_exact(a, b, n - 1);
        let before = summed_prefix(a, b, n - 1);
        let slot = slot_of(b[n - 1].value);
        assert(b[n - 1].value == value_of(n - 1));
        if n - 1 <= EXACT_VALUE {
            assert(value_of(n - 1) == n - 1);
            assert(slot == n - 1);
        } else {
            assert(b[n - 1].count == 0);
            assert(0 <= slot < before.len());
        }
        assert(with_added(before, slot, b[n - 1].count) =~= summed_prefix(a, b, n));
    } else {
        assert(merged_prefix(a, b, n) =~= summed_prefix(a, b, n));
    }
}

/// Merging samples of values up to `EXACT_VALUE` adds the counts bucket by
/// bucket, and leaves all samples at such values.
pub proof fn lemma_merged_exact(a: Seq<Bucket>, b: Seq<Bucket>)
    requires
        default_layout(a),
        default_layout(b),
        exact_only(b),
    ensures
        merged(a, b) == summed(a, b),
        exact_only(a) ==> exact_only(merged(a, b)),
        default_layout(merged(a, b)),
{
    lemma_merged_prefix_exact(a, b, b.len() as int);
    assert(summed_prefix(a, b, b.len() as int) =~= summed(a, b));
    let m = summed(a, b);
    assert forall|i: int| 0 <= i < m.len() implies (#[trigger] m[i]).value == value_of(i) by {
        assert(a[i].value == value_of(i));
    }
    if exact_only(a) {
        assert forall|i: int| EXACT_VALUE < i < m.len() implies (#[trigger] m[i]).count == 0 by {
            assert(a[i].count == 0);
            assert(b[i].count == 0);
        }
    }
}

/// Histograms of samples of values up to `EXACT_VALUE` merge to the same
/// buckets whichever is merged into the other.
pub proof fn lemma_merge_commutes(a: Seq<Bucket>, b: Seq<Bucket>)
    requires
        default_layout(a),
        default_layout(b),
        exact_only(a),
        exact_only(b),
    ensures
        merged(a, b) == merged(b, a),
{
    lemma_merged_exact(a, b);
    lemma_merged_exact(b, a);
    assert forall|i: int| 0 <= i < a.len() implies summed(a, b)[i] == summed(b, a)[i] by {
        assert(a[i].value == value_of(i));
        assert(b[i].value == value_of(i));
    }
    assert(summed(a, b) =~= summed(b, a));
}

/// Histograms of samples of values up to `EXACT_VALUE` merge to the same
/// buckets however the merges are grouped.
pub proof fn lemma_merge_associates(a: Seq<Bucket>, b: Seq<Bucket>, c: Seq<Bucket>)
    requires
        default_layout(a),
        default_layout(b),
        default_layout(c),
        exact_only(b),
        exact_only(c),
    ensures
        merged(merged(a, b), c) == merged(a, merged(b, c)),
{
    lemma_merged_exact(a, b);
    lemma_merged_exact(b, c);
    lemma_merged_exact(merged(a, b), c);
    lemma_merged_exact(a, merged(b, c));
    assert(summed(summed(a, b), c) =~= summed(a, summed(b, c)));
}

/// The buckets of `b` as merging counts them: each count at the nominal
/// value of its bucket, in buckets that were empty.
pub open spec fn recounted(b: Seq<Bucket>) -> Seq<Bucket> {
    merged(empty_buckets(), b)
}

/// The buckets of `a` and of `b` both merged into empty buckets, so that
/// neither is counted otherwise than the other.
pub open spec fn both_merged(a: Seq<Bucket>, b: Seq<Bucket>) -> Seq<Bucket> {
    merged(merged(empty_buckets(), a), b)
}

/// Merging into buckets adds to them, bucket by bucket, what merging into
/// empty buckets gives.
pub proof fn lemma_merged_prefix_adds(x: Seq<Bucket>, b: Seq<Bucket>, n: int)
    requires
        default_layout(x),
        0 <= n <= b.len(),
    ensures
        merged_prefix(empty_buckets(), b, n).len() == x.len(),
        merged_prefix(x, b, n) == summed(x, merged_prefix(empty_buckets(), b, n)),
    decreases n,
{
    lemma_empty_buckets_hold_nothing();
    if n > 0 {
        lemma_merged_prefix_adds(x, b, n - 1);
        let before = merged_prefix(empty_buckets(), b, n - 1);
        let slot = slot_of(b[n - 1].value);
        let count = b[n - 1].count;
        assert(with_added(summed(x, before), slot, count) =~= summed(
            x,
            with_added(before, slot, count),
        ));
    } else {
        assert(x =~= summed(x, empty_buckets())) by {
            assert forall|i: int| 0 <= i < x.len() implies x[i] == summed(
                x,
                empty_buckets(),
            )[i] by {
                assert(x[i].value == value_of(i));
            }
        }
    }
}

/// Two histograms that are both merged into empty buckets give the same
/// buckets whichever is merged first.
pub proof fn lemma_both_merged_either_way(a: Seq<Bucket>, b: Seq<Bucket>)
    requires
        layout_facts(),
    ensures
        both_merged(a, b) == both_merged(b, a),
{
    lemma_empty_buckets_hold_nothing();
    let e = empty_buckets();
    lemma_merged_prefix_adds(e, a, a.len() as int);
    lemma_merged_prefix_adds(e, b, b.len() as int);
    let ra = recounted(a);
    let rb = recounted(b);
    lemma_merged_layout(e, a, a.len() as int);
    lemma_merged_layout(e, b, b.len() as int);
    lemma_merged_prefix_adds(ra, b, b.len() as int);
    lemma_merged_prefix_adds(rb, a, a.len() as int);
    assert(summed(ra, rb) =~= summed(rb, ra)) by {
        assert forall|i: int| 0 <= i < ra.len() implies summed(ra, rb)[i] == summed(rb, ra)[i] by {
            assert(ra[i].value == value_of(i));
            assert(rb[i].value == value_of(i));
        }
    }
}

/// Merging keeps the layout, whatever is merged.
pub proof fn lemma_merged_layout(x: Seq<Bucket>, b: Seq<Bucket>, n: int)
    requires
        default_layout(x),
        0 <= n <= b.len(),
    ensures
        default_layout(merged_prefix(x, b, n)),
    decreases n,
{
    if n > 0 {
        lemma_merged_layout(x, b, n - 1);
        lemma_layout_with_added(
            merged_prefix(x, b, n - 1),
            slot_of(b[n - 1].value),
            b[n - 1].count,
        );
    }
}

/// A histogram of latencies in microseconds.
pub struct LatencyHistogram {
    inner: Histogram,
    recorded: u64,
}

impl View for LatencyHistogram {
    type V = Seq<Bucket>;

    closed spec fn view(&self) -> Seq<Bucket> {
        buckets_of(self.inner)
    }
}

impl LatencyHistogram {
    /// The histogram was made by [`LatencyHistogram::new`] and changed only
    /// through the methods of this type.
    pub closed spec fn wf(&self) -> bool {
        &&& is_regular(self.inner)
        &&& default_layout(self@)
        &&& self.recorded == samples(self@)
        &&& self.recorded <= SAMPLE_CAPACITY
    }

    /// What `wf` says of the buckets: they are laid out as those of every
    /// histogram of this type, with a bucket for each value up to
    /// `EXACT_VALUE` at the least, and hold no more samples than a
    /// histogram takes.
    pub proof fn lemma_wf(&self)
        requires
            self.wf(),
        ensures
            default_layout(self@),
            values_rise(self@),
            self@.len() > EXACT_VALUE,
            samples(self@) <= SAMPLE_CAPACITY,
    {
        assert(slot_of(EXACT_VALUE) == EXACT_VALUE);
        lemma_layout_rises(self@);
    }

    /// An empty histogram.
    pub fn new() -> (h: Self)
        ensures
            h.wf(),
            h@ == empty_buckets(),
            samples(h@) == 0,
    {
        let inner = new_histogram();
        proof {
            lemma_samples_all_empty(buckets_of(inner), buckets_of(inner).len() as int);
            lemma_empty_buckets(buckets_of(inner));
        }
        LatencyHistogram { inner, recorded: 0 }
    }

    /// Number of samples recorded.
    pub fn count(&self) -> (n: u64)
        requires
            self.wf(),
        ensures
            n == samples(self@),
    {
        self.recorded
    }

    /// Records one sample. A value above `MAX_VALUE` counts as `MAX_VALUE`.
    /// A histogram that holds `SAMPLE_CAPACITY` samples takes no more and
    /// stays as it is.
    pub fn increment(&mut self, value: u64) -> (recorded: bool)
        requires
            old(self).wf(),
        ensures
            final(self).wf(),
            recorded == (samples(old(self)@) < SAMPLE_CAPACITY),
            recorded ==> final(self)@ == with_added(old(self)@, slot_of(clamped(value)), 1),
            recorded ==> samples(final(self)@) == samples(old(self)@) + 1,
            !recorded ==> final(self)@ == old(self)@,
    {
        if self.recorded >= SAMPLE_CAPACITY {
            return false;
        }
        let v = if value > MAX_VALUE {
            MAX_VALUE
        } else {
            value
        };
        proof {
            let b = self@;
            let slot = slot_of(v);
            assert(0 <= slot < b.len());
            lemma_count_within_samples(b, slot, b.len() as int);
            lemma_samples_with_added(b, slot, 1, b.len() as int);
            lemma_layout_with_added(b, slot, 1);
        }
        increment_histogram(&mut self.inner, v);
        self.recorded = self.recorded + 1;
        true
    }

    /// Adds the samples of `other` to this histogram, each at the value of
    /// its bucket. Where both together hold more than `SAMPLE_CAPACITY`
    /// samples nothing is added, and the answer is `false`. The store
    /// counts a merged bucket anew at its nominal value, so for samples
    /// above `EXACT_VALUE` it matters which histogram is merged into which;
    /// [`LatencyHistogram::combined_with`] favours neither.
    pub fn merge(&mut self, other: &LatencyHistogram) -> (done: bool)
        requires
            old(self).wf(),
            other.wf(),
        ensures
            final(self).wf(),
            done == (samples(old(self)@) + samples(other@) <= SAMPLE_CAPACITY),
            done ==> final(self)@ == merged(old(self)@, other@),
            done ==> samples(final(self)@) == samples(old(self)@) + samples(other@),
            !done ==> final(self)@ == old(self)@,
    {
        if other.recorded > SAMPLE_CAPACITY - self.recorded {
            return false;
        }
        proof {
            lemma_merged_prefix(self@, other@, other@.len() as int);
        }
        merge_histogram(&mut self.inner, &other.inner);
        self.recorded = self.recorded + other.recorded;
        true
    }

    /// A histogram of the samples of this one and of `other`, which does
    /// not tell the one from the other: both are merged into an empty
    /// histogram, so `a.combined_with(&b)` and `b.combined_with(&a)` hold the
    /// same buckets. None where both together hold more than
    /// `SAMPLE_CAPACITY` samples.
    pub fn combined_with(&self, other: &LatencyHistogram) -> (both: Option<LatencyHistogram>)
        requires
            self.wf(),
            other.wf(),
        ensures
            (both is Some) == (samples(self@) + samples(other@) <= SAMPLE_CAPACITY),
            match both {
                Some(all) => all.wf() && all@ == both_merged(self@, other@) && all@
                    == both_merged(other@, self@) && samples(all@) == samples(self@) + samples(
                    other@,
                ),
                None => true,
            },
    {
        proof {
            self.lemma_wf();
            lemma_both_merged_either_way(self@, other@);
        }
        let mut all = LatencyHistogram::new();
        if !all.merge(self) {
            return None;
        }
        if !all.merge(other) {
            return None;
        }
        Some(all)
    }

    /// The buckets, lowest first.
    pub fn buckets(&self) -> (v: Vec<Bucket>)
        requires
            self.wf(),
        ensures
            v@ == self@,
    {
        histogram_buckets(&self.inner)
    }

    /// The percentile at `hundredths` hundredths of a percent, by nearest
    /// rank over the samples: 0 where there is no sample, and for more than
    /// one hundred percent.
    pub fn percentile(&self, hundredths: u32) -> (value: u64)
        requires
            self.wf(),
        ensures
            value == percentile_of(self@, hundredths as nat),
            samples(self@) == 0 ==> value == 0,
            hundredths <= FULL ==> percentile_of(self@, 0) <= value <= percentile_of(
                self@,
                FULL as nat,
            ),
    {
        proof {
            lemma_layout_rises(self@);
            if hundredths <= FULL {
                lemma_percentiles_in_order(self@, 0, hundredths as nat);
                lemma_percentiles_in_order(self@, hundredths as nat, FULL as nat);
            }
        }
        let buckets = histogram_buckets(&self.inner);
        percentile_in(&buckets, self.recorded, hundredths)
    }

    /// The value of the lowest bucket that holds a sample; 0 where none does.
    pub fn minimum(&self) -> (value: u64)
        requires
            self.wf(),
        ensures
            value == percentile_of(self@, 0),
    {
        histogram_minimum(&self.inner)
    }

    /// The value of the highest bucket that holds a sample; 0 where none does.
    pub fn maximum(&self) -> (value: u64)
        requires
            self.wf(),
        ensures
            value == percentile_of(self@, FULL as nat),
    {
        histogram_maximum(&self.inner)
    }

    /// The mean of the samples as the store reports it; 0 where there is no
    /// sample.
    pub fn mean(&self) -> (value: u64)
        requires
            self.wf(),
        ensures
            value == mean_of(self@),
            samples(self@) == 0 ==> value == 0,
    {
        histogram_mean(&self.inner)
    }

    /// The standard deviation of the samples as the store reports it; 0
    /// where there is no sample.
    pub fn stddev(&self) -> (value: u64)
        requires
            self.wf(),
        ensures
            value == stddev_of(self@),
            samples(self@) == 0 ==> value == 0,
    {
        histogram_stddev(&self.inner)
    }

    /// The mean of the samples between the percentile at `threshold` and the
    /// one at one hundred percent less `threshold`, both in hundredths of a
    /// percent, with the number of samples kept and left out.
    pub fn truncated_mean(&self, threshold: u32) -> (result: TruncatedMean)
        requires
            self.wf(),
        ensures
            result == truncated_mean_of(self@, threshold as nat),
            result.kept + result.ignored == samples(self@),
            result.kept > 0 ==> lower_cut(self@, threshold as nat) <= result.mean <= upper_cut(
                self@,
                threshold as nat,
            ),
            threshold <= HALF ==> within_cuts(self@, threshold as nat),
    {
        proof {
            lemma_layout_rises(self@);
        }
        let buckets = histogram_buckets(&self.inner);
        truncated_mean_in(&buckets, self.recorded, threshold)
    }
}

impl Clone for LatencyHistogram {
    /// A histogram of its own with the same buckets.
    fn clone(&self) -> (copy: Self)
        ensures
            copy@ == self@,
            copy.wf() == self.wf(),
    {
        LatencyHistogram { inner: clone_histogram(&self.inner), recorded: self.recorded }
    }
}

} // verus!
