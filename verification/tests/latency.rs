use perf_gauge::buckets::Bucket;
use perf_gauge::latency::{LatencyHistogram, EXACT_VALUE, MAX_VALUE};
use perf_gauge::rank::{percentile_in, truncated_mean_in, TruncatedMean};

fn uniform_thousand() -> LatencyHistogram {
    let mut h = LatencyHistogram::new();
    for v in 0..1000u64 {
        assert!(h.increment(v));
    }
    h
}

#[test]
fn percentiles_of_a_thousand_samples() {
    let h = uniform_thousand();
    assert_eq!(h.count(), 1000);
    assert_eq!(h.minimum(), 0);
    assert_eq!(h.percentile(5000), 500);
    assert_eq!(h.percentile(9000), 900);
    assert_eq!(h.percentile(9900), 990);
    assert_eq!(h.percentile(9990), 999);
    assert_eq!(h.percentile(9999), 999);
    assert_eq!(h.maximum(), 999);
    assert_eq!(h.mean(), 500);
    assert_eq!(h.stddev(), 289);
}

#[test]
fn percentiles_below_half_count_from_the_bottom() {
    let h = uniform_thousand();
    assert_eq!(h.percentile(0), 0);
    assert_eq!(h.percentile(10), 0);
    assert_eq!(h.percentile(100), 9);
    assert_eq!(h.percentile(500), 49);
    assert_eq!(h.percentile(4999), 499);
    assert_eq!(h.percentile(9500), 950);
    assert_eq!(h.percentile(10000), 999);
}

#[test]
fn minimum_and_maximum_are_the_outer_percentiles() {
    let mut h = LatencyHistogram::new();
    for v in [17u64, 300, 42, 905] {
        h.increment(v);
    }
    assert_eq!(h.minimum(), 17);
    assert_eq!(h.minimum(), h.percentile(0));
    assert_eq!(h.maximum(), 905);
    assert_eq!(h.maximum(), h.percentile(10000));
}

#[test]
fn empty_histogram_answers_zero() {
    let h = LatencyHistogram::new();
    assert_eq!(h.count(), 0);
    for p in [0u32, 1, 4999, 5000, 9999, 10000, 10001, u32::MAX] {
        assert_eq!(h.percentile(p), 0);
    }
    assert_eq!(h.minimum(), 0);
    assert_eq!(h.maximum(), 0);
    assert_eq!(h.mean(), 0);
    assert_eq!(h.stddev(), 0);
    assert_eq!(
        h.truncated_mean(500),
        TruncatedMean { mean: 0, kept: 0, ignored: 0 }
    );
}

#[test]
fn percentile_above_a_hundred_percent_is_zero() {
    let h = uniform_thousand();
    assert_eq!(h.percentile(10001), 0);
    assert_eq!(h.percentile(u32::MAX), 0);
}

#[test]
fn truncated_mean_of_a_thousand_samples() {
    let h = uniform_thousand();
    let lo = h.percentile(500);
    let hi = h.percentile(9500);
    let tm = h.truncated_mean(500);
    assert_eq!(tm.kept, 902);
    assert_eq!(tm.ignored, 98);
    assert_eq!(tm.mean, 499);
    assert!(lo < tm.mean && tm.mean < hi);
    assert_eq!(h.truncated_mean(100).mean, 499);
    assert_eq!(h.truncated_mean(10).mean, 499);
    assert_eq!(h.truncated_mean(0).mean, 499);
    assert_eq!(h.truncated_mean(0).ignored, 0);
}

#[test]
fn truncated_mean_that_keeps_nothing_is_zero() {
    let h = uniform_thousand();
    let tm = h.truncated_mean(6000);
    assert_eq!(tm, TruncatedMean { mean: 0, kept: 0, ignored: 1000 });
    let tm = h.truncated_mean(10001);
    assert_eq!(tm.mean, 0);
    assert_eq!(tm.kept + tm.ignored, 1000);
}

#[test]
fn small_values_have_a_bucket_of_their_own() {
    let mut h = LatencyHistogram::new();
    h.increment(5);
    h.increment(5);
    h.increment(EXACT_VALUE);
    let buckets = h.buckets();
    assert_eq!(buckets[5], Bucket { value: 5, count: 2 });
    assert_eq!(buckets[1024], Bucket { value: 1024, count: 1 });
    assert_eq!(buckets.iter().map(|b| b.count).sum::<u64>(), 3);
    for (i, b) in buckets.iter().enumerate().take(1025) {
        assert_eq!(b.value, i as u64);
    }
    assert!(buckets.iter().all(|b| b.value <= MAX_VALUE));
}

#[test]
fn values_above_the_limit_count_as_the_limit() {
    let mut h = LatencyHistogram::new();
    assert!(h.increment(u64::MAX));
    assert!(h.increment(MAX_VALUE + 1));
    assert!(h.increment(MAX_VALUE));
    assert_eq!(h.count(), 3);
    let buckets = h.buckets();
    assert_eq!(buckets.len(), 26772);
    assert_eq!(buckets[buckets.len() - 1], Bucket { value: MAX_VALUE, count: 3 });
    assert_eq!(h.maximum(), MAX_VALUE);
    assert_eq!(h.minimum(), MAX_VALUE);
}

#[test]
fn merge_adds_the_samples() {
    let mut a = LatencyHistogram::new();
    let mut b = LatencyHistogram::new();
    for v in (0..1000u64).step_by(2) {
        a.increment(v);
    }
    for v in (1..1000u64).step_by(2) {
        b.increment(v);
    }
    assert!(a.merge(&b));
    assert_eq!(a.count(), 1000);
    assert_eq!(b.count(), 500);
    assert_eq!(a.buckets(), uniform_thousand().buckets());
    assert_eq!(a.percentile(5000), 500);
    assert_eq!(b.percentile(5000), 501);
}

#[test]
fn merge_of_small_values_does_not_depend_on_the_side() {
    let mut a = LatencyHistogram::new();
    let mut b = LatencyHistogram::new();
    for v in [1u64, 2, 2, 900] {
        a.increment(v);
    }
    for v in [2u64, 7, 1024] {
        b.increment(v);
    }
    let mut ab = a.clone();
    assert!(ab.merge(&b));
    let mut ba = b.clone();
    assert!(ba.merge(&a));
    assert_eq!(ab.buckets(), ba.buckets());
    assert_eq!(ab.count(), 7);
}

#[test]
fn duplicate_is_a_histogram_of_its_own() {
    let mut a = LatencyHistogram::new();
    a.increment(10);
    let mut copy = a.clone();
    assert_eq!(copy.buckets(), a.buckets());
    copy.increment(20);
    assert_eq!(copy.count(), 2);
    assert_eq!(a.count(), 1);
    assert_eq!(a.maximum(), 10);
    assert_eq!(copy.maximum(), 20);
}

#[test]
fn mean_and_deviation_come_from_the_store() {
    let mut h = LatencyHistogram::new();
    for v in 1..11u64 {
        h.increment(v);
    }
    assert_eq!(h.mean(), 6);
    assert_eq!(h.stddev(), 3);
}

#[test]
fn percentile_over_given_buckets() {
    let buckets = vec![
        Bucket { value: 10, count: 1 },
        Bucket { value: 20, count: 0 },
        Bucket { value: 30, count: 2 },
        Bucket { value: 40, count: 1 },
    ];
    assert_eq!(percentile_in(&buckets, 4, 0), 10);
    assert_eq!(percentile_in(&buckets, 4, 2500), 10);
    assert_eq!(percentile_in(&buckets, 4, 2501), 30);
    assert_eq!(percentile_in(&buckets, 4, 4999), 30);
    assert_eq!(percentile_in(&buckets, 4, 5000), 30);
    assert_eq!(percentile_in(&buckets, 4, 7500), 40);
    assert_eq!(percentile_in(&buckets, 4, 10000), 40);
    assert_eq!(percentile_in(&buckets, 4, 10001), 0);
    let empty = vec![Bucket { value: 10, count: 0 }];
    assert_eq!(percentile_in(&empty, 0, 5000), 0);
    assert_eq!(percentile_in(&Vec::new(), 0, 5000), 0);
}

#[test]
fn truncated_mean_over_given_buckets() {
    let buckets = vec![
        Bucket { value: 1, count: 1 },
        Bucket { value: 10, count: 3 },
        Bucket { value: 13, count: 5 },
        Bucket { value: 1000, count: 1 },
    ];
    let tm = truncated_mean_in(&buckets, 10, 2000);
    assert_eq!(tm, TruncatedMean { mean: 11, kept: 8, ignored: 2 });
    let all = truncated_mean_in(&buckets, 10, 0);
    assert_eq!(all, TruncatedMean { mean: 109, kept: 10, ignored: 0 });
}

fn filled_slots(h: &LatencyHistogram) -> Vec<(usize, Bucket)> {
    h.buckets()
        .into_iter()
        .enumerate()
        .filter(|(_, b)| b.count > 0)
        .collect()
}

#[test]
fn merge_counts_each_bucket_at_its_nominal_value() {
    for value in [0u64, 1024, 1025, 1500, 2000, 123_456, 59_999_999_999, MAX_VALUE] {
        let mut a = LatencyHistogram::new();
        a.increment(value);
        a.increment(value);
        let from = filled_slots(&a);
        assert_eq!(from.len(), 1);
        let nominal = from[0].1.value;

        let mut merged = LatencyHistogram::new();
        assert!(merged.merge(&a));
        let into = filled_slots(&merged);

        let mut direct = LatencyHistogram::new();
        direct.increment(nominal);
        let expected = filled_slots(&direct);

        assert_eq!(into.len(), 1);
        assert_eq!(into[0].0, expected[0].0);
        assert_eq!(into[0].1.count, 2);
        assert_eq!(merged.count(), 2);
    }
}

#[test]
fn outer_percentiles_are_the_outer_buckets_that_hold_a_sample() {
    let mut h = LatencyHistogram::new();
    for value in [70_000u64, 1_500, 3_000_000, 1_030, 999] {
        h.increment(value);
    }
    let filled = filled_slots(&h);
    assert_eq!(filled.len(), 5);
    assert_eq!(h.minimum(), filled[0].1.value);
    assert_eq!(h.maximum(), filled[4].1.value);
    assert_eq!(h.percentile(0), h.minimum());
    assert_eq!(h.percentile(10_000), h.maximum());
    assert_eq!(h.percentile(4_999), filled[2].1.value);
    assert_eq!(h.percentile(5_000), filled[3].1.value);
    assert_eq!(h.minimum(), 999);
    assert!(h.maximum() >= 3_000_000);
}

#[test]
fn buckets_stand_for_growing_values() {
    let buckets = LatencyHistogram::new().buckets();
    for pair in buckets.windows(2) {
        assert!(pair[0].value <= pair[1].value);
    }
    assert_eq!(buckets[0].value, 0);
    assert_eq!(buckets[buckets.len() - 1].value, MAX_VALUE);
    assert!(buckets.iter().all(|b| b.count == 0));
}

#[test]
fn percentiles_agree_with_the_store() {
    let mut seed = 12345u64;
    for round in 0..20u64 {
        let total = 100 * (round + 1);
        let mut ours = LatencyHistogram::new();
        let mut theirs = histogram::Histogram::new();
        for _ in 0..total {
            seed = seed.wrapping_mul(6364136223846793005).wrapping_add(1442695040888963407);
            let value = (seed >> 33) % 5_000_000;
            ours.increment(value);
            theirs.increment(value).unwrap();
        }
        for percent in [0u32, 1, 5, 10, 25, 49, 50, 51, 75, 90, 95, 99, 100] {
            assert_eq!(
                ours.percentile(percent * 100),
                theirs.percentile(percent as f64).unwrap_or_default(),
                "{} percent of {} samples",
                percent,
                total
            );
        }
        assert_eq!(ours.minimum(), theirs.minimum().unwrap_or_default());
        assert_eq!(ours.maximum(), theirs.maximum().unwrap_or_default());
        assert_eq!(ours.mean(), theirs.mean().unwrap_or_default());
        assert_eq!(ours.stddev(), theirs.stddev().unwrap_or_default());
        assert_eq!(ours.count(), theirs.entries());
    }
}

#[test]
fn percentiles_keep_to_whole_ranks() {
    let mut h = LatencyHistogram::new();
    for v in 0..2000u64 {
        h.increment(v % 1000);
    }
    assert_eq!(h.percentile(9_990), 999);
    let mut spread = LatencyHistogram::new();
    for v in 0..1000u64 {
        spread.increment(v);
        spread.increment(v);
    }
    assert_eq!(spread.percentile(9_990), 999);
    let mut few = LatencyHistogram::new();
    for v in [10u64, 20, 30, 40, 50, 60, 70, 80, 90, 100] {
        few.increment(v);
        few.increment(v + 1);
    }
    assert_eq!(few.percentile(8_500), 91);
    assert_eq!(few.percentile(8_501), 100);
    assert_eq!(few.percentile(9_000), 100);
    assert_eq!(few.percentile(9_001), 101);
    assert_eq!(few.percentile(9_500), 101);
    assert_eq!(few.percentile(500), 10);
    assert_eq!(few.percentile(501), 11);
}

#[test]
fn percentiles_rise_with_the_percentage() {
    let mut h = LatencyHistogram::new();
    let mut seed = 99u64;
    for _ in 0..500 {
        seed = seed.wrapping_mul(6364136223846793005).wrapping_add(1442695040888963407);
        h.increment((seed >> 33) % 90_000_000);
    }
    let mut last = h.minimum();
    for hundredths in (0..=10_000u32).step_by(7) {
        let value = h.percentile(hundredths);
        assert!(last <= value);
        last = value;
    }
    assert!(last <= h.maximum());
    for threshold in [0u32, 1, 10, 100, 500, 2_500, 4_999, 5_000] {
        let result = h.truncated_mean(threshold);
        assert!(result.kept > 0);
        assert!(h.percentile(threshold) <= result.mean);
        assert!(result.mean <= h.percentile(10_000 - threshold));
        assert!(h.minimum() <= result.mean && result.mean <= h.maximum());
    }
}

#[test]
fn combination_does_not_depend_on_the_side() {
    let mut a = LatencyHistogram::new();
    let mut b = LatencyHistogram::new();
    for v in [5u64, 1_500, 2_000, 2_000, 80_000, 59_000_000_000] {
        a.increment(v);
    }
    for v in [7u64, 1_025, 3_000_000] {
        b.increment(v);
    }
    let ab = a.combined_with(&b).unwrap();
    let ba = b.combined_with(&a).unwrap();
    assert_eq!(ab.buckets(), ba.buckets());
    assert_eq!(ab.count(), 9);
    assert_eq!(ab.minimum(), 5);
    assert_eq!(ab.mean(), ba.mean());
    assert_eq!(ab.stddev(), ba.stddev());
    assert_eq!(a.count(), 6);
    assert_eq!(b.count(), 3);

    let mut one_way = a.clone();
    one_way.merge(&b);
    let mut other_way = b.clone();
    other_way.merge(&a);
    assert_ne!(one_way.buckets(), other_way.buckets());
}
