//! The counters of a number of calls as values of the contracts: what one
//! more call makes of them, and what holds of them after any number of
//! calls.

use crate::buckets::{
    lemma_count_within_samples, lemma_samples_with_added, samples, with_added, Bucket,
};
use crate::latency::{
    default_layout, empty_buckets, layout_facts, lemma_empty_buckets_hold_nothing,
    lemma_layout_with_added, slot_of, MAX_VALUE, SAMPLE_CAPACITY,
};
use crate::names::{distinct, lemma_place_of, lemma_place_of_push, place_of};
use vstd::prelude::*;

verus! {

/// What one call came to, as the metrics see it.
pub struct Outcome {
    pub success: bool,
    pub bytes: usize,
    pub status: Seq<char>,
    /// Time the call took, in whole microseconds.
    pub micros: nat,
    pub operation: Option<Seq<char>>,
    pub fatal: bool,
}

/// The value under which the time of a call goes into a histogram: its
/// microseconds, and `MAX_VALUE` for a longer time than that.
pub open spec fn latency_of(o: Outcome) -> u64 {
    if o.micros > MAX_VALUE {
        MAX_VALUE
    } else {
        o.micros as u64
    }
}

/// The counters of all calls, or of the calls of one operation.
pub struct CounterSet {
    pub total_bytes: usize,
    pub total_requests: usize,
    pub successful_requests: usize,
    /// The status labels, in the order in which they were first seen.
    pub labels: Seq<Seq<char>>,
    /// How often each label was seen.
    pub counts: Seq<usize>,
    pub success_latency: Seq<Bucket>,
    pub error_latency: Seq<Bucket>,
}

/// Sum of the first `n` counts.
pub open spec fn sum_counts(counts: Seq<usize>, n: int) -> nat
    decreases n,
{
    if n <= 0 || n > counts.len() {
        0
    } else {
        sum_counts(counts, n - 1) + counts[n - 1] as nat
    }
}

/// Counters that have seen no call.
pub open spec fn no_calls() -> CounterSet {
    CounterSet {
        total_bytes: 0,
        total_requests: 0,
        successful_requests: 0,
        labels: Seq::empty(),
        counts: Seq::empty(),
        success_latency: empty_buckets(),
        error_latency: empty_buckets(),
    }
}

/// The counters can take one more call.
pub open spec fn has_room(c: CounterSet) -> bool {
    c.total_requests < usize::MAX && c.total_requests < SAMPLE_CAPACITY
}

/// `a + b`, or `usize::MAX` where the sum does not fit.
pub open spec fn capped_bytes(a: usize, b: usize) -> usize {
    if a + b > usize::MAX {
        usize::MAX
    } else {
        (a + b) as usize
    }
}

/// The counts after `label` was seen once more.
pub open spec fn counted(labels: Seq<Seq<char>>, counts: Seq<usize>, label: Seq<char>) -> Seq<
    usize,
> {
    let place = place_of(labels, label);
    if place < labels.len() {
        counts.update(place, (counts[place] + 1) as usize)
    } else {
        counts.push(1)
    }
}

/// The labels after `label` was seen.
pub open spec fn labelled(labels: Seq<Seq<char>>, label: Seq<char>) -> Seq<Seq<char>> {
    if place_of(labels, label) < labels.len() {
        labels
    } else {
        labels.push(label)
    }
}

/// The counters after one more call. Counters that are full stay as they
/// are; the number of bytes stays at `usize::MAX` once it got there.
pub open spec fn recorded(c: CounterSet, o: Outcome) -> CounterSet {
    if !has_room(c) {
        c
    } else {
        CounterSet {
            total_bytes: capped_bytes(c.total_bytes, o.bytes),
            total_requests: (c.total_requests + 1) as usize,
            successful_requests: if o.success {
                (c.successful_requests + 1) as usize
            } else {
                c.successful_requests
            },
            labels: labelled(c.labels, o.status),
            counts: counted(c.labels, c.counts, o.status),
            success_latency: if o.success {
                with_added(c.success_latency, slot_of(latency_of(o)), 1)
            } else {
                c.success_latency
            },
            error_latency: if o.success {
                c.error_latency
            } else {
                with_added(c.error_latency, slot_of(latency_of(o)), 1)
            },
        }
    }
}

/// What holds of the counters of any number of calls: each call is a
/// success or a failure, each went into the histogram of its kind, and each
/// was counted under one status label.
pub open spec fn consistent(c: CounterSet) -> bool {
    &&& c.total_requests == c.successful_requests + samples(c.error_latency)
    &&& c.successful_requests == samples(c.success_latency)
    &&& c.total_requests <= SAMPLE_CAPACITY
    &&& c.total_requests == 0 ==> c.total_bytes == 0
    &&& c.labels.len() == c.counts.len()
    &&& distinct(c.labels)
    &&& sum_counts(c.counts, c.counts.len() as int) == c.total_requests
    &&& forall|i: int| 0 <= i < c.counts.len() ==> #[trigger] c.counts[i] >= 1
    &&& default_layout(c.success_latency)
    &&& default_layout(c.error_latency)
}

/// One count is at most the sum of the counts up to and including it.
pub proof fn lemma_count_within_sum(counts: Seq<usize>, i: int, n: int)
    requires
        0 <= i < n <= counts.len(),
    ensures
        counts[i] <= sum_counts(counts, n),
    decreases n,
{
    if i < n - 1 {
        lemma_count_within_sum(counts, i, n - 1);
    }
}

/// One more at place `i` is one more in the sum of the counts from there on.
pub proof fn lemma_sum_counts_update(counts: Seq<usize>, i: int, value: usize, n: int)
    requires
        0 <= i < counts.len(),
        0 <= n <= counts.len(),
    ensures
        sum_counts(counts.update(i, value), n) == if i < n {
            sum_counts(counts, n) - counts[i] + value
        } else {
            sum_counts(counts, n) as int
        },
    decreases n,
{
    if n > 0 {
        lemma_sum_counts_update(counts, i, value, n - 1);
        if i < n - 1 {
            lemma_count_within_sum(counts, i, n - 1);
        }
    }
}

/// A new count at the end changes no sum of the counts before it.
pub proof fn lemma_sum_counts_before_push(counts: Seq<usize>, value: usize, n: int)
    requires
        0 <= n <= counts.len(),
    ensures
        sum_counts(counts.push(value), n) == sum_counts(counts, n),
    decreases n,
{
    if n > 0 {
        lemma_sum_counts_before_push(counts, value, n - 1);
    }
}

/// A new count at the end is added to the sum of all counts.
pub proof fn lemma_sum_counts_push(counts: Seq<usize>, value: usize)
    ensures
        sum_counts(counts.push(value), counts.len() as int + 1) == sum_counts(
            counts,
            counts.len() as int,
        ) + value,
{
    lemma_sum_counts_before_push(counts, value, counts.len() as int);
    assert(counts.push(value)[counts.len() as int] == value);
}

/// Counters that have seen no call are consistent.
pub(crate) proof fn lemma_no_calls_consistent()
    requires
        layout_facts(),
    ensures
        consistent(no_calls()),
        has_room(no_calls()),
{
    lemma_empty_buckets_hold_nothing();
}

/// One more call keeps the counters consistent: every call is counted once
/// as a request, once as a success or as a failure, and once under its
/// status label.
pub proof fn lemma_recorded_consistent(c: CounterSet, o: Outcome)
    requires
        consistent(c),
    ensures
        consistent(recorded(c, o)),
        has_room(c) ==> recorded(c, o).total_requests == c.total_requests + 1,
        !has_room(c) ==> recorded(c, o) == c,
{
    if has_room(c) {
        let r = recorded(c, o);
        let value = latency_of(o);
        let slot = slot_of(value);
        assert(0 <= slot < c.success_latency.len());
        assert(0 <= slot < c.error_latency.len());
        if o.success {
            lemma_count_within_samples(
                c.success_latency,
                slot,
                c.success_latency.len() as int,
            );
            lemma_samples_with_added(
                c.success_latency,
                slot,
                1,
                c.success_latency.len() as int,
            );
            lemma_layout_with_added(c.success_latency, slot, 1);
        } else {
            lemma_count_within_samples(
                c.error_latency,
                slot,
                c.error_latency.len() as int,
            );
            lemma_samples_with_added(
                c.error_latency,
                slot,
                1,
                c.error_latency.len() as int,
            );
            lemma_layout_with_added(c.error_latency, slot, 1);
        }
        let place = place_of(c.labels, o.status);
        lemma_place_of(c.labels, o.status);
        if place < c.labels.len() {
            lemma_count_within_sum(c.counts, place, c.counts.len() as int);
            lemma_sum_counts_update(
                c.counts,
                place,
                (c.counts[place] + 1) as usize,
                c.counts.len() as int,
            );
            assert forall|i: int| 0 <= i < r.counts.len() implies #[trigger] r.counts[i] >= 1 by {
                assert(c.counts[i] >= 1);
            }
        } else {
            lemma_sum_counts_push(c.counts, 1);
            assert forall|i: int| 0 <= i < r.counts.len() implies #[trigger] r.counts[i] >= 1 by {
                if i < c.counts.len() {
                    assert(c.counts[i] >= 1);
                }
            }
            assert forall|i: int, j: int|
                0 <= i < r.labels.len() && 0 <= j < r.labels.len() && #[trigger] r.labels[i]
                    == #[trigger] r.labels[j] implies i == j by {
                if i < c.labels.len() {
                    assert(c.labels[i] == r.labels[i]);
                }
                if j < c.labels.len() {
                    assert(c.labels[j] == r.labels[j]);
                }
            }
        }
    }
}

/// How often the status `label` was seen.
pub open spec fn occurrences(c: CounterSet, label: Seq<char>) -> nat {
    let place = place_of(c.labels, label);
    if place < c.labels.len() {
        c.counts[place] as nat
    } else {
        0
    }
}

/// Number of calls that succeeded whose time is counted in bucket `slot`.
pub open spec fn successes_at(c: CounterSet, slot: int) -> nat {
    if 0 <= slot < c.success_latency.len() {
        c.success_latency[slot].count as nat
    } else {
        0
    }
}

/// Number of calls that failed whose time is counted in bucket `slot`.
pub open spec fn failures_at(c: CounterSet, slot: int) -> nat {
    if 0 <= slot < c.error_latency.len() {
        c.error_latency[slot].count as nat
    } else {
        0
    }
}

/// One more call is one more occurrence of its status, and of no other.
pub proof fn lemma_recorded_occurrences(c: CounterSet, o: Outcome, label: Seq<char>)
    requires
        consistent(c),
        has_room(c),
    ensures
        occurrences(recorded(c, o), label) == occurrences(c, label) + if label == o.status {
            1nat
        } else {
            0nat
        },
{
    let place = place_of(c.labels, o.status);
    lemma_place_of(c.labels, o.status);
    lemma_place_of(c.labels, label);
    if place < c.labels.len() {
        lemma_count_within_sum(c.counts, place, c.counts.len() as int);
        if label != o.status && place_of(c.labels, label) < c.labels.len() {
            assert(c.labels[place_of(c.labels, label)] == label);
        }
    } else {
        lemma_place_of_push(c.labels, o.status, label);
    }
}

/// One more call is one more sample in the bucket of its time, in the
/// histogram of its kind, and in no other bucket.
pub proof fn lemma_recorded_samples(c: CounterSet, o: Outcome, slot: int)
    requires
        consistent(c),
        has_room(c),
    ensures
        successes_at(recorded(c, o), slot) == successes_at(c, slot) + if o.success && slot
            == slot_of(latency_of(o)) {
            1nat
        } else {
            0nat
        },
        failures_at(recorded(c, o), slot) == failures_at(c, slot) + if !o.success && slot
            == slot_of(latency_of(o)) {
            1nat
        } else {
            0nat
        },
{
    let at = slot_of(latency_of(o));
    assert(0 <= at < c.success_latency.len());
    assert(0 <= at < c.error_latency.len());
    lemma_count_within_samples(c.success_latency, at, c.success_latency.len() as int);
    lemma_count_within_samples(c.error_latency, at, c.error_latency.len() as int);
}

/// Counters that have counted no call hold nothing: no byte, no success,
/// no occurrence of a status and no sample.
pub proof fn lemma_nothing_counted(c: CounterSet, label: Seq<char>, slot: int)
    requires
        consistent(c),
        c.total_requests == 0,
    ensures
        c.total_bytes == 0,
        c.successful_requests == 0,
        occurrences(c, label) == 0,
        successes_at(c, slot) == 0,
        failures_at(c, slot) == 0,
{
    let place = place_of(c.labels, label);
    lemma_place_of(c.labels, label);
    if place < c.labels.len() {
        lemma_count_within_sum(c.counts, place, c.counts.len() as int);
        assert(c.counts[place] >= 1);
    }
    if 0 <= slot < c.success_latency.len() {
        lemma_count_within_samples(c.success_latency, slot, c.success_latency.len() as int);
    }
    if 0 <= slot < c.error_latency.len() {
        lemma_count_within_samples(c.error_latency, slot, c.error_latency.len() as int);
    }
}

/// The counters after the first `n` of `outcomes` were counted, in their
/// order.
pub open spec fn recorded_all(c: CounterSet, outcomes: Seq<Outcome>, n: int) -> CounterSet
    decreases n,
{
    if n <= 0 || n > outcomes.len() {
        c
    } else {
        recorded(recorded_all(c, outcomes, n - 1), outcomes[n - 1])
    }
}

/// Whatever calls are counted, and in whatever order: the requests are the
/// successes and the failures together, and the counts of the status
/// labels add up to the requests.
pub proof fn lemma_recorded_all_consistent(c: CounterSet, outcomes: Seq<Outcome>, n: int)
    requires
        consistent(c),
        0 <= n <= outcomes.len(),
    ensures
        consistent(recorded_all(c, outcomes, n)),
        recorded_all(c, outcomes, n).total_requests == recorded_all(
            c,
            outcomes,
            n,
        ).successful_requests + samples(recorded_all(c, outcomes, n).error_latency),
        sum_counts(
            recorded_all(c, outcomes, n).counts,
            recorded_all(c, outcomes, n).counts.len() as int,
        ) == recorded_all(c, outcomes, n).total_requests,
    decreases n,
{
    if n > 0 {
        lemma_recorded_all_consistent(c, outcomes, n - 1);
        lemma_recorded_consistent(recorded_all(c, outcomes, n - 1), outcomes[n - 1]);
    }
}

} // verus!
