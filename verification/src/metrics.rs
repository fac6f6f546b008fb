//! Counters and latency histograms of a run, for all calls together and for
//! each named operation.

use crate::aggregate::{
    balanced, lemma_no_run_balanced, lemma_reported_balanced, no_run, reported, Aggregate,
};
use crate::buckets::samples;
use crate::clock::{clock_now, duration_nanos, nanos_of};
use crate::counters::{
    consistent, has_room, lemma_count_within_sum, lemma_no_calls_consistent,
    lemma_recorded_consistent, no_calls, recorded, CounterSet, Outcome,
};
use crate::latency::{LatencyHistogram, MAX_VALUE, SAMPLE_CAPACITY};
use crate::names::{lemma_place_of, place_of, NameTable};
use crate::rank::{lower_cut, truncated_mean_of, upper_cut, within_cuts, HALF};
use std::time::Duration;
use std::time::Instant;
use vstd::prelude::*;

pub use crate::report::{
    BenchRunReport, BenchRunReportItem, DefaultConsoleReporter, ExternalMetricsServiceReporter,
};

verus! {

/// What one call came to.
#[derive(Debug)]
pub struct RequestStats {
    pub is_success: bool,
    pub bytes_processed: usize,
    pub status: String,
    pub duration: Duration,
    pub operation_name: Option<String>,
    pub fatal_error: bool,
}

impl View for RequestStats {
    type V = Outcome;

    open spec fn view(&self) -> Outcome {
        Outcome {
            success: self.is_success,
            bytes: self.bytes_processed,
            status: self.status@,
            micros: nanos_of(self.duration) / 1000,
            operation: match self.operation_name {
                Some(name) => Some(name@),
                None => None,
            },
            fatal: self.fatal_error,
        }
    }
}

/// The counters and histograms of all calls, or of the calls of one
/// operation, since `bench_begin`.
pub struct BenchRunMetricsItem {
    bench_begin: Instant,
    total_bytes: usize,
    total_requests: usize,
    successful_requests: usize,
    labels: NameTable,
    counts: Vec<usize>,
    success_latency: LatencyHistogram,
    error_latency: LatencyHistogram,
}

impl View for BenchRunMetricsItem {
    type V = CounterSet;

    closed spec fn view(&self) -> CounterSet {
        CounterSet {
            total_bytes: self.total_bytes,
            total_requests: self.total_requests,
            successful_requests: self.successful_requests,
            labels: self.labels@,
            counts: self.counts@,
            success_latency: self.success_latency@,
            error_latency: self.error_latency@,
        }
    }
}

impl BenchRunMetricsItem {
    /// The item was made by [`BenchRunMetricsItem::new`] and changed only by
    /// [`BenchRunMetricsItem::report_request`].
    pub closed spec fn wf(&self) -> bool {
        &&& self.labels.wf()
        &&& self.success_latency.wf()
        &&& self.error_latency.wf()
        &&& consistent(self@)
    }

    /// The counters of an item are consistent.
    pub proof fn lemma_consistent(&self)
        requires
            self.wf(),
        ensures
            consistent(self@),
    {
    }

    /// Counters that have seen no call, with the clock's reading as the
    /// time at which they begin.
    pub fn new() -> (item: Self)
        ensures
            item.wf(),
            item@ == no_calls(),
    {
        let success_latency = LatencyHistogram::new();
        let error_latency = LatencyHistogram::new();
        proof {
            success_latency.lemma_wf();
            lemma_no_calls_consistent();
        }
        BenchRunMetricsItem {
            bench_begin: clock_now(),
            total_bytes: 0,
            total_requests: 0,
            successful_requests: 0,
            labels: NameTable::new(),
            counts: Vec::new(),
            success_latency,
            error_latency,
        }
    }

    /// Counts one call: as a request, as a success or a failure with its
    /// time, with its bytes, and under its status label.
    pub fn report_request(&mut self, stats: &RequestStats)
        requires
            old(self).wf(),
        ensures
            final(self).wf(),
            final(self)@ == recorded(old(self)@, stats@),
            final(self).begin() == old(self).begin(),
    {
        proof {
            lemma_recorded_consistent(self@, stats@);
            self.success_latency.lemma_wf();
            self.error_latency.lemma_wf();
            lemma_place_of(self.labels@, stats.status@);
        }
        if self.is_full() {
            return;
        }
        self.total_requests = self.total_requests + 1;
        let micros: u128 = duration_nanos(&stats.duration) / 1000;
        let value: u64 = if micros > MAX_VALUE as u128 {
            MAX_VALUE
        } else {
            micros as u64
        };
        if stats.is_success {
            self.successful_requests = self.successful_requests + 1;
            self.success_latency.increment(value);
        } else {
            self.error_latency.increment(value);
        }
        self.total_bytes = if stats.bytes_processed > usize::MAX - self.total_bytes {
            usize::MAX
        } else {
            self.total_bytes + stats.bytes_processed
        };
        match self.labels.find(stats.status.as_str()) {
            Some(place) => {
                proof {
                    lemma_count_within_sum(self.counts@, place as int, self.counts@.len() as int);
                }
                let count = self.counts[place];
                self.counts.set(place, count + 1);
            },
            None => {
                self.labels.add(stats.status.clone());
                self.counts.push(1);
            },
        }
        assert(self@.counts =~= recorded(old(self)@, stats@).counts);
        assert(self@.labels =~= recorded(old(self)@, stats@).labels);
    }

    /// Whether the counters take no more calls.
    pub fn is_full(&self) -> (full: bool)
        ensures
            full == !has_room(self@),
    {
        self.total_requests == usize::MAX || self.total_requests as u64 >= SAMPLE_CAPACITY
    }

    /// The time at which the counters began.
    pub fn bench_begin(&self) -> (begin: &Instant)
        ensures
            *begin == self.begin(),
    {
        &self.bench_begin
    }

    /// The time at which the counters began.
    pub closed spec fn begin(&self) -> Instant {
        self.bench_begin
    }

    /// Number of bytes that the calls processed.
    pub fn total_bytes(&self) -> (n: usize)
        ensures
            n == self@.total_bytes,
    {
        self.total_bytes
    }

    /// Number of calls.
    pub fn total_requests(&self) -> (n: usize)
        ensures
            n == self@.total_requests,
    {
        self.total_requests
    }

    /// Number of calls that succeeded.
    pub fn successful_requests(&self) -> (n: usize)
        ensures
            n == self@.successful_requests,
    {
        self.successful_requests
    }

    /// Number of calls that failed.
    pub fn failed_requests(&self) -> (n: usize)
        requires
            self.wf(),
        ensures
            n == self@.total_requests - self@.successful_requests,
            n == samples(self@.error_latency),
    {
        self.total_requests - self.successful_requests
    }

    /// Number of status labels seen.
    pub fn status_count(&self) -> (n: usize)
        requires
            self.wf(),
        ensures
            n == self@.labels.len(),
            n == self@.counts.len(),
    {
        self.counts.len()
    }

    /// The status label at place `i`, in the order of first sight.
    pub fn status_label(&self, i: usize) -> (label: &String)
        requires
            self.wf(),
            i < self@.labels.len(),
        ensures
            label@ == self@.labels[i as int],
    {
        self.labels.name(i)
    }

    /// How often the status label at place `i` was seen.
    pub fn status_occurrences(&self, i: usize) -> (n: usize)
        requires
            self.wf(),
            i < self@.counts.len(),
        ensures
            n == self@.counts[i as int],
    {
        self.counts[i]
    }

    /// The times of the calls that succeeded.
    pub fn success_latency(&self) -> (h: &LatencyHistogram)
        requires
            self.wf(),
        ensures
            h.wf(),
            h@ == self@.success_latency,
    {
        &self.success_latency
    }

    /// The times of the calls that failed.
    pub fn error_latency(&self) -> (h: &LatencyHistogram)
        requires
            self.wf(),
        ensures
            h.wf(),
            h@ == self@.error_latency,
    {
        &self.error_latency
    }

    /// The mean of the samples of `histogram` without its tails: those
    /// below the percentile at `threshold` and above the one at one hundred
    /// percent less `threshold`, in hundredths of a percent. It is 0 where
    /// no sample is left.
    pub fn truncated_mean(histogram: &LatencyHistogram, threshold: u32) -> (mean: u64)
        requires
            histogram.wf(),
        ensures
            mean == truncated_mean_of(histogram@, threshold as nat).mean,
            truncated_mean_of(histogram@, threshold as nat).kept > 0 ==> lower_cut(
                histogram@,
                threshold as nat,
            ) <= mean <= upper_cut(histogram@, threshold as nat),
            threshold <= HALF ==> within_cuts(histogram@, threshold as nat),
    {
        histogram.truncated_mean(threshold).mean
    }
}

/// The same counts in a vector of their own.
fn copy_counts(counts: &Vec<usize>) -> (copy: Vec<usize>)
    ensures
        copy@ == counts@,
{
    let mut copy: Vec<usize> = Vec::new();
    let mut i: usize = 0;
    while i < counts.len()
        invariant
            0 <= i <= counts.len(),
            copy@ == counts@.subrange(0, i as int),
        decreases counts.len() - i,
    {
        copy.push(counts[i]);
        i = i + 1;
        assert(copy@ =~= counts@.subrange(0, i as int));
    }
    assert(copy@ =~= counts@);
    copy
}

impl Clone for BenchRunMetricsItem {
    /// Counters of their own with the same counts, which began at the same
    /// time.
    fn clone(&self) -> (copy: Self)
        ensures
            self.wf() ==> copy.wf() && copy@ == self@ && copy.begin() == self.begin(),
    {
        BenchRunMetricsItem {
            bench_begin: self.bench_begin,
            total_bytes: self.total_bytes,
            total_requests: self.total_requests,
            successful_requests: self.successful_requests,
            labels: self.labels.clone(),
            counts: copy_counts(&self.counts),
            success_latency: self.success_latency.clone(),
            error_latency: self.error_latency.clone(),
        }
    }
}

/// The metrics of a run: every call goes into the combined counters, and
/// into those of the operation that it names.
pub struct BenchRunMetrics {
    combined: BenchRunMetricsItem,
    operations: NameTable,
    items: Vec<BenchRunMetricsItem>,
    unnamed: Ghost<CounterSet>,
}

impl View for BenchRunMetrics {
    type V = Aggregate;

    closed spec fn view(&self) -> Aggregate {
        Aggregate {
            combined: self.combined@,
            operations: self.operations@,
            by_operation: Seq::new(self.items@.len(), |i: int| self.items@[i]@),
            unnamed: self.unnamed@,
        }
    }
}

impl BenchRunMetrics {
    /// The time at which the combined counters began.
    pub closed spec fn combined_begin(&self) -> Instant {
        self.combined.begin()
    }

    /// The times at which the counters of the operations began, in the
    /// order of the operations.
    pub closed spec fn operation_begins(&self) -> Seq<Instant> {
        Seq::new(self.items@.len(), |i: int| self.items@[i].begin())
    }

    /// The metrics of `after` began when those of `self` began: the
    /// combined counters, and the counters of each operation that `self`
    /// holds.
    pub open spec fn begins_kept(&self, after: &BenchRunMetrics) -> bool {
        &&& after.combined_begin() == self.combined_begin()
        &&& after.operation_begins().len() >= self.operation_begins().len()
        &&& forall|i: int|
            0 <= i < self.operation_begins().len() ==> #[trigger] after.operation_begins()[i]
                == self.operation_begins()[i]
    }

    /// The metrics were made by [`BenchRunMetrics::new`] and changed only by
    /// [`BenchRunMetrics::report_request`].
    pub closed spec fn wf(&self) -> bool {
        &&& self.combined.wf()
        &&& self.operations.wf()
        &&& forall|i: int| 0 <= i < self.items@.len() ==> (#[trigger] self.items@[i]).wf()
        &&& balanced(self@)
    }

    /// The counters of the metrics are balanced.
    pub proof fn lemma_balanced(&self)
        requires
            self.wf(),
        ensures
            balanced(self@),
    {
    }

    /// The metrics of a run in which no call was made yet.
    pub fn new() -> (metrics: Self)
        ensures
            metrics.wf(),
            metrics@ == no_run(),
            metrics.operation_begins().len() == 0,
    {
        let combined = BenchRunMetricsItem::new();
        let metrics = BenchRunMetrics {
            combined,
            operations: NameTable::new(),
            items: Vec::new(),
            unnamed: Ghost(no_calls()),
        };
        proof {
            metrics.combined.lemma_consistent();
            lemma_no_run_balanced();
            assert(metrics@.by_operation =~= no_run().by_operation);
        }
        metrics
    }

    /// Counts one call in the combined counters and, where it names an
    /// operation, in the counters of that operation.
    pub fn report_request(&mut self, stats: RequestStats)
        requires
            old(self).wf(),
        ensures
            final(self).wf(),
            final(self)@ == reported(old(self)@, stats@),
            old(self).begins_kept(final(self)),
            final(self).operation_begins().len() == final(self)@.by_operation.len(),
    {
        proof {
            lemma_reported_balanced(self@, stats@);
        }
        if self.combined.is_full() {
            return;
        }
        let ghost before = self@;
        self.combined.report_request(&stats);
        match &stats.operation_name {
            Some(name) => {
                proof {
                    lemma_place_of(self.operations@, name@);
                }
                match self.operations.find(name.as_str()) {
                    Some(place) => {
                        self.items[place].report_request(&stats);
                        assert(self@.by_operation =~= reported(before, stats@).by_operation);
                    },
                    None => {
                        let mut item = BenchRunMetricsItem::new();
                        item.report_request(&stats);
                        self.operations.add(name.clone());
                        self.items.push(item);
                        assert(self@.by_operation =~= reported(before, stats@).by_operation);
                    },
                }
            },
            None => {
                self.unnamed = Ghost(reported(before, stats@).unnamed);
                assert(self@.by_operation =~= reported(before, stats@).by_operation);
            },
        }
    }

    /// The counters of all calls.
    pub fn combined(&self) -> (item: &BenchRunMetricsItem)
        requires
            self.wf(),
        ensures
            item.wf(),
            item@ == self@.combined,
            item.begin() == self.combined_begin(),
    {
        &self.combined
    }

    /// Number of operations that calls have named.
    pub fn operation_count(&self) -> (n: usize)
        requires
            self.wf(),
        ensures
            n == self@.operations.len(),
            n == self@.by_operation.len(),
    {
        self.items.len()
    }

    /// The name of the operation at place `i`, in the order of first sight.
    pub fn operation_name(&self, i: usize) -> (name: &String)
        requires
            self.wf(),
            i < self@.operations.len(),
        ensures
            name@ == self@.operations[i as int],
    {
        self.operations.name(i)
    }

    /// The counters of the operation at place `i`.
    pub fn operation(&self, i: usize) -> (item: &BenchRunMetricsItem)
        requires
            self.wf(),
            i < self@.by_operation.len(),
        ensures
            item.wf(),
            item@ == self@.by_operation[i as int],
            i < self.operation_begins().len(),
            item.begin() == self.operation_begins()[i as int],
    {
        &self.items[i]
    }

    /// The counters of the operation `name`, where a call has named it.
    pub fn by_operation(&self, name: &str) -> (item: Option<&BenchRunMetricsItem>)
        requires
            self.wf(),
        ensures
            match item {
                Some(found) => place_of(self@.operations, name@) < self@.operations.len()
                    && found.wf() && found@ == self@.by_operation[place_of(
                    self@.operations,
                    name@,
                )] && place_of(self@.operations, name@) < self.operation_begins().len()
                    && found.begin() == self.operation_begins()[place_of(
                    self@.operations,
                    name@,
                )],
                None => !self@.operations.contains(name@),
            },
    {
        match self.operations.find(name) {
            Some(place) => Some(&self.items[place]),
            None => None,
        }
    }
}

impl Clone for BenchRunMetrics {
    /// Metrics of their own with the same counters, which began at the
    /// same times.
    fn clone(&self) -> (copy: Self)
        ensures
            self.wf() ==> copy.wf() && copy@ == self@ && copy.combined_begin()
                == self.combined_begin() && copy.operation_begins() == self.operation_begins(),
    {
        let mut items: Vec<BenchRunMetricsItem> = Vec::new();
        let mut i: usize = 0;
        while i < self.items.len()
            invariant
                0 <= i <= self.items@.len(),
                items@.len() == i,
                self.wf() ==> forall|k: int|
                    0 <= k < i ==> (#[trigger] items@[k]).wf() && items@[k]@ == self.items@[k]@
                        && items@[k].begin() == self.items@[k].begin(),
            decreases self.items.len() - i,
        {
            let item = self.items[i].clone();
            items.push(item);
            i = i + 1;
        }
        let copy = BenchRunMetrics {
            combined: self.combined.clone(),
            operations: self.operations.clone(),
            items,
            unnamed: Ghost(self.unnamed@),
        };
        assert(self.wf() ==> copy@.by_operation =~= self@.by_operation);
        assert(self.wf() ==> copy.operation_begins() =~= self.operation_begins());
        copy
    }
}

} // verus!
