//! The report of a run: the counters of the metrics with the rates, the
//! summary of status labels and the summary of latencies derived from them.

use crate::aggregate::Aggregate;
use crate::buckets::{samples, values_rise, Bucket};
use crate::clock::{clock_elapsed, duration_nanos, nanos_of};
use crate::counters::CounterSet;
use crate::latency::{
    both_merged, layout_facts, lemma_both_merged_either_way, mean_of, stddev_of,
    LatencyHistogram,
};
use crate::metrics::{BenchRunMetrics, BenchRunMetricsItem};
use crate::names::{place_of, NameTable};
use crate::rank::{
    lemma_percentiles_in_order, lemma_truncated_mean_within, percentile_in, percentile_of,
    truncated_mean_of,
};
use crate::status_summary::{line_total, lines_hold, lines_of, sorted_summary, strictly_in_order};
use std::time::Duration;
use vstd::prelude::*;

verus! {

/// `n`, or `u64::MAX` where it is larger.
pub open spec fn capped_u64(n: nat) -> u64 {
    if n > u64::MAX {
        u64::MAX
    } else {
        n as u64
    }
}

/// The whole number nearest to `numerator / denominator`, the upper one of
/// two that are equally near.
pub open spec fn nearest(numerator: nat, denominator: nat) -> nat {
    numerator / denominator + if 2 * (numerator % denominator) >= denominator {
        1nat
    } else {
        0nat
    }
}

/// Share of the calls that succeeded, in thousandths of a percent and
/// rounded to the nearest; none where no call was made.
pub open spec fn success_rate_of(c: CounterSet) -> Option<u64> {
    if c.total_requests == 0 {
        None
    } else {
        Some(capped_u64(nearest(c.successful_requests as nat * 100_000, c.total_requests as nat)))
    }
}

/// Calls a second in thousandths, rounded to the nearest, for `requests`
/// calls in `nanos` nanoseconds; none for no time at all.
pub open spec fn rate_of(requests: usize, nanos: nat) -> Option<u64> {
    if nanos == 0 {
        None
    } else {
        Some(capped_u64(nearest(requests as nat * 1_000_000_000_000, nanos)))
    }
}

/// Bits a second, rounded to the nearest, for `bytes` bytes in `nanos`
/// nanoseconds; none for no time at all.
pub open spec fn bitrate_of(bytes: usize, nanos: nat) -> Option<u64> {
    if nanos == 0 {
        None
    } else {
        Some(capped_u64(nearest(bytes as nat * 8_000_000_000, nanos)))
    }
}

/// `numerator * scale / denominator`, rounded to the nearest whole number
/// and at most `u64::MAX`; none where the denominator is 0.
pub fn scaled_ratio(numerator: u64, scale: u64, denominator: u128) -> (ratio: Option<u64>)
    ensures
        ratio == if denominator == 0 {
            None
        } else {
            Some(capped_u64(nearest(numerator as nat * scale as nat, denominator as nat)))
        },
{
    if denominator == 0 {
        return None;
    }
    assert(numerator * scale <= u64::MAX * u64::MAX) by (nonlinear_arith)
        requires
            numerator <= u64::MAX,
            scale <= u64::MAX,
    ;
    let product: u128 = numerator as u128 * scale as u128;
    let quotient: u128 = product / denominator;
    let rest: u128 = product % denominator;
    let rounded: u128 = if rest >= denominator - rest {
        quotient + 1
    } else {
        quotient
    };
    if rounded > u64::MAX as u128 {
        Some(u64::MAX)
    } else {
        Some(rounded as u64)
    }
}

/// One line of the summary of latencies.
pub struct LatencyRow {
    pub label: Seq<char>,
    pub value: u64,
}

/// The summary of latencies of the samples in `b`, in microseconds: the
/// least and the greatest, five percentiles, the mean and the standard
/// deviation, and the means without the outer five percent, one percent and
/// tenth of a percent at each end.
pub open spec fn latency_rows(b: Seq<Bucket>) -> Seq<LatencyRow> {
    seq![
        LatencyRow { label: "Min"@, value: percentile_of(b, 0) },
        LatencyRow { label: "p50"@, value: percentile_of(b, 5_000) },
        LatencyRow { label: "p90"@, value: percentile_of(b, 9_000) },
        LatencyRow { label: "p99"@, value: percentile_of(b, 9_900) },
        LatencyRow { label: "p99.9"@, value: percentile_of(b, 9_990) },
        LatencyRow { label: "p99.99"@, value: percentile_of(b, 9_999) },
        LatencyRow { label: "Max"@, value: percentile_of(b, 10_000) },
        LatencyRow { label: "Mean"@, value: mean_of(b) },
        LatencyRow { label: "StdDev"@, value: stddev_of(b) },
        LatencyRow { label: "tm95"@, value: truncated_mean_of(b, 500).mean },
        LatencyRow { label: "tm99"@, value: truncated_mean_of(b, 100).mean },
        LatencyRow { label: "tm99.9"@, value: truncated_mean_of(b, 10).mean },
    ]
}

/// The rows of a summary of latencies stand in the order of their
/// percentages, from the least sample to the greatest, and each of the
/// three truncated means lies between the least and the greatest.
pub open spec fn rows_in_order(rows: Seq<LatencyRow>) -> bool {
    &&& rows.len() == 12
    &&& rows[0].value <= rows[1].value <= rows[2].value <= rows[3].value
    &&& rows[3].value <= rows[4].value <= rows[5].value <= rows[6].value
    &&& rows[0].value <= rows[9].value <= rows[6].value
    &&& rows[0].value <= rows[10].value <= rows[6].value
    &&& rows[0].value <= rows[11].value <= rows[6].value
}

/// Every row of a summary of latencies is 0.
pub open spec fn rows_are_zero(rows: Seq<LatencyRow>) -> bool {
    forall|i: int| 0 <= i < rows.len() ==> (#[trigger] rows[i]).value == 0
}

/// Where the values of the buckets never fall, the rows of the summary of
/// their latencies stand in order; without samples every row is 0, as far
/// as the mean and the standard deviation of no samples are.
pub proof fn lemma_latency_rows_in_order(b: Seq<Bucket>)
    requires
        values_rise(b),
        samples(b) <= u64::MAX,
    ensures
        rows_in_order(latency_rows(b)),
        samples(b) == 0 && mean_of(b) == 0 && stddev_of(b) == 0 ==> rows_are_zero(
            latency_rows(b),
        ),
{
    lemma_percentiles_in_order(b, 0, 5_000);
    lemma_percentiles_in_order(b, 5_000, 9_000);
    lemma_percentiles_in_order(b, 9_000, 9_900);
    lemma_percentiles_in_order(b, 9_900, 9_990);
    lemma_percentiles_in_order(b, 9_990, 9_999);
    lemma_percentiles_in_order(b, 9_999, 10_000);
    lemma_truncated_mean_within(b, 500);
    lemma_truncated_mean_within(b, 100);
    lemma_truncated_mean_within(b, 10);
}

/// The lines of a summary of latencies.
pub open spec fn rows_of(pairs: Seq<(String, u64)>) -> Seq<LatencyRow> {
    Seq::new(pairs.len(), |i: int| LatencyRow { label: pairs[i].0@, value: pairs[i].1 })
}

/// The latencies of all calls of the counters: those of the calls that
/// succeeded and those of the calls that failed, both merged into empty
/// buckets. The store counts what it merges at the nominal value of its
/// bucket; so it does here with both kinds, and neither is favoured.
pub open spec fn all_latencies(c: CounterSet) -> Seq<Bucket> {
    both_merged(c.success_latency, c.error_latency)
}

/// The summary of latencies does not tell the calls that succeeded from
/// those that failed: counters with the two histograms changed over have
/// the same summary.
pub proof fn lemma_summary_either_way(c: CounterSet, d: CounterSet)
    requires
        layout_facts(),
        d.success_latency == c.error_latency,
        d.error_latency == c.success_latency,
    ensures
        all_latencies(c) == all_latencies(d),
        latency_rows(all_latencies(c)) == latency_rows(all_latencies(d)),
{
    lemma_both_merged_either_way(c.success_latency, c.error_latency);
}

/// The report of one set of counters.
pub struct BenchRunReportItem {
    pub test_case_name: Option<String>,
    /// Time from the begin of the counters to the report.
    pub duration: Duration,
    pub total_bytes: usize,
    pub total_requests: usize,
    /// Share of the calls that succeeded, in thousandths of a percent;
    /// none where no call was made.
    pub success_rate: Option<u64>,
    /// Calls a second, in thousandths; none where no time has passed.
    pub rate_per_second: Option<u64>,
    /// Bits a second; none where no time has passed.
    pub bits_per_second: Option<u64>,
    pub response_code_summary: Vec<(String, usize)>,
    pub latency_summary: Vec<(String, u64)>,
}

/// The name under which a reporter without a name of its own reports.
pub open spec fn default_name() -> Seq<char> {
    "perf-gauge"@
}

impl BenchRunReportItem {
    /// The item is the report of the counters `c` under the name `name`,
    /// for the time that it gives as its duration.
    pub open spec fn reports(&self, name: Option<Seq<char>>, c: CounterSet) -> bool {
        &&& self.test_case_name is Some
        &&& self.test_case_name->0@ == match name {
            Some(given) => given,
            None => default_name(),
        }
        &&& self.total_bytes == c.total_bytes
        &&& self.total_requests == c.total_requests
        &&& self.success_rate == success_rate_of(c)
        &&& self.rate_per_second == rate_of(c.total_requests, nanos_of(self.duration))
        &&& self.bits_per_second == bitrate_of(c.total_bytes, nanos_of(self.duration))
        &&& strictly_in_order(lines_of(self.response_code_summary@))
        &&& lines_hold(
            lines_of(self.response_code_summary@),
            c.labels,
            c.counts,
            c.labels.len() as int,
        )
        &&& line_total(
            lines_of(self.response_code_summary@),
            self.response_code_summary@.len() as int,
        ) == c.total_requests
        &&& rows_of(self.latency_summary@) == latency_rows(all_latencies(c))
        &&& rows_in_order(rows_of(self.latency_summary@))
        &&& c.total_requests == 0 ==> rows_are_zero(rows_of(self.latency_summary@))
    }

    /// The status labels of `metrics` with their counts: the most frequent
    /// first, and labels of one count in ascending order.
    pub fn summary_ordered(metrics: &BenchRunMetricsItem) -> (pairs: Vec<(String, usize)>)
        requires
            metrics.wf(),
        ensures
            strictly_in_order(lines_of(pairs@)),
            lines_hold(
                lines_of(pairs@),
                metrics@.labels,
                metrics@.counts,
                metrics@.labels.len() as int,
            ),
            line_total(lines_of(pairs@), pairs@.len() as int) == metrics@.total_requests,
    {
        sorted_summary(metrics)
    }

    /// The summary of the latencies of all calls of `metrics`, those that
    /// succeeded and those that failed together.
    pub fn latency_summary(metrics: &BenchRunMetricsItem) -> (pairs: Vec<(String, u64)>)
        requires
            metrics.wf(),
        ensures
            rows_of(pairs@) == latency_rows(all_latencies(metrics@)),
            rows_in_order(rows_of(pairs@)),
            metrics@.total_requests == 0 ==> rows_are_zero(rows_of(pairs@)),
    {
        proof {
            metrics.lemma_consistent();
        }
        let latency = match metrics.success_latency().combined_with(metrics.error_latency()) {
            Some(all) => all,
            None => LatencyHistogram::new(),
        };
        let ghost b = latency@;
        proof {
            latency.lemma_wf();
            lemma_latency_rows_in_order(b);
        }
        let buckets = latency.buckets();
        let total = latency.count();
        let mut pairs: Vec<(String, u64)> = Vec::new();
        pairs.push(("Min".to_owned(), latency.minimum()));
        pairs.push(("p50".to_owned(), percentile_in(&buckets, total, 5_000)));
        pairs.push(("p90".to_owned(), percentile_in(&buckets, total, 9_000)));
        pairs.push(("p99".to_owned(), percentile_in(&buckets, total, 9_900)));
        pairs.push(("p99.9".to_owned(), percentile_in(&buckets, total, 9_990)));
        pairs.push(("p99.99".to_owned(), percentile_in(&buckets, total, 9_999)));
        pairs.push(("Max".to_owned(), latency.maximum()));
        pairs.push(("Mean".to_owned(), latency.mean()));
        pairs.push(("StdDev".to_owned(), latency.stddev()));
        pairs.push(("tm95".to_owned(), BenchRunMetricsItem::truncated_mean(&latency, 500)));
        pairs.push(("tm99".to_owned(), BenchRunMetricsItem::truncated_mean(&latency, 100)));
        pairs.push(("tm99.9".to_owned(), BenchRunMetricsItem::truncated_mean(&latency, 10)));
        assert(rows_of(pairs@) =~= latency_rows(b));
        pairs
    }
}

/// The reports of the operations of a run, under their names.
pub struct OperationReports {
    names: NameTable,
    items: Vec<BenchRunReportItem>,
}

impl OperationReports {
    /// The names of the operations, in the order in which the run saw them.
    pub closed spec fn names(&self) -> Seq<Seq<char>> {
        self.names@
    }

    /// The reports of the operations, in the order of their names.
    pub closed spec fn items(&self) -> Seq<BenchRunReportItem> {
        self.items@
    }

    /// Every name has its report.
    pub closed spec fn wf(&self) -> bool {
        self.names.wf() && self.names@.len() == self.items@.len()
    }

    /// Number of operations.
    pub fn len(&self) -> (n: usize)
        requires
            self.wf(),
        ensures
            n == self.names().len(),
            n == self.items().len(),
    {
        self.items.len()
    }

    /// The name of the operation at place `i`.
    pub fn name(&self, i: usize) -> (name: &String)
        requires
            self.wf(),
            i < self.names().len(),
        ensures
            name@ == self.names()[i as int],
    {
        self.names.name(i)
    }

    /// The report of the operation at place `i`.
    pub fn item(&self, i: usize) -> (item: &BenchRunReportItem)
        requires
            self.wf(),
            i < self.items().len(),
        ensures
            *item == self.items()[i as int],
    {
        &self.items[i]
    }

    /// The report of the operation `name`, where the run saw it.
    pub fn get(&self, name: &str) -> (item: Option<&BenchRunReportItem>)
        requires
            self.wf(),
        ensures
            match item {
                Some(found) => place_of(self.names(), name@) < self.names().len() && *found
                    == self.items()[place_of(self.names(), name@)],
                None => !self.names().contains(name@),
            },
    {
        match self.names.find(name) {
            Some(place) => Some(&self.items[place]),
            None => None,
        }
    }
}

/// The report of a run.
pub struct BenchRunReport {
    pub combined: BenchRunReportItem,
    pub by_operation: OperationReports,
}

impl BenchRunReport {
    /// The report is that of the run `m` under the name `name`: the report
    /// of its combined counters, and one of each operation under its name.
    pub open spec fn reports(&self, name: Option<Seq<char>>, m: Aggregate) -> bool {
        &&& self.combined.reports(name, m.combined)
        &&& self.by_operation.wf()
        &&& self.by_operation.names() == m.operations
        &&& self.by_operation.items().len() == m.by_operation.len()
        &&& forall|i: int|
            0 <= i < m.by_operation.len() ==> (#[trigger] self.by_operation.items()[i]).reports(
                name,
                m.by_operation[i],
            )
    }
}

/// The error of std's input and output, which a reporter may answer with.
#[verifier::external_type_specification]
#[verifier::external_body]
pub struct ExIoError(std::io::Error);

/// A service that takes the metrics of a run while it goes on.
pub trait ExternalMetricsServiceReporter: Send + Sync {
    /// Whether `done` is an answer that the service may give when it is
    /// handed `metrics`. A service that says nothing of its answers may
    /// give any.
    open spec fn answers(&self, metrics: &BenchRunMetrics, done: std::io::Result<()>) -> bool {
        true
    }

    /// Hands the metrics to the service, and says whether it took them.
    fn report(&self, metrics: &BenchRunMetrics) -> (done: std::io::Result<()>)
        ensures
            self.answers(metrics, done),
    ;

    /// Has the service begin anew.
    fn reset_metrics(&self);
}

/// Makes the reports of a run, under the name of a test case.
pub struct DefaultConsoleReporter {
    test_case_name: Option<String>,
}

impl DefaultConsoleReporter {
    /// The name of the test case, where the reporter was given one.
    pub closed spec fn name(&self) -> Option<Seq<char>> {
        match self.test_case_name {
            Some(name) => Some(name@),
            None => None,
        }
    }

    /// A reporter for the test case `test_case_name`.
    pub fn new(test_case_name: Option<String>) -> (reporter: Self)
        ensures
            reporter.name() == match test_case_name {
                Some(name) => Some(name@),
                None => None,
            },
    {
        Self { test_case_name }
    }

    /// The name under which the reporter reports: that of its test case,
    /// or the default name.
    pub fn report_name(&self) -> (name: String)
        ensures
            name@ == match self.name() {
                Some(given) => given,
                None => default_name(),
            },
    {
        match &self.test_case_name {
            Some(name) => name.clone(),
            None => "perf-gauge".to_owned(),
        }
    }

    /// The report of `metrics` for a run that has taken `elapsed` so far.
    pub fn build_item_report_after(
        &self,
        metrics: &BenchRunMetricsItem,
        elapsed: Duration,
    ) -> (item: BenchRunReportItem)
        requires
            metrics.wf(),
        ensures
            item.duration == elapsed,
            item.reports(self.name(), metrics@),
    {
        let successful_requests = metrics.successful_requests();
        let total_requests = metrics.total_requests();
        let total_bytes = metrics.total_bytes();
        let nanos = duration_nanos(&elapsed);
        BenchRunReportItem {
            test_case_name: Some(self.report_name()),
            duration: elapsed,
            total_bytes,
            total_requests,
            success_rate: scaled_ratio(successful_requests as u64, 100_000, total_requests as u128),
            rate_per_second: scaled_ratio(total_requests as u64, 1_000_000_000_000, nanos),
            bits_per_second: scaled_ratio(total_bytes as u64, 8_000_000_000, nanos),
            response_code_summary: BenchRunReportItem::summary_ordered(metrics),
            latency_summary: BenchRunReportItem::latency_summary(metrics),
        }
    }

    /// The report of `metrics` at the time of the call: its duration is
    /// the time since the counters began, as the clock gives it.
    pub fn build_item_report(&self, metrics: &BenchRunMetricsItem) -> (item: BenchRunReportItem)
        requires
            metrics.wf(),
        ensures
            item.reports(self.name(), metrics@),
    {
        let elapsed = clock_elapsed(metrics.bench_begin());
        self.build_item_report_after(metrics, elapsed)
    }

    /// The report of the run at the time of the call.
    pub fn build_report(&self, metrics: &BenchRunMetrics) -> (report: BenchRunReport)
        requires
            metrics.wf(),
        ensures
            report.reports(self.name(), metrics@),
    {
        let n = metrics.operation_count();
        let mut names = NameTable::new();
        let mut items: Vec<BenchRunReportItem> = Vec::new();
        let mut i: usize = 0;
        proof {
            metrics.lemma_balanced();
        }
        while i < n
            invariant
                metrics.wf(),
                n == metrics@.operations.len(),
                n == metrics@.by_operation.len(),
                crate::names::distinct(metrics@.operations),
                0 <= i <= n,
                names.wf(),
                names@ == metrics@.operations.subrange(0, i as int),
                items@.len() == i,
                forall|k: int|
                    0 <= k < i ==> (#[trigger] items@[k]).reports(
                        self.name(),
                        metrics@.by_operation[k],
                    ),
            decreases n - i,
        {
            let name = metrics.operation_name(i).clone();
            proof {
                let seen = metrics@.operations.subrange(0, i as int);
                if seen.contains(name@) {
                    let k = choose|k: int| 0 <= k < seen.len() && seen[k] == name@;
                    assert(metrics@.operations[k] == metrics@.operations[i as int]);
                }
            }
            let item = self.build_item_report(metrics.operation(i));
            names.add(name);
            items.push(item);
            proof {
                assert(names@ =~= metrics@.operations.subrange(0, i + 1));
            }
            i = i + 1;
        }
        proof {
            assert(names@ =~= metrics@.operations);
        }
        BenchRunReport {
            combined: self.build_item_report(metrics.combined()),
            by_operation: OperationReports { names, items },
        }
    }
}

} // verus!
