use perf_gauge::metrics::{BenchRunMetrics, BenchRunMetricsItem, RequestStats};
use perf_gauge::report::{BenchRunReportItem, DefaultConsoleReporter};
use std::time::Duration;

fn call(
    success: bool,
    bytes: usize,
    status: &str,
    micros: u64,
    operation: Option<&str>,
) -> RequestStats {
    RequestStats {
        is_success: success,
        bytes_processed: bytes,
        status: status.to_string(),
        duration: Duration::from_micros(micros),
        operation_name: operation.map(|name| name.to_string()),
        fatal_error: false,
    }
}

fn status_total(item: &BenchRunMetricsItem) -> usize {
    (0..item.status_count()).map(|i| item.status_occurrences(i)).sum()
}

#[test]
fn requests_are_successes_and_failures() {
    let mut item = BenchRunMetricsItem::new();
    assert_eq!(item.total_requests(), 0);
    assert_eq!(item.failed_requests(), 0);
    let labels = ["200 OK", "404", "500", "", "200 OK", "timeout"];
    for i in 0..600usize {
        let success = i % 3 != 0;
        item.report_request(&call(success, i, labels[i % labels.len()], i as u64, None));
        assert_eq!(
            item.total_requests(),
            item.successful_requests() + item.failed_requests()
        );
        assert_eq!(item.total_requests(), i + 1);
        assert_eq!(status_total(&item), item.total_requests());
        assert_eq!(item.success_latency().count() as usize, item.successful_requests());
        assert_eq!(item.error_latency().count() as usize, item.failed_requests());
    }
    assert_eq!(item.successful_requests(), 400);
    assert_eq!(item.failed_requests(), 200);
    assert_eq!(item.total_bytes(), (0..600).sum::<usize>());
    assert!(!item.is_full());
    assert_eq!(item.status_count(), 5);
    assert_eq!(item.status_label(0), "200 OK");
    assert_eq!(item.status_occurrences(0), 200);
    assert_eq!(item.status_label(3), "");
    assert_eq!(item.status_occurrences(3), 100);
}

#[test]
fn latency_is_counted_in_microseconds() {
    let mut item = BenchRunMetricsItem::new();
    item.report_request(&RequestStats {
        is_success: true,
        bytes_processed: 0,
        status: "OK".to_string(),
        duration: Duration::from_nanos(7_999),
        operation_name: None,
        fatal_error: false,
    });
    item.report_request(&call(false, 0, "ERR", 900, None));
    item.report_request(&RequestStats {
        is_success: false,
        bytes_processed: 0,
        status: "ERR".to_string(),
        duration: Duration::from_secs(1_000_000),
        operation_name: None,
        fatal_error: false,
    });
    assert_eq!(item.success_latency().minimum(), 7);
    assert_eq!(item.success_latency().maximum(), 7);
    assert_eq!(item.error_latency().minimum(), 900);
    assert_eq!(item.error_latency().maximum(), 60_000_000_000);
    assert_eq!(item.error_latency().count(), 2);
}

#[test]
fn bytes_stay_at_the_most_a_counter_holds() {
    let mut item = BenchRunMetricsItem::new();
    item.report_request(&call(true, usize::MAX - 1, "OK", 1, None));
    assert_eq!(item.total_bytes(), usize::MAX - 1);
    item.report_request(&call(true, 5, "OK", 1, None));
    assert_eq!(item.total_bytes(), usize::MAX);
    item.report_request(&call(true, 5, "OK", 1, None));
    assert_eq!(item.total_bytes(), usize::MAX);
    assert_eq!(item.total_requests(), 3);
}

#[test]
fn operations_add_up_to_the_combined_counters() {
    let mut metrics = BenchRunMetrics::new();
    let names = ["read", "write", "stat", "read", "list"];
    for i in 0..1000usize {
        let name = names[(i * 7) % names.len()];
        metrics.report_request(call(i % 4 != 0, i, "OK", i as u64, Some(name)));
    }
    assert_eq!(metrics.operation_count(), 4);
    let mut requests = 0;
    let mut successes = 0;
    let mut bytes = 0;
    for i in 0..metrics.operation_count() {
        let item = metrics.operation(i);
        requests += item.total_requests();
        successes += item.successful_requests();
        bytes += item.total_bytes();
    }
    assert_eq!(requests, metrics.combined().total_requests());
    assert_eq!(successes, metrics.combined().successful_requests());
    assert_eq!(bytes, metrics.combined().total_bytes());
    assert_eq!(requests, 1000);
    assert_eq!(successes, 750);
}

#[test]
fn calls_without_an_operation_count_in_the_combined_counters_only() {
    let mut metrics = BenchRunMetrics::new();
    metrics.report_request(call(true, 10, "OK", 5, Some("a")));
    metrics.report_request(call(true, 20, "OK", 5, None));
    metrics.report_request(call(false, 0, "ERR", 5, Some("b")));
    metrics.report_request(call(true, 30, "OK", 5, Some("a")));
    assert_eq!(metrics.combined().total_requests(), 4);
    assert_eq!(metrics.combined().total_bytes(), 60);
    assert_eq!(metrics.operation_count(), 2);
    assert_eq!(metrics.operation_name(0), "a");
    assert_eq!(metrics.operation_name(1), "b");
    assert_eq!(metrics.operation(0).total_requests(), 2);
    assert_eq!(metrics.operation(0).total_bytes(), 40);
    assert_eq!(metrics.operation(1).total_requests(), 1);
    assert_eq!(metrics.operation(1).failed_requests(), 1);
    assert_eq!(metrics.by_operation("a").unwrap().successful_requests(), 2);
    assert!(metrics.by_operation("c").is_none());
    assert!(metrics.by_operation("").is_none());
}

#[test]
fn summary_is_ordered_by_count_and_then_by_label() {
    let mut item = BenchRunMetricsItem::new();
    for label in ["A", "B", "C", "B", "A", "B"] {
        item.report_request(&call(true, 0, label, 1, None));
    }
    assert_eq!(
        BenchRunReportItem::summary_ordered(&item),
        vec![("B".to_string(), 3), ("A".to_string(), 2), ("C".to_string(), 1)]
    );

    let mut ties = BenchRunMetricsItem::new();
    for label in ["Y", "X", "Y", "X", "Y", "X"] {
        ties.report_request(&call(false, 0, label, 1, None));
    }
    assert_eq!(
        BenchRunReportItem::summary_ordered(&ties),
        vec![("X".to_string(), 3), ("Y".to_string(), 3)]
    );
}

#[test]
fn labels_of_one_count_are_in_the_order_of_their_bytes() {
    let mut item = BenchRunMetricsItem::new();
    for label in ["b", "", "ab", "a", "B", "é", "aa", "z"] {
        item.report_request(&call(true, 0, label, 1, None));
    }
    let labels: Vec<String> = BenchRunReportItem::summary_ordered(&item)
        .into_iter()
        .map(|(label, _)| label)
        .collect();
    assert_eq!(labels, vec!["", "B", "a", "aa", "ab", "b", "z", "é"]);
    let total: usize = BenchRunReportItem::summary_ordered(&item)
        .iter()
        .map(|(_, count)| *count)
        .sum();
    assert_eq!(total, item.total_requests());
}

#[test]
fn rates_of_a_report() {
    let mut item = BenchRunMetricsItem::new();
    for i in 0..4usize {
        let status = if i != 3 { "200 OK" } else { "500" };
        item.report_request(&call(i != 3, 500, status, 100 * (i as u64 + 1), None));
    }
    let reporter = DefaultConsoleReporter::new(Some("case".to_string()));
    let report = reporter.build_item_report_after(&item, Duration::from_secs(2));
    assert_eq!(report.test_case_name, Some("case".to_string()));
    assert_eq!(report.duration, Duration::from_secs(2));
    assert_eq!(report.total_requests, 4);
    assert_eq!(report.total_bytes, 2000);
    assert_eq!(report.success_rate, Some(75_000));
    assert_eq!(report.rate_per_second, Some(2_000));
    assert_eq!(report.bits_per_second, Some(8_000));
    assert_eq!(
        report.response_code_summary,
        vec![("200 OK".to_string(), 3), ("500".to_string(), 1)]
    );
    let expected: Vec<(String, u64)> = [
        ("Min", 100),
        ("p50", 300),
        ("p90", 400),
        ("p99", 400),
        ("p99.9", 400),
        ("p99.99", 400),
        ("Max", 400),
        ("Mean", 250),
        ("StdDev", 112),
        ("tm95", 250),
        ("tm99", 250),
        ("tm99.9", 250),
    ]
    .iter()
    .map(|(label, value)| (label.to_string(), *value))
    .collect();
    assert_eq!(report.latency_summary, expected);

    let third = reporter.build_item_report_after(&item, Duration::from_nanos(3_000_000_001));
    assert_eq!(third.rate_per_second, Some(1_333));
    assert_eq!(third.bits_per_second, Some(5_333));
}

#[test]
fn report_without_calls_or_time_has_no_rates() {
    let item = BenchRunMetricsItem::new();
    let reporter = DefaultConsoleReporter::new(None);
    let report = reporter.build_item_report_after(&item, Duration::from_secs(0));
    assert_eq!(report.test_case_name, Some("perf-gauge".to_string()));
    assert_eq!(report.success_rate, None);
    assert_eq!(report.rate_per_second, None);
    assert_eq!(report.bits_per_second, None);
    let later = reporter.build_item_report_after(&item, Duration::from_secs(1));
    assert_eq!(later.success_rate, None);
    assert_eq!(later.rate_per_second, Some(0));
    assert_eq!(later.bits_per_second, Some(0));
    let now = reporter.build_item_report(&item);
    assert_eq!(now.total_requests, 0);
    assert_eq!(now.success_rate, None);
}

#[test]
fn truncated_mean_of_the_item() {
    let mut item = BenchRunMetricsItem::new();
    for i in 0..1000u64 {
        item.report_request(&call(true, 0, "OK", i, None));
    }
    let latency = item.success_latency();
    let mean = BenchRunMetricsItem::truncated_mean(latency, 500);
    assert_eq!(mean, 499);
    assert!(latency.percentile(500) < mean && mean < latency.percentile(9500));
}

#[test]
fn report_of_each_operation() {
    let mut metrics = BenchRunMetrics::new();
    metrics.report_request(call(true, 1, "OK", 10, Some("b")));
    metrics.report_request(call(true, 1, "OK", 20, Some("a")));
    metrics.report_request(call(false, 1, "ERR", 30, Some("b")));
    let report = DefaultConsoleReporter::new(None).build_report(&metrics);
    assert_eq!(report.by_operation.len(), 2);
    assert_eq!(report.by_operation.name(0), "b");
    assert_eq!(report.by_operation.name(1), "a");
    assert_eq!(report.by_operation.item(0).total_requests, 2);
    assert_eq!(report.by_operation.item(0).success_rate, Some(50_000));
    assert_eq!(report.by_operation.get("a").unwrap().total_requests, 1);
    assert!(report.by_operation.get("c").is_none());
    assert_eq!(report.combined.total_requests, 3);
    assert_eq!(report.combined.latency_summary[0], ("Min".to_string(), 10));
    assert_eq!(report.combined.latency_summary[6], ("Max".to_string(), 30));
}

#[test]
fn copies_of_the_metrics_go_their_own_way() {
    let mut metrics = BenchRunMetrics::new();
    metrics.report_request(call(true, 10, "OK", 5, Some("a")));
    metrics.report_request(call(false, 0, "ERR", 9, Some("b")));
    let copy = metrics.clone();
    metrics.report_request(call(true, 1, "OK", 7, Some("c")));

    assert_eq!(copy.combined().total_requests(), 2);
    assert_eq!(copy.combined().total_bytes(), 10);
    assert_eq!(copy.combined().status_count(), 2);
    assert_eq!(copy.combined().status_label(1), "ERR");
    assert_eq!(copy.combined().status_occurrences(1), 1);
    assert_eq!(copy.combined().bench_begin(), metrics.combined().bench_begin());
    assert_eq!(copy.operation_count(), 2);
    assert_eq!(copy.operation_name(1), "b");
    assert_eq!(copy.operation(1).failed_requests(), 1);
    assert_eq!(copy.operation(1).error_latency().maximum(), 9);
    assert!(copy.by_operation("c").is_none());
    assert_eq!(metrics.combined().total_requests(), 3);
    assert_eq!(metrics.operation_count(), 3);

    let item = copy.combined().clone();
    assert_eq!(item.total_requests(), 2);
    assert_eq!(item.success_latency().buckets(), copy.combined().success_latency().buckets());
}

#[test]
fn rates_are_rounded_to_the_nearest() {
    let mut item = BenchRunMetricsItem::new();
    item.report_request(&call(true, 1, "OK", 1, None));
    item.report_request(&call(true, 1, "OK", 1, None));
    item.report_request(&call(false, 0, "ERR", 1, None));
    let reporter = DefaultConsoleReporter::new(None);
    let report = reporter.build_item_report_after(&item, Duration::from_secs(7));
    assert_eq!(report.success_rate, Some(66_667));
    assert_eq!(report.rate_per_second, Some(429));
    assert_eq!(report.bits_per_second, Some(2));
    let half = reporter.build_item_report_after(&item, Duration::from_secs(32));
    assert_eq!(half.bits_per_second, Some(1));
    assert_eq!(half.rate_per_second, Some(94));
    let text = report.to_string();
    assert!(text.contains("Success rate: 66.667%"));
    assert!(text.contains("Request rate: 0.429 per second"));
    assert!(text.contains("Bitrate: 0.000 Mbps"));
}

#[test]
fn summary_does_not_tell_success_from_failure() {
    let succeeded = [2_000u64, 5_000, 70_000, 12, 1_024];
    let failed = [3_000u64, 1_500, 900_000];
    let mut a = BenchRunMetricsItem::new();
    let mut b = BenchRunMetricsItem::new();
    for micros in succeeded {
        a.report_request(&call(true, 0, "OK", micros, None));
        b.report_request(&call(false, 0, "ERR", micros, None));
    }
    for micros in failed {
        a.report_request(&call(false, 0, "ERR", micros, None));
        b.report_request(&call(true, 0, "OK", micros, None));
    }
    let summary = BenchRunReportItem::latency_summary(&a);
    assert_eq!(summary, BenchRunReportItem::latency_summary(&b));
    assert_eq!(summary[0], ("Min".to_string(), 12));
    for pair in summary[..7].windows(2) {
        assert!(pair[0].1 <= pair[1].1);
    }
    for row in &summary[9..] {
        assert!(summary[0].1 <= row.1 && row.1 <= summary[6].1);
    }
}

#[test]
fn summary_without_calls_is_zero() {
    let item = BenchRunMetricsItem::new();
    let summary = BenchRunReportItem::latency_summary(&item);
    assert_eq!(summary.len(), 12);
    assert!(summary.iter().all(|(_, value)| *value == 0));
}

#[test]
fn counters_keep_the_time_at_which_they_began() {
    let mut metrics = BenchRunMetrics::new();
    metrics.report_request(call(true, 1, "OK", 1, Some("a")));
    let combined = *metrics.combined().bench_begin();
    let first = *metrics.operation(0).bench_begin();
    let begin = std::time::Instant::now();
    while begin.elapsed() < Duration::from_millis(2) {}
    metrics.report_request(call(true, 1, "OK", 1, Some("a")));
    metrics.report_request(call(false, 1, "ERR", 1, Some("b")));
    metrics.report_request(call(false, 1, "ERR", 1, None));
    assert_eq!(*metrics.combined().bench_begin(), combined);
    assert_eq!(*metrics.operation(0).bench_begin(), first);
    assert!(*metrics.operation(1).bench_begin() > first);
}

#[test]
fn operations_add_up_in_every_label_and_bucket() {
    let mut metrics = BenchRunMetrics::new();
    let names = ["read", "write", "stat"];
    let labels = ["200 OK", "404", "500", ""];
    for i in 0..900usize {
        let micros = [3u64, 700, 1_024, 1_500, 40_000, 2_000_000][i % 6];
        metrics.report_request(call(
            i % 5 != 0,
            i,
            labels[(i / 3) % labels.len()],
            micros,
            Some(names[(i * 7) % names.len()]),
        ));
    }
    let combined = metrics.combined();
    for i in 0..combined.status_count() {
        let label = combined.status_label(i);
        let mut seen = 0;
        for k in 0..metrics.operation_count() {
            let item = metrics.operation(k);
            for j in 0..item.status_count() {
                if item.status_label(j) == label {
                    seen += item.status_occurrences(j);
                }
            }
        }
        assert_eq!(seen, combined.status_occurrences(i));
    }
    let buckets = combined.success_latency().buckets().len();
    let mut succeeded = vec![0u64; buckets];
    let mut failed = vec![0u64; buckets];
    for k in 0..metrics.operation_count() {
        let item = metrics.operation(k);
        for (slot, bucket) in item.success_latency().buckets().iter().enumerate() {
            succeeded[slot] += bucket.count;
        }
        for (slot, bucket) in item.error_latency().buckets().iter().enumerate() {
            failed[slot] += bucket.count;
        }
    }
    let counts = |h: &perf_gauge::latency::LatencyHistogram| -> Vec<u64> {
        h.buckets().iter().map(|b| b.count).collect()
    };
    assert_eq!(succeeded, counts(combined.success_latency()));
    assert_eq!(failed, counts(combined.error_latency()));
    assert_eq!(succeeded.iter().sum::<u64>(), 720);
    assert_eq!(failed.iter().sum::<u64>(), 180);
}
