use perf_gauge::bench_run::{whole_nanos, BenchRun, RunStatus, WorkBudget, WorkerStep};
use perf_gauge::metrics::{BenchRunMetrics, RequestStats};
use perf_gauge::rate_limiter::RateLimiter;
use perf_gauge::report::DefaultConsoleReporter;
use std::time::Duration;

fn stats(success: bool, fatal: bool) -> RequestStats {
    RequestStats {
        is_success: success,
        bytes_processed: 1,
        status: if success { "OK".to_string() } else { "ERR".to_string() },
        duration: Duration::from_micros(3),
        operation_name: None,
        fatal_error: fatal,
    }
}

#[test]
fn count_budget_lets_exactly_its_count_begin() {
    for limit in [0usize, 1, 2, 7, 100] {
        let mut budget = WorkBudget::RemainingCount(limit);
        let mut granted = 0;
        for _ in 0..(limit + 50) {
            if budget.has_more_work_at(0) {
                granted += 1;
            }
        }
        assert_eq!(granted, limit);
        assert_eq!(budget, WorkBudget::RemainingCount(0));
        assert!(!budget.has_more_work_at(u64::MAX));
    }
}

#[test]
fn count_budget_does_not_look_at_the_time() {
    let mut budget = WorkBudget::RemainingCount(3);
    assert!(budget.has_more_work_at(u64::MAX));
    assert!(budget.has_more_work_at(0));
    assert!(budget.has_more_work_at(17));
    assert!(!budget.has_more_work_at(0));
}

#[test]
fn deadline_budget_ends_at_the_deadline() {
    let mut budget = WorkBudget::Deadline(1_000);
    for _ in 0..10_000 {
        assert!(budget.has_more_work_at(0));
        assert!(budget.has_more_work_at(999));
    }
    assert!(!budget.has_more_work_at(1_000));
    assert!(!budget.has_more_work_at(1_001));
    assert!(!budget.has_more_work_at(u64::MAX));
    assert_eq!(budget, WorkBudget::Deadline(1_000));
}

#[test]
fn exhausted_budget_lets_nothing_begin() {
    let mut count = WorkBudget::RemainingCount(5);
    count.exhaust();
    assert_eq!(count, WorkBudget::RemainingCount(0));
    assert!(!count.has_more_work_at(0));
    let mut time = WorkBudget::Deadline(5);
    time.exhaust();
    assert_eq!(time, WorkBudget::Deadline(0));
    assert!(!time.has_more_work_at(0));
}

#[test]
fn run_of_no_calls_ends_at_once_with_an_empty_report() {
    let mut run = BenchRun::from_request_limit(3, 0, RateLimiter::build_rate_limiter(0), None);
    assert_eq!(run.index(), 3);
    assert!(!run.has_more_work());
    assert_eq!(run.next_step(), WorkerStep::Finish(RunStatus::Completed));
    assert_eq!(run.status(), RunStatus::Completed);
    assert!(run.reporter().is_none());

    let metrics = BenchRunMetrics::new();
    let report = DefaultConsoleReporter::new(None).build_report(&metrics);
    assert_eq!(report.combined.total_requests, 0);
    assert_eq!(report.combined.total_bytes, 0);
    assert_eq!(report.combined.success_rate, None);
    assert!(report.combined.response_code_summary.is_empty());
    assert_eq!(report.by_operation.len(), 0);
    assert_eq!(report.combined.latency_summary.len(), 12);
    for (_, value) in report.combined.latency_summary.iter() {
        assert_eq!(*value, 0);
    }
}

#[test]
fn run_of_no_time_ends_at_once() {
    let mut run = BenchRun::from_duration_limit(
        0,
        Duration::from_secs(0),
        RateLimiter::build_rate_limiter(0),
        None,
    );
    assert!(!run.has_more_work());
    assert!(!run.has_more_work_at(0));
    assert_eq!(run.next_step_at(0), WorkerStep::Finish(RunStatus::Completed));
}

#[test]
fn steps_of_a_paced_run() {
    let mut run = BenchRun::from_request_limit(0, 3, RateLimiter::build_rate_limiter(1_000), None);
    assert_eq!(run.next_step_at(0), WorkerStep::Call { wait_nanos: 0 });
    assert_eq!(run.next_step_at(0), WorkerStep::Call { wait_nanos: 1_000_000 });
    assert_eq!(run.next_step_at(500_000), WorkerStep::Call { wait_nanos: 1_500_000 });
    assert_eq!(run.next_step_at(500_000), WorkerStep::Finish(RunStatus::Completed));
    assert_eq!(run.next_step_at(u64::MAX), WorkerStep::Finish(RunStatus::Completed));
}

#[test]
fn fatal_error_ends_the_run_for_all() {
    let mut run = BenchRun::from_request_limit(0, 100, RateLimiter::build_rate_limiter(0), None);
    let mut metrics = BenchRunMetrics::new();
    assert_eq!(run.next_step_at(0), WorkerStep::Call { wait_nanos: 0 });
    run.complete_call(&mut metrics, stats(true, false));
    assert_eq!(run.status(), RunStatus::Completed);
    assert_eq!(run.next_step_at(1), WorkerStep::Call { wait_nanos: 0 });
    run.complete_call(&mut metrics, stats(false, true));
    assert_eq!(run.status(), RunStatus::Aborted);
    assert_eq!(run.next_step_at(2), WorkerStep::Finish(RunStatus::Aborted));
    assert!(!run.has_more_work());
    assert!(!run.has_more_work_at(0));
    assert_eq!(metrics.combined().total_requests(), 2);
    assert_eq!(metrics.combined().successful_requests(), 1);
    assert_eq!(metrics.combined().failed_requests(), 1);
}

#[test]
fn fatal_error_ends_a_run_of_time() {
    let mut run = BenchRun::from_duration_limit(
        0,
        Duration::from_secs(3600),
        RateLimiter::build_rate_limiter(0),
        None,
    );
    let mut metrics = BenchRunMetrics::new();
    assert!(run.has_more_work());
    run.complete_call(&mut metrics, stats(false, true));
    assert!(!run.has_more_work());
    assert_eq!(run.next_step(), WorkerStep::Finish(RunStatus::Aborted));
}

struct Counting {
    reports: std::sync::atomic::AtomicUsize,
    fail: bool,
}

impl perf_gauge::metrics::ExternalMetricsServiceReporter for Counting {
    fn report(&self, metrics: &BenchRunMetrics) -> std::io::Result<()> {
        self.reports
            .fetch_add(metrics.combined().total_requests(), std::sync::atomic::Ordering::SeqCst);
        if self.fail {
            Err(std::io::Error::new(std::io::ErrorKind::Other, "no service"))
        } else {
            Ok(())
        }
    }

    fn reset_metrics(&self) {}
}

#[test]
fn run_hands_the_metrics_to_its_reporter() {
    let mut metrics = BenchRunMetrics::new();
    metrics.report_request(stats(true, false));
    metrics.report_request(stats(true, false));

    let bare = BenchRun::from_request_limit(0, 1, RateLimiter::build_rate_limiter(0), None);
    assert!(bare.report(&metrics).is_ok());

    let reporter = std::sync::Arc::new(Counting {
        reports: std::sync::atomic::AtomicUsize::new(0),
        fail: false,
    });
    let run = BenchRun::from_request_limit(
        0,
        1,
        RateLimiter::build_rate_limiter(0),
        Some(reporter.clone()),
    );
    assert!(run.reporter().is_some());
    assert!(run.report(&metrics).is_ok());
    assert_eq!(reporter.reports.load(std::sync::atomic::Ordering::SeqCst), 2);

    let failing = std::sync::Arc::new(Counting {
        reports: std::sync::atomic::AtomicUsize::new(0),
        fail: true,
    });
    let run = BenchRun::from_duration_limit(
        0,
        Duration::from_secs(1),
        RateLimiter::build_rate_limiter(0),
        Some(failing),
    );
    assert!(run.report(&metrics).is_err());
}

#[test]
fn lengths_of_time_in_whole_nanoseconds() {
    assert_eq!(whole_nanos(&Duration::from_nanos(0)), 0);
    assert_eq!(whole_nanos(&Duration::from_nanos(5)), 5);
    assert_eq!(whole_nanos(&Duration::from_micros(3)), 3_000);
    assert_eq!(whole_nanos(&Duration::from_secs(2)), 2_000_000_000);
    assert_eq!(whole_nanos(&Duration::from_nanos(u64::MAX)), u64::MAX);
    assert_eq!(whole_nanos(&Duration::MAX), u64::MAX);
}

#[test]
fn time_since_the_run_began_goes_on() {
    let run = BenchRun::from_request_limit(0, 1, RateLimiter::build_rate_limiter(0), None);
    let first = run.elapsed_nanos();
    let begin = std::time::Instant::now();
    while begin.elapsed() < Duration::from_millis(2) {}
    let second = run.elapsed_nanos();
    assert!(second >= first + 2_000_000);
    assert!(second < 10_000_000_000);
}
