use perf_gauge::builder::{RequestStatsBuilder, RequestStatsBuilderError};
use std::time::Duration;

fn field(error: RequestStatsBuilderError) -> String {
    match error {
        RequestStatsBuilderError::UninitializedField(name) => name,
    }
}

#[test]
fn builder_with_every_field() {
    let stats = RequestStatsBuilder::default()
        .bytes_processed(12)
        .status("OK".to_string())
        .is_success(true)
        .duration(Duration::from_micros(5))
        .fatal_error(false)
        .operation_name(Some("read".to_string()))
        .build()
        .expect("RequestStatsBuilder failed");
    assert!(stats.is_success);
    assert_eq!(stats.bytes_processed, 12);
    assert_eq!(stats.status, "OK");
    assert_eq!(stats.duration, Duration::from_micros(5));
    assert_eq!(stats.operation_name, Some("read".to_string()));
    assert!(!stats.fatal_error);
}

#[test]
fn builder_leaves_the_operation_unnamed() {
    let stats = RequestStatsBuilder::default()
        .bytes_processed(0)
        .status("500".to_string())
        .is_success(false)
        .fatal_error(true)
        .duration(Duration::from_secs(1))
        .build()
        .expect("Error building RequestStats");
    assert_eq!(stats.operation_name, None);
    assert!(stats.fatal_error);
    assert!(!stats.is_success);
}

#[test]
fn builder_names_the_first_field_that_is_missing() {
    let empty = RequestStatsBuilder::default().build().unwrap_err();
    assert_eq!(field(empty), "is_success");
    let one = RequestStatsBuilder::default().is_success(true).build().unwrap_err();
    assert_eq!(field(one), "bytes_processed");
    let two = RequestStatsBuilder::default()
        .is_success(true)
        .bytes_processed(1)
        .build()
        .unwrap_err();
    assert_eq!(field(two), "status");
    let three = RequestStatsBuilder::default()
        .is_success(true)
        .bytes_processed(1)
        .status(String::new())
        .build()
        .unwrap_err();
    assert_eq!(field(three), "duration");
    let four = RequestStatsBuilder::default()
        .is_success(true)
        .bytes_processed(1)
        .status(String::new())
        .duration(Duration::default())
        .operation_name(None)
        .build()
        .unwrap_err();
    assert_eq!(four.message(), "`fatal_error` must be initialized");
    let late = RequestStatsBuilder::default()
        .fatal_error(true)
        .duration(Duration::default())
        .status(String::new())
        .build()
        .unwrap_err();
    assert_eq!(field(late), "is_success");
}
