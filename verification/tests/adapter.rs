use perf_gauge::gcs_bench_adapter::{
    map_client_api, parse_client_api, GcsBenchAdapter, GcsBenchScenario, GcsCall, Picks,
    SUFFIX_LIMIT,
};
use perf_gauge::mini_client::CallResult;
use perf_gauge::mini_client_wrapper::GCSClientAPI;
use std::time::Duration;

fn adapter(scenario: GcsBenchScenario, start: Option<u64>, len: Option<u64>) -> GcsBenchAdapter {
    GcsBenchAdapter::new(
        "project".to_string(),
        "json".to_string(),
        "bucket".to_string(),
        vec!["one".to_string(), "two".to_string(), "three".to_string()],
        4096,
        scenario,
        "prod".to_string(),
        start,
        len,
    )
}

fn answer(success: bool) -> CallResult {
    CallResult {
        success,
        bytes_received: 77,
        error_code: if success { String::new() } else { "UNAVAILABLE".to_string() },
        upload_id: "upload-1".to_string(),
        host_ip: "10.0.0.1".to_string(),
        bitpusher_cell: "cell".to_string(),
        bitpusher_task_no: 3,
    }
}

#[test]
fn names_of_the_transports() {
    assert_eq!(parse_client_api("json"), Some(GCSClientAPI::Json));
    assert_eq!(parse_client_api("grpc-no-directpath"), Some(GCSClientAPI::GrpcNoDirectpath));
    assert_eq!(parse_client_api("grpc-directpath"), Some(GCSClientAPI::GrpcDirectpath));
    assert_eq!(parse_client_api(""), None);
    assert_eq!(parse_client_api("JSON"), None);
    assert_eq!(parse_client_api("grpc"), None);
    assert_eq!(map_client_api("json"), GCSClientAPI::Json);
    assert_eq!(map_client_api("grpc-no-directpath"), GCSClientAPI::GrpcNoDirectpath);
    assert_eq!(map_client_api("grpc-directpath"), GCSClientAPI::GrpcDirectpath);
    assert_eq!(GCSClientAPI::GrpcDirectpath.code(), 0);
    assert_eq!(GCSClientAPI::GrpcNoDirectpath.code(), 1);
    assert_eq!(GCSClientAPI::Json.code(), 2);
}

#[test]
fn settings_of_the_client() {
    let a = adapter(GcsBenchScenario::ReadObject, None, None);
    assert_eq!(a.client_api(), Some(GCSClientAPI::Json));
    assert_eq!(a.gcp_project(), "project");
    assert_eq!(a.universe(), "prod");
    assert_eq!(a.scenario(), GcsBenchScenario::ReadObject);
}

#[test]
fn usable_settings() {
    assert!(adapter(GcsBenchScenario::ReadObject, None, None).is_usable());
    assert!(adapter(GcsBenchScenario::ReadObject, Some(2), Some(2)).is_usable());
    assert!(adapter(GcsBenchScenario::ReadObject, None, Some(2)).is_usable());
    assert!(!adapter(GcsBenchScenario::ReadObject, Some(2), None).is_usable());
    assert!(!adapter(GcsBenchScenario::ReadObject, Some(1), Some(2)).is_usable());
    assert!(!adapter(GcsBenchScenario::ReadObject, Some(2), Some(1)).is_usable());
    assert!(!adapter(GcsBenchScenario::ReadObject, None, Some(0)).is_usable());
    assert!(adapter(GcsBenchScenario::ResumableWriteObject, Some(0), None).is_usable());
    assert!(adapter(GcsBenchScenario::QueryWriteStatus, Some(0), Some(0)).is_usable());
    let none = GcsBenchAdapter::new(
        String::new(),
        String::new(),
        String::new(),
        Vec::new(),
        0,
        GcsBenchScenario::NonresumableWriteObject,
        String::new(),
        None,
        None,
    );
    assert!(!none.is_usable());
    assert!(none.is_preparable());
    assert!(none.prepare().is_none());

    let asking = GcsBenchAdapter::new(
        String::new(),
        String::new(),
        String::new(),
        Vec::new(),
        0,
        GcsBenchScenario::QueryWriteStatus,
        String::new(),
        Some(0),
        None,
    );
    assert!(asking.is_usable());
    assert!(!asking.is_preparable());
    assert_eq!(asking.pick(), Picks { object: 0, suffix: 0, start: 0, length: 0 });
    assert!(matches!(
        asking.next_call(),
        GcsCall::QueryWriteStatus { ref upload_id } if upload_id.is_empty()
    ));
}

#[test]
fn picks_hold_only_what_the_scenario_needs() {
    for _ in 0..200 {
        let read = adapter(GcsBenchScenario::ReadObject, None, None).pick();
        assert!(read.object < 3);
        assert_eq!((read.suffix, read.start, read.length), (0, 0, 0));
        let length = adapter(GcsBenchScenario::ReadObject, None, Some(4)).pick();
        assert_eq!((length.suffix, length.start), (0, 0));
        assert!(1 <= length.length && length.length < 4);
        let write = adapter(GcsBenchScenario::ResumableWriteObject, Some(9), Some(9)).pick();
        assert!(write.object < 3 && write.suffix < SUFFIX_LIMIT);
        assert_eq!((write.start, write.length), (0, 0));
        let query = adapter(GcsBenchScenario::QueryWriteStatus, Some(9), Some(9)).pick();
        assert_eq!(query, Picks { object: 0, suffix: 0, start: 0, length: 0 });
    }
}

#[test]
fn copy_of_the_settings() {
    let mut a = adapter(GcsBenchScenario::QueryWriteStatus, Some(7), None);
    let copy = a.clone();
    assert_eq!(a.finish_preparation(&answer(true)), Ok(()));
    assert_eq!(a.upload_id(), "upload-1");
    assert_eq!(copy.upload_id(), "");
    assert_eq!(copy.objects(), a.objects());
    assert_eq!(copy.bucket(), "bucket");
    assert_eq!(copy.api(), "json");
    assert_eq!(copy.object_size(), 4096);
    assert_eq!(copy.scenario(), GcsBenchScenario::QueryWriteStatus);
    assert_eq!(copy.random_range_read_max_start(), Some(7));
    assert_eq!(copy.random_range_read_max_len(), None);
}

#[test]
fn picks_are_within_the_settings() {
    let a = adapter(GcsBenchScenario::ReadObject, Some(10), Some(3));
    let mut objects = [false; 3];
    for _ in 0..2000 {
        let picks = a.pick();
        assert!(picks.object < 3);
        assert!(picks.suffix < SUFFIX_LIMIT);
        assert!(1 <= picks.start && picks.start < 10);
        assert!(1 <= picks.length && picks.length < 3);
        objects[picks.object] = true;
    }
    assert_eq!(objects, [true; 3]);
}

#[test]
fn planned_calls() {
    let picks = Picks { object: 1, suffix: 42, start: 5, length: 9 };
    let read = adapter(GcsBenchScenario::ReadObject, None, None).plan_with(&picks);
    assert!(matches!(
        read,
        GcsCall::ReadObject { ref bucket, ref object } if bucket == "bucket" && object == "two"
    ));
    let range = adapter(GcsBenchScenario::ReadObject, Some(10), Some(10)).plan_with(&picks);
    assert!(matches!(
        range,
        GcsCall::RangeRead { ref bucket, ref object, start: 5, length: 9 }
            if bucket == "bucket" && object == "two"
    ));
    let query = adapter(GcsBenchScenario::QueryWriteStatus, None, None).plan_with(&picks);
    assert!(matches!(query, GcsCall::QueryWriteStatus { ref upload_id } if upload_id.is_empty()));
    let resumable = adapter(GcsBenchScenario::ResumableWriteObject, None, None).plan_with(&picks);
    assert!(matches!(
        resumable,
        GcsCall::WriteObject { ref bucket, ref object, size: 4096, resumable: true }
            if bucket == "bucket" && object == "two_42"
    ));
    let plain = adapter(GcsBenchScenario::NonresumableWriteObject, None, None).plan_with(&picks);
    assert!(matches!(
        plain,
        GcsCall::WriteObject { ref object, size: 4096, resumable: false, .. } if object == "two_42"
    ));
}

#[test]
fn next_call_is_one_of_the_planned_calls() {
    let a = adapter(GcsBenchScenario::NonresumableWriteObject, None, None);
    for _ in 0..200 {
        match a.next_call() {
            GcsCall::WriteObject { bucket, object, size, resumable } => {
                assert_eq!(bucket, "bucket");
                assert_eq!(size, 4096);
                assert!(!resumable);
                let (name, number) = object.rsplit_once('_').unwrap();
                assert!(["one", "two", "three"].contains(&name));
                assert!(number.parse::<u64>().unwrap() < SUFFIX_LIMIT);
            }
            other => panic!("{:?}", other),
        }
    }
}

#[test]
fn preparation_of_a_run() {
    let picks = Picks { object: 2, suffix: 0, start: 0, length: 0 };
    assert!(adapter(GcsBenchScenario::ReadObject, None, None).prepare_with(&picks).is_none());
    assert!(adapter(GcsBenchScenario::ResumableWriteObject, None, None).prepare().is_none());
    let mut a = adapter(GcsBenchScenario::QueryWriteStatus, None, None);
    let call = a.prepare_with(&picks).unwrap();
    assert!(matches!(
        call,
        GcsCall::StartResumableWrite { ref bucket, ref object }
            if bucket == "bucket" && object == "three"
    ));
    assert!(matches!(a.prepare(), Some(GcsCall::StartResumableWrite { .. })));

    let failed = a.finish_preparation(&answer(false));
    assert_eq!(failed, Err("Failed to initialize an upload, aborting".to_string()));
    assert!(matches!(
        a.plan_with(&picks),
        GcsCall::QueryWriteStatus { ref upload_id } if upload_id.is_empty()
    ));

    assert_eq!(a.finish_preparation(&answer(true)), Ok(()));
    assert!(matches!(
        a.plan_with(&picks),
        GcsCall::QueryWriteStatus { ref upload_id } if upload_id == "upload-1"
    ));
}

#[test]
fn what_a_call_came_to() {
    let duration = Duration::from_micros(250);
    let read = adapter(GcsBenchScenario::ReadObject, None, None);
    let ok = read.request_stats(&answer(true), duration);
    assert!(ok.is_success);
    assert_eq!(ok.bytes_processed, 77);
    assert_eq!(ok.status, "OK");
    assert_eq!(ok.duration, duration);
    let nanos = Duration::from_nanos(250_999);
    assert_eq!(read.request_stats(&answer(true), nanos).duration, nanos);
    assert_eq!(ok.operation_name, None);
    assert!(!ok.fatal_error);

    let failed = read.request_stats(&answer(false), duration);
    assert!(!failed.is_success);
    assert_eq!(failed.bytes_processed, 0);
    assert_eq!(failed.status, "UNAVAILABLE");
    assert_eq!(failed.duration, duration);
    assert!(!failed.fatal_error);

    let write = adapter(GcsBenchScenario::ResumableWriteObject, None, None);
    assert_eq!(write.request_stats(&answer(true), duration).bytes_processed, 4096);
    assert_eq!(write.request_stats(&answer(false), duration).bytes_processed, 0);
    let query = adapter(GcsBenchScenario::QueryWriteStatus, None, None);
    assert_eq!(query.request_stats(&answer(true), duration).bytes_processed, 77);
}

#[test]
fn texts_of_an_answer() {
    let result = answer(false);
    assert_eq!(result.error_code(), "UNAVAILABLE");
    assert_eq!(result.upload_id(), "upload-1");
}
