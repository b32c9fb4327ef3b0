use preprompter::upload::{
    collect_batch, pow2_u64, upload_from_attempts, AttemptRecord, S3Uploader, UploadError,
    UploadResult,
};

fn ok(etag: &str, ms: u64) -> AttemptRecord {
    AttemptRecord { result: Ok(etag.to_string()), duration_ms: ms }
}

fn err(message: &str, ms: u64) -> AttemptRecord {
    AttemptRecord { result: Err(message.to_string()), duration_ms: ms }
}

#[test]
fn backoff_delays_double_per_retry() {
    let up = S3Uploader::new("bucket".to_string(), None);
    assert_eq!(up.delay_before_attempt(0), 0);
    assert_eq!(up.delay_before_attempt(1), 200);
    assert_eq!(up.delay_before_attempt(2), 400);
    assert_eq!(up.delay_before_attempt(3), 800);
}

#[test]
fn pow2_computes_powers() {
    assert_eq!(pow2_u64(0), 1);
    assert_eq!(pow2_u64(10), 1024);
}

#[test]
fn first_attempt_success_needs_no_backoff() {
    let outcomes = vec![ok("etag-1", 50), err("unused", 1), err("unused", 1)];
    let r = upload_from_attempts(&outcomes, 3, 100, "k", 777).unwrap();
    assert_eq!(r.attempt_count, 1);
    assert_eq!(r.upload_duration_ms, 50);
    assert_eq!(r.etag, "etag-1");
    assert_eq!(r.key, "k");
    assert_eq!(r.uploaded_at_ms, 777);
}

#[test]
fn two_failures_then_success_reports_cumulative_time() {
    // Attempt durations 30 + 40 + 50, backoff 200 before the second try
    // and 400 before the third.
    let outcomes = vec![err("first", 30), err("second", 40), ok("etag-3", 50)];
    let r = upload_from_attempts(&outcomes, 3, 100, "key", 0).unwrap();
    assert_eq!(r.attempt_count, 3);
    assert_eq!(r.upload_duration_ms, 30 + 200 + 40 + 400 + 50);
    assert_eq!(r.etag, "etag-3");
}

#[test]
fn permanent_failure_exhausts_the_budget() {
    // A permanently failing storage yields exactly the budgeted number of
    // attempts, a terminal failure, and the last underlying error.
    let outcomes = vec![err("one", 5), err("two", 5), err("three", 5)];
    let r = upload_from_attempts(&outcomes, 3, 100, "key", 0);
    let e = r.unwrap_err();
    assert_eq!(e.attempts, 3);
    assert_eq!(e.message, "three");
}

#[test]
fn budget_of_one_tries_once() {
    let outcomes = vec![err("only", 5)];
    let e = upload_from_attempts(&outcomes, 1, 100, "key", 0).unwrap_err();
    assert_eq!(e.attempts, 1);
    assert_eq!(e.message, "only");
}

#[test]
fn success_after_budget_is_never_reached() {
    let outcomes = vec![err("one", 5), err("two", 5), ok("late", 5)];
    assert!(upload_from_attempts(&outcomes, 2, 100, "key", 0).is_err());
}

#[test]
fn policy_carries_bucket_and_budget() {
    let up = S3Uploader::new("b".to_string(), Some("p".to_string())).with_retry_attempts(5);
    assert_eq!(up.bucket, "b");
    assert_eq!(up.prefix.as_deref(), Some("p"));
    assert_eq!(up.retry_attempts, 5);
    assert_eq!(up.base_delay_ms, 100);
}

#[test]
fn frame_key_uses_the_policy_prefix() {
    let up = S3Uploader::new("b".to_string(), Some("shots/".to_string()));
    let frame = preprompter::frame::CapturedFrame {
        data: vec![],
        width: 1,
        height: 1,
        timestamp_ms: 1710524730123,
        monitor_id: 0,
        capture_duration_ms: 0,
    };
    assert_eq!(up.frame_key(&frame), "shots/2024/03/15/17/frame-1710524730123.jpg");
}

#[test]
fn batch_keeps_successes_in_order_and_counts_failures() {
    let u = |key: &str| UploadResult {
        key: key.to_string(),
        etag: "e".to_string(),
        uploaded_at_ms: 0,
        upload_duration_ms: 0,
        attempt_count: 1,
    };
    let e = UploadError { attempts: 3, message: "boom".to_string() };
    let results = vec![Ok(u("a")), Err(e), Ok(u("b"))];
    let (oks, failures) = collect_batch(results);
    assert_eq!(failures, 1);
    assert_eq!(oks.len(), 2);
    assert_eq!(oks[0].key, "a");
    assert_eq!(oks[1].key, "b");
}
