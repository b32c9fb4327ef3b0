use preprompter::calendar::Date;
use preprompter::frame::CapturedFrame;
use preprompter::jsonl::{render_event_line, render_frame_line, FrameLogEntry, JsonlLogger, SessionEvent};

fn entry() -> FrameLogEntry {
    FrameLogEntry {
        timestamp_ms: 1710524730123,
        frame_id: "20240315-174530123".to_string(),
        s3_key: "2024/03/15/17/frame-1710524730123.jpg".to_string(),
        s3_bucket: "my-screen-captures".to_string(),
        width: 1920,
        height: 1080,
        monitor_id: 0,
        file_size_bytes: 123456,
        capture_duration_ms: 87,
        upload_duration_ms: 290,
        idle_seconds_before: 0,
    }
}

#[test]
fn frame_line_is_exactly_one_json_record() {
    let line = render_frame_line(&entry());
    let expected = "{\"timestamp\":\"2024-03-15T17:45:30.123Z\",\"frame_id\":\"20240315-174530123\",\"s3_key\":\"2024/03/15/17/frame-1710524730123.jpg\",\"s3_bucket\":\"my-screen-captures\",\"width\":1920,\"height\":1080,\"monitor_id\":0,\"file_size_bytes\":123456,\"capture_duration_ms\":87,\"upload_duration_ms\":290,\"idle_seconds_before\":0}";
    assert_eq!(line, expected);
}

#[test]
fn frame_line_parses_as_json() {
    let line = render_frame_line(&entry());
    let v: serde_json::Value = serde_json::from_str(&line).unwrap();
    assert_eq!(v["width"], 1920);
    assert_eq!(v["s3_bucket"], "my-screen-captures");
    assert_eq!(v["timestamp"], "2024-03-15T17:45:30.123Z");
}

#[test]
fn event_lines_carry_their_kind_and_payload() {
    let line = render_event_line(&SessionEvent::SessionEnd {
        timestamp_ms: 1710524730123,
        frames_captured: 42,
    });
    assert_eq!(
        line,
        "{\"event\":\"session_end\",\"timestamp\":\"2024-03-15T17:45:30.123Z\",\"frames_captured\":42}"
    );
    let line = render_event_line(&SessionEvent::IdleStart {
        timestamp_ms: 1710524730123,
        idle_after_seconds: 60,
    });
    let v: serde_json::Value = serde_json::from_str(&line).unwrap();
    assert_eq!(v["event"], "idle_start");
    assert_eq!(v["idle_after_seconds"], 60);
}

#[test]
fn version_strings_are_escaped() {
    let line = render_event_line(&SessionEvent::SessionStart {
        timestamp_ms: 0,
        version: "a\"b\\c\nd".to_string(),
    });
    let v: serde_json::Value = serde_json::from_str(&line).unwrap();
    assert_eq!(v["version"], "a\"b\\c\nd");
    assert_eq!(v["timestamp"], "1970-01-01T00:00:00.000Z");
}

#[test]
fn writes_straddling_midnight_go_to_two_files() {
    // Two writes on consecutive dates produce two day-partitioned files,
    // each holding an independently valid record.
    let mut logger = JsonlLogger::new("/var/log/caps".to_string());
    let before = Date { year: 2024, month: 12, day: 31 };
    let after = Date { year: 2025, month: 1, day: 1 };
    let w1 = logger.log_event_on(
        before,
        &SessionEvent::IdleStart { timestamp_ms: 1735689599000, idle_after_seconds: 60 },
    );
    let w2 = logger.log_event_on(
        after,
        &SessionEvent::IdleEnd { timestamp_ms: 1735689601000, idle_duration_seconds: 2 },
    );
    assert_eq!(w1.path, "/var/log/caps/2024-12-31.jsonl");
    assert_eq!(w2.path, "/var/log/caps/2025-01-01.jsonl");
    assert!(w1.opens_new_file);
    assert!(w2.opens_new_file);
    assert_ne!(w1.path, w2.path);
    let v1: serde_json::Value = serde_json::from_str(&w1.line).unwrap();
    let v2: serde_json::Value = serde_json::from_str(&w2.line).unwrap();
    assert_eq!(v1["event"], "idle_start");
    assert_eq!(v2["event"], "idle_end");
}

#[test]
fn same_day_writes_reuse_the_open_file() {
    let mut logger = JsonlLogger::new("logs".to_string());
    let today = Date { year: 2024, month: 3, day: 15 };
    let w1 = logger.log_event_on(
        today,
        &SessionEvent::SessionStart { timestamp_ms: 0, version: "1.0".to_string() },
    );
    let w2 = logger.log_event_on(
        today,
        &SessionEvent::SessionEnd { timestamp_ms: 1, frames_captured: 0 },
    );
    assert!(w1.opens_new_file);
    assert!(!w2.opens_new_file);
    assert_eq!(w1.path, w2.path);
}

#[test]
fn frame_write_targets_the_day_file() {
    let mut logger = JsonlLogger::new("logs".to_string());
    let today = Date { year: 2024, month: 3, day: 15 };
    let frame = CapturedFrame {
        data: vec![0; 123456],
        width: 1920,
        height: 1080,
        timestamp_ms: 1710524730123,
        monitor_id: 0,
        capture_duration_ms: 87,
    };
    let w = logger.log_frame_on(today, &frame, "key", "bucket", 290, 0);
    assert_eq!(w.path, "logs/2024-03-15.jsonl");
    let v: serde_json::Value = serde_json::from_str(&w.line).unwrap();
    assert_eq!(v["frame_id"], "20240315-174530123");
    assert_eq!(v["file_size_bytes"], 123456);
    assert_eq!(v["s3_key"], "key");
}

#[test]
fn idle_period_bookkeeping_computes_whole_seconds() {
    let mut logger = JsonlLogger::new("logs".to_string());
    let today = Date { year: 2024, month: 3, day: 15 };
    assert_eq!(logger.idle_start_time(), None);
    logger.idle_start_time_ms = Some(1000);
    assert_eq!(logger.idle_start_time(), Some(1000));
    let w = logger.log_idle_end_at(8500, today);
    assert_eq!(logger.idle_start_time(), None);
    let v: serde_json::Value = serde_json::from_str(&w.line).unwrap();
    assert_eq!(v["idle_duration_seconds"], 7);
}

#[test]
fn idle_end_without_open_period_reports_zero() {
    let mut logger = JsonlLogger::new("logs".to_string());
    let today = Date { year: 2024, month: 3, day: 15 };
    let w = logger.log_idle_end_at(8500, today);
    let v: serde_json::Value = serde_json::from_str(&w.line).unwrap();
    assert_eq!(v["idle_duration_seconds"], 0);
}
