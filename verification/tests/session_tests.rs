use preprompter::frame::CapturedFrame;
use preprompter::idle::{checker_step, monitor_step, ActivityState, IdleState};
use preprompter::scheduler::{
    run_session, Emitted, FrameUpload, LoopEvent, MenuCommand, SchedulerState, TickOutcome,
};
use preprompter::upload::{upload_from_attempts, AttemptRecord, UploadResult};

fn frame_at(ms: u64) -> CapturedFrame {
    CapturedFrame {
        data: vec![0; 10],
        width: 64,
        height: 64,
        timestamp_ms: ms,
        monitor_id: 0,
        capture_duration_ms: 5,
    }
}

fn good_upload(key: &str) -> Result<UploadResult, preprompter::upload::UploadError> {
    Ok(UploadResult {
        key: key.to_string(),
        etag: "e".to_string(),
        uploaded_at_ms: 0,
        upload_duration_ms: 40,
        attempt_count: 1,
    })
}

fn good_tick(ms: u64, key: &str) -> LoopEvent {
    LoopEvent::Tick(TickOutcome {
        capture: Ok(vec![FrameUpload { frame: frame_at(ms), upload: good_upload(key) }]),
    })
}

#[test]
fn idle_onset_suppresses_captures() {
    // One-second ticks against a five-second idle threshold: the idle
    // source reports fresh activity for three ticks, then a six-second
    // idle reading; captures run on the first three ticks and stop the
    // moment the transition is observed, with the threshold in the
    // idle-start record.
    let threshold_ms = 5000;
    let mut idle = IdleState::new_at(0);

    // Ticks at 1 s, 2 s, 3 s: the source reports 0 ms idle, so each poll
    // refreshes the last-activity timestamp and no transition fires.
    let mut events = Vec::new();
    for k in 1..=3u64 {
        let now = k * 1000;
        monitor_step(&mut idle, Some(0), now, 500);
        assert_eq!(checker_step(&mut idle, threshold_ms, now), None);
        events.push(good_tick(now, &format!("key-{}", k)));
    }

    // The reading then jumps to 6000 ms: the monitor leaves the timestamp
    // alone, and once the elapsed idle time reaches six seconds the
    // checker emits the one idle transition.
    let now = 9000;
    monitor_step(&mut idle, Some(6000), now, 500);
    let transition = checker_step(&mut idle, threshold_ms, now);
    assert_eq!(transition, Some(ActivityState::Idle { since_ms: 3000 }));
    events.push(LoopEvent::Activity(transition.unwrap()));

    // The next tick is suppressed silently.
    events.push(good_tick(10_000, "key-suppressed"));
    events.push(LoopEvent::Command(MenuCommand::Quit));

    let (st, out) = run_session(SchedulerState::new(5), events);
    assert_eq!(st.frames_captured, 3);
    assert_eq!(out.len(), 6);
    for k in 0..3usize {
        match &out[k] {
            Emitted::Uploaded { key, .. } => assert_eq!(key, &format!("key-{}", k + 1)),
            other => panic!("expected an upload record, got {:?}", other),
        }
    }
    assert!(matches!(out[3], Emitted::IdleStarted { threshold_seconds: 5 }));
    assert!(matches!(out[4], Emitted::QuitRequested));
    assert!(matches!(out[5], Emitted::SessionEnded { frames_captured: 3 }));
}

#[test]
fn resumed_activity_resumes_captures() {
    let events = vec![
        LoopEvent::Activity(ActivityState::Idle { since_ms: 0 }),
        good_tick(1000, "skipped"),
        LoopEvent::Activity(ActivityState::Active),
        good_tick(2000, "captured"),
        LoopEvent::Command(MenuCommand::Quit),
    ];
    let (st, out) = run_session(SchedulerState::new(60), events);
    assert_eq!(st.frames_captured, 1);
    assert!(matches!(out[0], Emitted::IdleStarted { .. }));
    assert!(matches!(out[1], Emitted::IdleEnded));
    assert!(matches!(out[2], Emitted::Uploaded { .. }));
}

#[test]
fn repeated_transitions_are_silent() {
    let events = vec![
        LoopEvent::Activity(ActivityState::Active),
        LoopEvent::Activity(ActivityState::Idle { since_ms: 1 }),
        LoopEvent::Activity(ActivityState::Idle { since_ms: 2 }),
        LoopEvent::Command(MenuCommand::Quit),
    ];
    let (_, out) = run_session(SchedulerState::new(60), events);
    assert_eq!(out.len(), 3);
    assert!(matches!(out[0], Emitted::IdleStarted { .. }));
    assert!(matches!(out[1], Emitted::QuitRequested));
    assert!(matches!(out[2], Emitted::SessionEnded { frames_captured: 0 }));
}

#[test]
fn pause_toggle_skips_ticks_silently() {
    let events = vec![
        LoopEvent::Command(MenuCommand::ToggleCapture),
        good_tick(1000, "skipped"),
        LoopEvent::Command(MenuCommand::ToggleCapture),
        good_tick(2000, "captured"),
        LoopEvent::Command(MenuCommand::Quit),
    ];
    let (st, out) = run_session(SchedulerState::new(60), events);
    assert_eq!(st.frames_captured, 1);
    assert!(matches!(out[0], Emitted::CaptureToggled { enabled: false }));
    assert!(matches!(out[1], Emitted::CaptureToggled { enabled: true }));
    assert!(matches!(out[2], Emitted::Uploaded { .. }));
}

#[test]
fn capture_failure_is_contained_in_its_tick() {
    let events = vec![
        LoopEvent::Tick(TickOutcome { capture: Err("no display".to_string()) }),
        good_tick(2000, "captured"),
        LoopEvent::Command(MenuCommand::Quit),
    ];
    let (st, out) = run_session(SchedulerState::new(60), events);
    assert_eq!(st.frames_captured, 1);
    match &out[0] {
        Emitted::CaptureFailed { error } => assert_eq!(error, "no display"),
        other => panic!("expected a capture failure, got {:?}", other),
    }
    assert!(matches!(out[1], Emitted::Uploaded { .. }));
}

#[test]
fn failed_upload_leaves_no_frame_record() {
    // A terminally failing upload drops the frame: an upload-failure
    // report appears, no frame record, and the final count omits it.
    let outcomes = vec![
        AttemptRecord { result: Err("one".to_string()), duration_ms: 5 },
        AttemptRecord { result: Err("two".to_string()), duration_ms: 5 },
        AttemptRecord { result: Err("three".to_string()), duration_ms: 5 },
    ];
    let failed = upload_from_attempts(&outcomes, 3, 100, "key", 0);
    let events = vec![
        LoopEvent::Tick(TickOutcome {
            capture: Ok(vec![FrameUpload { frame: frame_at(1000), upload: failed }]),
        }),
        LoopEvent::Command(MenuCommand::Quit),
    ];
    let (st, out) = run_session(SchedulerState::new(60), events);
    assert_eq!(st.frames_captured, 0);
    match &out[0] {
        Emitted::UploadFailed { attempts, error, .. } => {
            assert_eq!(*attempts, 3);
            assert_eq!(error, "three");
        },
        other => panic!("expected an upload failure, got {:?}", other),
    }
    assert!(matches!(out[2], Emitted::SessionEnded { frames_captured: 0 }));
}

#[test]
fn retried_upload_reports_cumulative_duration_in_its_record() {
    // The storage fails twice and succeeds on the third attempt: the
    // frame record carries attempt count three and the wall time of all
    // attempts plus both backoff sleeps.
    let outcomes = vec![
        AttemptRecord { result: Err("one".to_string()), duration_ms: 30 },
        AttemptRecord { result: Err("two".to_string()), duration_ms: 40 },
        AttemptRecord { result: Ok("etag-3".to_string()), duration_ms: 50 },
    ];
    let upload = upload_from_attempts(&outcomes, 3, 100, "key-r", 0);
    let events = vec![
        LoopEvent::Tick(TickOutcome {
            capture: Ok(vec![FrameUpload { frame: frame_at(1000), upload }]),
        }),
        LoopEvent::Command(MenuCommand::Quit),
    ];
    let (st, out) = run_session(SchedulerState::new(60), events);
    assert_eq!(st.frames_captured, 1);
    match &out[0] {
        Emitted::Uploaded { key, upload_duration_ms, attempt_count, .. } => {
            assert_eq!(key, "key-r");
            assert_eq!(*attempt_count, 3);
            assert_eq!(*upload_duration_ms, 30 + 200 + 40 + 400 + 50);
        },
        other => panic!("expected an upload record, got {:?}", other),
    }
}

#[test]
fn cancellation_lets_the_tick_in_flight_finish() {
    // Cancellation arrives while a tick is under way: that tick's upload
    // completes and its record precedes the session end; a tick queued
    // behind the cancellation never starts.
    let events = vec![
        good_tick(1000, "in-flight"),
        LoopEvent::Command(MenuCommand::Quit),
        good_tick(2000, "never-started"),
    ];
    let (st, out) = run_session(SchedulerState::new(60), events);
    assert!(!st.running);
    assert_eq!(st.frames_captured, 1);
    assert_eq!(out.len(), 3);
    match &out[0] {
        Emitted::Uploaded { key, .. } => assert_eq!(key, "in-flight"),
        other => panic!("expected an upload record, got {:?}", other),
    }
    assert!(matches!(out[1], Emitted::QuitRequested));
    assert!(matches!(out[2], Emitted::SessionEnded { frames_captured: 1 }));
}

#[test]
fn session_end_is_written_even_for_an_empty_session() {
    let (st, out) = run_session(SchedulerState::new(60), Vec::new());
    assert!(st.running);
    assert_eq!(out.len(), 1);
    assert!(matches!(out[0], Emitted::SessionEnded { frames_captured: 0 }));
}

#[test]
fn multi_monitor_tick_records_every_frame() {
    let events = vec![
        LoopEvent::Tick(TickOutcome {
            capture: Ok(vec![
                FrameUpload { frame: frame_at(1000), upload: good_upload("m0") },
                FrameUpload { frame: frame_at(1000), upload: good_upload("m1") },
            ]),
        }),
        LoopEvent::Command(MenuCommand::Quit),
    ];
    let (st, out) = run_session(SchedulerState::new(60), events);
    assert_eq!(st.frames_captured, 2);
    assert!(matches!(out[0], Emitted::Uploaded { .. }));
    assert!(matches!(out[1], Emitted::Uploaded { .. }));
}
