use preprompter::idle::{checker_step, monitor_step, ActivityState, IdleDetector, IdleState};

#[test]
fn boundary_duration_classifies_idle() {
    // An idle duration exactly at the threshold is idle.
    let mut st = IdleState::new_at(0);
    let emitted = checker_step(&mut st, 5000, 5000);
    assert!(st.is_idle);
    assert_eq!(emitted, Some(ActivityState::Idle { since_ms: 0 }));
}

#[test]
fn below_threshold_classifies_active() {
    let mut st = IdleState::new_at(0);
    let emitted = checker_step(&mut st, 5000, 4999);
    assert!(!st.is_idle);
    assert_eq!(emitted, None);
}

#[test]
fn transitions_are_edge_triggered() {
    // Repeated checks under unchanged status emit exactly once.
    let mut st = IdleState::new_at(0);
    let first = checker_step(&mut st, 1000, 6000);
    assert!(first.is_some());
    assert_eq!(checker_step(&mut st, 1000, 6500), None);
    assert_eq!(checker_step(&mut st, 1000, 7000), None);
    // Activity resumes: one transition back, then silence again.
    st.update_activity_at(7100);
    let back = checker_step(&mut st, 1000, 7200);
    assert_eq!(back, Some(ActivityState::Active));
    assert_eq!(checker_step(&mut st, 1000, 7300), None);
}

#[test]
fn idle_since_is_the_estimated_stop_moment() {
    let mut st = IdleState::new_at(2000);
    let emitted = checker_step(&mut st, 1000, 9000);
    // since = now - idle_duration, the moment activity stopped.
    assert_eq!(emitted, Some(ActivityState::Idle { since_ms: 2000 }));
}

#[test]
fn monitor_updates_on_fresh_reading() {
    let mut st = IdleState::new_at(0);
    monitor_step(&mut st, Some(120), 10_000, 500);
    assert_eq!(st.last_activity_ms, 10_000);
}

#[test]
fn monitor_ignores_stale_reading() {
    let mut st = IdleState::new_at(0);
    monitor_step(&mut st, Some(500), 10_000, 500);
    assert_eq!(st.last_activity_ms, 0);
}

#[test]
fn monitor_ignores_failed_reading() {
    // A failed idle-source read leaves the state unchanged: fail toward
    // active.
    let mut st = IdleState::new_at(0);
    monitor_step(&mut st, None, 10_000, 500);
    assert_eq!(st.last_activity_ms, 0);
}

#[test]
fn idle_duration_saturates_at_zero() {
    let st = IdleState::new_at(5000);
    assert_eq!(st.idle_duration_at(4000), 0);
    assert_eq!(st.idle_duration_at(5000), 0);
    assert_eq!(st.idle_duration_at(6500), 1500);
}

#[test]
fn detector_reports_idle_since_last_activity() {
    let mut det = IdleDetector::new_at(60_000, 1000);
    assert_eq!(det.state(), ActivityState::Active);
    let _ = checker_step(&mut det.state, 60_000, 61_000);
    assert_eq!(det.state(), ActivityState::Idle { since_ms: 1000 });
}

#[test]
fn start_reports_whether_it_already_ran() {
    let mut det = IdleDetector::new_at(60_000, 0);
    assert!(!det.start());
    assert!(det.start());
    det.stop();
    assert!(!det.state.running);
}

#[test]
fn fresh_state_from_wall_clock_is_active() {
    // Exercises the clock reading; whatever instant it reports, the
    // detector starts stopped and active.
    let st = IdleState::new();
    assert!(!st.running);
    assert!(!st.is_idle);
}

#[test]
fn local_date_is_in_calendar_range() {
    let d = preprompter::clock::local_date_today();
    assert!((1..=12).contains(&d.month));
    assert!((1..=31).contains(&d.day));
}
