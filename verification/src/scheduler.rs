//! The capture scheduler: one orchestration loop multiplexes timer ticks,
//! menu commands and activity transitions, captures and uploads on each
//! tick unless paused or idle, and ends the session cooperatively. The
//! timers, channels and collaborator calls live outside the library; what
//! each event does to the state, and which records it produces, is decided
//! and verified here.

use vstd::prelude::*;

use crate::frame::CapturedFrame;
use crate::idle::ActivityState;
use crate::upload::{UploadError, UploadResult};

verus! {

/// Commands arriving from the platform UI.
#[derive(Debug, Clone, Copy, PartialEq, Eq, Structural)]
pub enum MenuCommand {
    ToggleCapture,
    Quit,
}

/// What one tick's collaborators returned: the captured frames each paired
/// with the outcome of its upload, or the capture error. Consumed only on
/// a tick that is not skipped.
#[derive(Debug)]
pub struct TickOutcome {
    pub capture: Result<Vec<FrameUpload>, String>,
}

/// A captured frame together with what the upload pipeline returned for
/// it.
#[derive(Debug)]
pub struct FrameUpload {
    pub frame: CapturedFrame,
    pub upload: Result<UploadResult, UploadError>,
}

/// One event the orchestration loop reacts to: a timer tick, a menu
/// command, or an activity transition.
#[derive(Debug)]
pub enum LoopEvent {
    Tick(TickOutcome),
    Command(MenuCommand),
    Activity(ActivityState),
}

/// The orchestration state.
#[derive(Debug, Clone, Copy, PartialEq, Eq, Structural)]
pub struct SchedulerState {
    /// The cancellation flag: the loop runs while it is set.
    pub running: bool,
    /// Whether capture is enabled (the pause toggle).
    pub capture_enabled: bool,
    /// Mirror of the latest activity transition.
    pub is_idle: bool,
    /// Frames captured and uploaded so far this session.
    pub frames_captured: u64,
    /// The configured idle threshold in seconds, written with idle-start
    /// events.
    pub threshold_seconds: u64,
}

impl SchedulerState {
    /// The state a session starts in: running, capturing, active, nothing
    /// captured yet.
    pub fn new(threshold_seconds: u64) -> (r: Self)
        ensures
            r.running,
            r.capture_enabled,
            !r.is_idle,
            r.frames_captured == 0,
            r.threshold_seconds == threshold_seconds,
    {
        SchedulerState {
            running: true,
            capture_enabled: true,
            is_idle: false,
            frames_captured: 0,
            threshold_seconds,
        }
    }
}

/// What the session writes or reports, in order. A frame record exists
/// exactly for each upload that ended in success; a failed upload leaves
/// an upload-failure report and no record.
#[derive(Debug)]
pub enum Emitted {
    /// The capturer failed; the tick is skipped and the loop continues.
    CaptureFailed { error: String },
    /// A frame was uploaded: the frame record of the session log.
    Uploaded {
        timestamp_ms: u64,
        monitor_id: u32,
        width: u32,
        height: u32,
        file_size_bytes: u64,
        capture_duration_ms: u64,
        key: String,
        upload_duration_ms: u64,
        attempt_count: u32,
    },
    /// An upload exhausted its budget: the frame is dropped.
    UploadFailed { timestamp_ms: u64, attempts: u32, error: String },
    /// The session went idle: captures are suppressed from here.
    IdleStarted { threshold_seconds: u64 },
    /// Activity resumed: captures resume on the next tick.
    IdleEnded,
    /// The pause toggle flipped.
    CaptureToggled { enabled: bool },
    /// Cancellation was requested; the loop winds down.
    QuitRequested,
    /// The session is over; the total frame count is written last.
    SessionEnded { frames_captured: u64 },
}

/// A frame counter one higher, capped at its largest value.
pub open spec fn spec_inc_saturating(n: u64) -> u64 {
    if n < u64::MAX {
        (n + 1) as u64
    } else {
        n
    }
}

/// What one frame's upload outcome does: success counts the frame and
/// produces its record; failure drops the frame with a report.
pub open spec fn spec_upload_effect(st: SchedulerState, fu: FrameUpload) -> (
    SchedulerState,
    Emitted,
) {
    match fu.upload {
        Ok(u) => (
            SchedulerState { frames_captured: spec_inc_saturating(st.frames_captured), ..st },
            Emitted::Uploaded {
                timestamp_ms: fu.frame.timestamp_ms,
                monitor_id: fu.frame.monitor_id,
                width: fu.frame.width,
                height: fu.frame.height,
                file_size_bytes: fu.frame.data@.len() as u64,
                capture_duration_ms: fu.frame.capture_duration_ms,
                key: u.key,
                upload_duration_ms: u.upload_duration_ms,
                attempt_count: u.attempt_count,
            },
        ),
        Err(e) => (
            st,
            Emitted::UploadFailed {
                timestamp_ms: fu.frame.timestamp_ms,
                attempts: e.attempts,
                error: e.message,
            },
        ),
    }
}

/// The frames of one tick, processed strictly in order.
pub open spec fn spec_frames_effects(st: SchedulerState, fus: Seq<FrameUpload>) -> (
    SchedulerState,
    Seq<Emitted>,
)
    decreases fus.len(),
{
    if fus.len() == 0 {
        (st, Seq::empty())
    } else {
        let (st1, e) = spec_upload_effect(st, fus[0]);
        let (st2, rest) = spec_frames_effects(st1, fus.drop_first());
        (st2, seq![e] + rest)
    }
}

/// What one event does to the state and what it emits.
pub open spec fn spec_step(st: SchedulerState, event: LoopEvent) -> (
    SchedulerState,
    Seq<Emitted>,
) {
    match event {
        LoopEvent::Tick(t) => {
            if !st.capture_enabled || st.is_idle {
                (st, Seq::empty())
            } else {
                match t.capture {
                    Ok(fus) => spec_frames_effects(st, fus@),
                    Err(e) => (st, seq![Emitted::CaptureFailed { error: e }]),
                }
            }
        },
        LoopEvent::Command(MenuCommand::ToggleCapture) => {
            let enabled = !st.capture_enabled;
            (
                SchedulerState { capture_enabled: enabled, ..st },
                seq![Emitted::CaptureToggled { enabled }],
            )
        },
        LoopEvent::Command(MenuCommand::Quit) => (
            SchedulerState { running: false, ..st },
            seq![Emitted::QuitRequested],
        ),
        LoopEvent::Activity(ActivityState::Active) => {
            if st.is_idle {
                (SchedulerState { is_idle: false, ..st }, seq![Emitted::IdleEnded])
            } else {
                (st, Seq::empty())
            }
        },
        LoopEvent::Activity(ActivityState::Idle { since_ms }) => {
            if !st.is_idle {
                (
                    SchedulerState { is_idle: true, ..st },
                    seq![Emitted::IdleStarted { threshold_seconds: st.threshold_seconds }],
                )
            } else {
                (st, Seq::empty())
            }
        },
    }
}

/// A whole session from a state: events processed in order while the
/// running flag holds, then the session-end record with the final frame
/// count. An event in flight when cancellation arrives is finished first;
/// events queued behind the cancellation are never started.
pub open spec fn spec_run_session(st: SchedulerState, events: Seq<LoopEvent>) -> (
    SchedulerState,
    Seq<Emitted>,
)
    decreases events.len(),
{
    if !st.running || events.len() == 0 {
        (st, seq![Emitted::SessionEnded { frames_captured: st.frames_captured }])
    } else {
        let (st1, out1) = spec_step(st, events[0]);
        let (st2, rest) = spec_run_session(st1, events.drop_first());
        (st2, out1 + rest)
    }
}

/// Process one frame's upload outcome.
fn upload_effect(st: &mut SchedulerState, fu: FrameUpload) -> (e: Emitted)
    ensures
        *final(st) == spec_upload_effect(*old(st), fu).0,
        e == spec_upload_effect(*old(st), fu).1,
{
    match fu.upload {
        Ok(u) => {
            if st.frames_captured < u64::MAX {
                st.frames_captured = st.frames_captured + 1;
            }
            Emitted::Uploaded {
                timestamp_ms: fu.frame.timestamp_ms,
                monitor_id: fu.frame.monitor_id,
                width: fu.frame.width,
                height: fu.frame.height,
                file_size_bytes: fu.frame.data.len() as u64,
                capture_duration_ms: fu.frame.capture_duration_ms,
                key: u.key,
                upload_duration_ms: u.upload_duration_ms,
                attempt_count: u.attempt_count,
            }
        },
        Err(e) => Emitted::UploadFailed {
            timestamp_ms: fu.frame.timestamp_ms,
            attempts: e.attempts,
            error: e.message,
        },
    }
}

/// React to one event: skip the tick when paused or idle, process every
/// captured frame in order, mirror activity transitions edge-triggered,
/// flip the pause toggle, or accept cancellation.
pub fn scheduler_step(st: &mut SchedulerState, event: LoopEvent) -> (out: Vec<Emitted>)
    ensures
        *final(st) == spec_step(*old(st), event).0,
        out@ == spec_step(*old(st), event).1,
{
    let mut out: Vec<Emitted> = Vec::new();
    match event {
        LoopEvent::Tick(t) => {
            if !st.capture_enabled || st.is_idle {
                return out;
            }
            match t.capture {
                Ok(fus) => {
                    let ghost st0 = *st;
                    let ghost all = fus@;
                    let mut remaining = fus;
                    let n = remaining.len();
                    let mut i: usize = 0;
                    let ghost target = spec_frames_effects(st0, all);
                    proof {
                        assert(all.subrange(0, n as int) =~= all);
                        assert(out@ + spec_frames_effects(*st, all).1 =~= target.1);
                    }
                    while i < n
                        invariant
                            i <= n,
                            n == all.len(),
                            remaining@ == all.subrange(i as int, n as int),
                            target == spec_frames_effects(st0, all),
                            spec_frames_effects(*st, all.subrange(i as int, n as int)).0
                                == target.0,
                            out@ + spec_frames_effects(*st, all.subrange(i as int, n as int)).1
                                == target.1,
                        decreases n - i,
                    {
                        let ghost st_before = *st;
                        let ghost suffix = all.subrange(i as int, n as int);
                        let fu = remaining.remove(0);
                        proof {
                            assert(suffix[0] == all[i as int]);
                            assert(remaining@ =~= all.subrange(i as int + 1, n as int));
                            assert(suffix.drop_first() =~= all.subrange(i as int + 1, n as int));
                        }
                        let e = upload_effect(st, fu);
                        out.push(e);
                        proof {
                            let (st1, e_spec) = spec_upload_effect(st_before, all[i as int]);
                            assert(spec_frames_effects(st_before, suffix).1 == seq![e_spec]
                                + spec_frames_effects(st1, suffix.drop_first()).1);
                            assert(out@ + spec_frames_effects(
                                *st,
                                all.subrange(i as int + 1, n as int),
                            ).1 =~= target.1);
                        }
                        i = i + 1;
                    }
                    proof {
                        assert(all.subrange(n as int, n as int) =~= Seq::<FrameUpload>::empty());
                        assert(out@ + Seq::<Emitted>::empty() =~= out@);
                    }
                },
                Err(e) => {
                    out.push(Emitted::CaptureFailed { error: e });
                },
            }
        },
        LoopEvent::Command(MenuCommand::ToggleCapture) => {
            st.capture_enabled = !st.capture_enabled;
            out.push(Emitted::CaptureToggled { enabled: st.capture_enabled });
        },
        LoopEvent::Command(MenuCommand::Quit) => {
            st.running = false;
            out.push(Emitted::QuitRequested);
        },
        LoopEvent::Activity(ActivityState::Active) => {
            if st.is_idle {
                st.is_idle = false;
                out.push(Emitted::IdleEnded);
            }
        },
        LoopEvent::Activity(ActivityState::Idle { since_ms: _ }) => {
            if !st.is_idle {
                st.is_idle = true;
                out.push(Emitted::IdleStarted { threshold_seconds: st.threshold_seconds });
            }
        },
    }
    out
}

/// Run a whole session over a queue of events: each event is processed to
/// completion in order while the running flag holds; cancellation stops
/// the loop at the next iteration boundary, and the session-end record
/// with the final frame count is written last.
pub fn run_session(st0: SchedulerState, events: Vec<LoopEvent>) -> (r: (
    SchedulerState,
    Vec<Emitted>,
))
    ensures
        r.0 == spec_run_session(st0, events@).0,
        r.1@ == spec_run_session(st0, events@).1,
{
    let ghost all = events@;
    let ghost target = spec_run_session(st0, all);
    let mut st = st0;
    let mut out: Vec<Emitted> = Vec::new();
    let mut remaining = events;
    let n = remaining.len();
    let mut i: usize = 0;
    proof {
        assert(all.subrange(0, n as int) =~= all);
        assert(out@ + spec_run_session(st, all).1 =~= target.1);
    }
    while i < n && st.running
        invariant
            i <= n,
            n == all.len(),
            remaining@ == all.subrange(i as int, n as int),
            target == spec_run_session(st0, all),
            spec_run_session(st, all.subrange(i as int, n as int)).0 == target.0,
            out@ + spec_run_session(st, all.subrange(i as int, n as int)).1 == target.1,
        decreases n - i,
    {
        let ghost st_before = st;
        let ghost suffix = all.subrange(i as int, n as int);
        let event = remaining.remove(0);
        proof {
            assert(suffix[0] == all[i as int]);
            assert(suffix.drop_first() =~= all.subrange(i as int + 1, n as int));
        }
        let step_out = scheduler_step(&mut st, event);
        let mut step_out = step_out;
        out.append(&mut step_out);
        proof {
            let (st1, out1) = spec_step(st_before, all[i as int]);
            assert(spec_run_session(st_before, suffix).1 == out1 + spec_run_session(
                st1,
                suffix.drop_first(),
            ).1);
            assert(out@ + spec_run_session(st, all.subrange(i as int + 1, n as int)).1
                =~= target.1);
        }
        i = i + 1;
    }
    proof {
        let suffix = all.subrange(i as int, n as int);
        if st.running {
            assert(i == n);
            assert(suffix =~= Seq::<LoopEvent>::empty());
        }
        assert(spec_run_session(st, suffix).1 =~= seq![
            Emitted::SessionEnded { frames_captured: st.frames_captured },
        ]);
        assert(spec_run_session(st, suffix).0 == st);
    }
    out.push(Emitted::SessionEnded { frames_captured: st.frames_captured });
    proof {
        assert(out@ =~= target.1);
    }
    (st, out)
}

/// Whether an emitted element is the session-end record.
pub open spec fn is_session_end(e: Emitted) -> bool {
    e is SessionEnded
}

/// How many frame records a run of emissions holds.
pub open spec fn count_uploaded(out: Seq<Emitted>) -> int
    decreases out.len(),
{
    if out.len() == 0 {
        0
    } else {
        count_uploaded(out.drop_last()) + if out.last() is Uploaded {
            1int
        } else {
            0int
        }
    }
}

/// Counting distributes over concatenation.
proof fn lemma_count_uploaded_concat(a: Seq<Emitted>, b: Seq<Emitted>)
    ensures
        count_uploaded(a + b) == count_uploaded(a) + count_uploaded(b),
    decreases b.len(),
{
    if b.len() == 0 {
        assert(a + b =~= a);
    } else {
        lemma_count_uploaded_concat(a, b.drop_last());
        assert((a + b).drop_last() =~= a + b.drop_last());
        assert((a + b).last() == b.last());
    }
}

/// One frame's effect counts the frame exactly on success, and a tick's
/// emissions never hold a session end or a cancellation.
proof fn lemma_frames_effects_count(st: SchedulerState, fus: Seq<FrameUpload>)
    requires
        st.frames_captured + count_uploaded(spec_frames_effects(st, fus).1) <= u64::MAX,
    ensures
        ({
            let (st1, out) = spec_frames_effects(st, fus);
            &&& st1.frames_captured == st.frames_captured + count_uploaded(out)
            &&& 0 <= count_uploaded(out) <= fus.len()
            &&& st1.running == st.running
            &&& st1.capture_enabled == st.capture_enabled
            &&& st1.is_idle == st.is_idle
            &&& st1.threshold_seconds == st.threshold_seconds
            &&& (forall|k: int| 0 <= k < out.len() ==> !is_session_end(#[trigger] out[k]))
            &&& (forall|k: int| 0 <= k < out.len() ==> !(#[trigger] out[k] is QuitRequested))
            &&& out.len() == fus.len()
        }),
    decreases fus.len(),
{
    if fus.len() > 0 {
        let (st1, e) = spec_upload_effect(st, fus[0]);
        let (st2, rest) = spec_frames_effects(st1, fus.drop_first());
        let out = seq![e] + rest;
        lemma_count_uploaded_concat(seq![e], rest);
        lemma_count_single(e);
        lemma_count_uploaded_nonneg(rest);
        lemma_frames_effects_count(st1, fus.drop_first());
        assert(forall|k: int| 1 <= k < out.len() ==> #[trigger] out[k] == rest[k - 1]);
    }
}

/// A count of frame records is never negative.
proof fn lemma_count_uploaded_nonneg(out: Seq<Emitted>)
    ensures
        count_uploaded(out) >= 0,
    decreases out.len(),
{
    if out.len() > 0 {
        lemma_count_uploaded_nonneg(out.drop_last());
    }
}

/// One event's effect counts exactly its frame records, never ends the
/// session record stream, and touches the running flag only on a quit.
proof fn lemma_step_count(st: SchedulerState, event: LoopEvent)
    requires
        st.frames_captured + count_uploaded(spec_step(st, event).1) <= u64::MAX,
    ensures
        ({
            let (st1, out) = spec_step(st, event);
            &&& st1.frames_captured == st.frames_captured + count_uploaded(out)
            &&& (forall|k: int| 0 <= k < out.len() ==> !is_session_end(#[trigger] out[k]))
            &&& (forall|k: int|
                0 <= k < out.len() && #[trigger] out[k] is QuitRequested ==> !st1.running
                    && out.len() == 1)
            &&& st1.threshold_seconds == st.threshold_seconds
        }),
{
    match event {
        LoopEvent::Tick(t) => {
            if st.capture_enabled && !st.is_idle {
                match t.capture {
                    Ok(fus) => {
                        lemma_frames_effects_count(st, fus@);
                    },
                    Err(e) => {
                        lemma_count_single(Emitted::CaptureFailed { error: e });
                    },
                }
            }
        },
        LoopEvent::Command(MenuCommand::ToggleCapture) => {
            lemma_count_single(
                Emitted::CaptureToggled { enabled: !st.capture_enabled },
            );
        },
        LoopEvent::Command(MenuCommand::Quit) => {
            lemma_count_single(Emitted::QuitRequested);
        },
        LoopEvent::Activity(ActivityState::Active) => {
            if st.is_idle {
                lemma_count_single(Emitted::IdleEnded);
            }
        },
        LoopEvent::Activity(ActivityState::Idle { since_ms }) => {
            if !st.is_idle {
                lemma_count_single(
                    Emitted::IdleStarted { threshold_seconds: st.threshold_seconds },
                );
            }
        },
    }
}

/// Counting a single element.
proof fn lemma_count_single(e: Emitted)
    ensures
        count_uploaded(seq![e]) == if e is Uploaded {
            1int
        } else {
            0int
        },
{
    assert(count_uploaded(Seq::<Emitted>::empty()) == 0);
    assert(seq![e].drop_last() =~= Seq::<Emitted>::empty());
    assert(seq![e].last() == e);
}

/// The session-end record is written exactly once, after everything else,
/// and carries exactly the number of frame records the session produced:
/// a frame record exists if and only if an upload ended in success, and
/// the final count reports them all. A requested cancellation stands
/// directly before the session end: nothing else is started after it.
pub proof fn lemma_session_accounting(st: SchedulerState, events: Seq<LoopEvent>)
    requires
        st.frames_captured + count_uploaded(spec_run_session(st, events).1) <= u64::MAX,
    ensures
        ({
            let (st1, out) = spec_run_session(st, events);
            &&& out.len() >= 1
            &&& out.last() == (Emitted::SessionEnded { frames_captured: st1.frames_captured })
            &&& (forall|k: int| 0 <= k < out.len() - 1 ==> !is_session_end(#[trigger] out[k]))
            &&& st1.frames_captured == st.frames_captured + count_uploaded(out.drop_last())
            &&& (forall|k: int|
                0 <= k < out.len() && #[trigger] out[k] is QuitRequested ==> k == out.len() - 2)
        }),
    decreases events.len(),
{
    let (st1, out) = spec_run_session(st, events);
    if !st.running || events.len() == 0 {
        assert(out =~= seq![Emitted::SessionEnded { frames_captured: st.frames_captured }]);
        assert(out.drop_last() =~= Seq::<Emitted>::empty());
    } else {
        let (sta, outa) = spec_step(st, events[0]);
        let (stb, rest) = spec_run_session(sta, events.drop_first());
        lemma_count_uploaded_concat(outa, rest);
        lemma_count_uploaded_nonneg(outa);
        lemma_count_uploaded_nonneg(rest);
        lemma_step_count(st, events[0]);
        lemma_session_accounting(sta, events.drop_first());
        assert(out == outa + rest);
        assert(rest.len() >= 1);
        assert(out.last() == rest.last());
        assert(out.drop_last() =~= outa + rest.drop_last());
        lemma_count_uploaded_concat(outa, rest.drop_last());
        assert(forall|k: int| 0 <= k < outa.len() ==> #[trigger] out[k] == outa[k]);
        assert(forall|k: int|
            outa.len() <= k < out.len() ==> #[trigger] out[k] == rest[k - outa.len()]);
        assert forall|k: int|
            0 <= k < out.len() && #[trigger] out[k] is QuitRequested implies k == out.len()
            - 2 by {
            if k < outa.len() {
                // A cancellation request ends the processing of events:
                // the remainder is the lone session-end record.
                assert(outa[k] is QuitRequested);
                assert(!sta.running && outa.len() == 1);
                assert(rest =~= seq![
                    Emitted::SessionEnded { frames_captured: sta.frames_captured },
                ]);
            } else {
                assert(rest[k - outa.len()] is QuitRequested);
            }
        }
    }
}

} // verus!
