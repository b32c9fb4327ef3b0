//! Idle detection: the monitor that keeps a last-activity timestamp from
//! polled idle readings, and the checker that classifies the machine as
//! active or idle against a threshold and emits edge-triggered transitions.
//! The background loops around these steps live outside the library; each
//! step here is a verified function of the state and the values read.

use vstd::prelude::*;

use crate::clock::now_utc_ms;
use crate::spec_elapsed_ms;
use crate::elapsed_ms;

verus! {

/// User activity state. `since_ms` is the estimated moment activity
/// stopped, not the moment idleness was detected.
#[derive(Debug, Clone, Copy, PartialEq, Eq, Structural)]
pub enum ActivityState {
    /// User is currently active.
    Active,
    /// User has been idle since the given time (milliseconds since the
    /// Unix epoch).
    Idle { since_ms: u64 },
}

/// Shared state of idle detection: the last-activity timestamp kept by the
/// monitor, the running flag every worker polls, and the current
/// classification kept by the checker.
#[derive(Debug, Clone, Copy, PartialEq, Eq, Structural)]
pub struct IdleState {
    /// Timestamp of last activity (milliseconds since the Unix epoch).
    pub last_activity_ms: u64,
    /// Whether the detector is running.
    pub running: bool,
    /// Current idle classification.
    pub is_idle: bool,
}

/// Whether a monitored idle duration classifies as idle: exactly when it
/// reaches the threshold (the boundary itself is idle).
pub open spec fn spec_is_idle(idle_ms: u64, threshold_ms: u64) -> bool {
    idle_ms >= threshold_ms
}

impl IdleState {
    /// Fresh state at a given instant: the instant counts as activity, the
    /// detector is stopped, the user is considered active.
    pub fn new_at(now_ms: u64) -> (r: Self)
        ensures
            r.last_activity_ms == now_ms,
            !r.running,
            !r.is_idle,
    {
        IdleState { last_activity_ms: now_ms, running: false, is_idle: false }
    }

    /// Fresh state at the current wall-clock time. Whatever instant the
    /// clock reports, the detector starts stopped and active.
    pub fn new() -> (r: Self)
        ensures
            !r.running,
            !r.is_idle,
    {
        IdleState::new_at(now_utc_ms())
    }

    /// Record activity at a given instant.
    pub fn update_activity_at(&mut self, now_ms: u64)
        ensures
            final(self).last_activity_ms == now_ms,
            final(self).running == old(self).running,
            final(self).is_idle == old(self).is_idle,
    {
        self.last_activity_ms = now_ms;
    }

    /// Record activity at the current wall-clock time. Whatever instant
    /// the clock reports becomes the last activity; nothing else moves.
    pub fn update_activity(&mut self)
        ensures
            final(self).running == old(self).running,
            final(self).is_idle == old(self).is_idle,
    {
        let now = now_utc_ms();
        self.update_activity_at(now);
    }

    /// Elapsed time since the last activity, never negative: zero whenever
    /// the clock reads earlier than the recorded activity.
    pub fn idle_duration_at(&self, now_ms: u64) -> (r: u64)
        ensures
            r == spec_elapsed_ms(now_ms, self.last_activity_ms),
    {
        elapsed_ms(now_ms, self.last_activity_ms)
    }

    /// Elapsed time since the last activity, against the current
    /// wall-clock time. Whatever the clock reports, the result is the
    /// saturating difference from the recorded activity.
    pub fn idle_duration(&self) -> (r: u64)
        ensures
            exists|now_ms: u64| r == spec_elapsed_ms(now_ms, self.last_activity_ms),
    {
        let now = now_utc_ms();
        let r = self.idle_duration_at(now);
        proof {
            assert(r == spec_elapsed_ms(now, self.last_activity_ms));
        }
        r
    }
}

/// One round of the idle monitor at instant `now_ms`: a successful reading
/// below the poll cadence means the user just did something, so the
/// last-activity timestamp moves to now; a failed reading, or an older
/// one, leaves the state untouched (fail-safe: assume no new activity).
pub fn monitor_step(st: &mut IdleState, reading: Option<u64>, now_ms: u64, poll_interval_ms: u64)
    ensures
        final(st).last_activity_ms == if reading matches Some(d) && d < poll_interval_ms {
            now_ms
        } else {
            old(st).last_activity_ms
        },
        final(st).running == old(st).running,
        final(st).is_idle == old(st).is_idle,
{
    if let Some(d) = reading {
        if d < poll_interval_ms {
            st.update_activity_at(now_ms);
        }
    }
}

/// What one checker round does to the state, and what it emits: the
/// classification always follows the most recent observation, and a
/// transition is emitted exactly when the classification flips.
pub open spec fn spec_checker_step(st: IdleState, threshold_ms: u64, now_ms: u64) -> (
    IdleState,
    Option<ActivityState>,
) {
    let d = spec_elapsed_ms(now_ms, st.last_activity_ms);
    let now_idle = spec_is_idle(d, threshold_ms);
    let st1 = IdleState {
        last_activity_ms: st.last_activity_ms,
        running: st.running,
        is_idle: now_idle,
    };
    if now_idle == st.is_idle {
        (st1, None)
    } else if now_idle {
        (st1, Some(ActivityState::Idle { since_ms: (now_ms - d) as u64 }))
    } else {
        (st1, Some(ActivityState::Active))
    }
}

/// One round of the idle checker at instant `now_ms`: classify the elapsed
/// idle time against the threshold, record the classification, and emit a
/// transition exactly when it changed (edge-triggered). The `since_ms` of
/// an idle transition is `now - idle_duration`: the estimated moment
/// activity stopped, not the moment of detection.
pub fn checker_step(st: &mut IdleState, threshold_ms: u64, now_ms: u64) -> (emitted: Option<
    ActivityState,
>)
    ensures
        *final(st) == spec_checker_step(*old(st), threshold_ms, now_ms).0,
        emitted == spec_checker_step(*old(st), threshold_ms, now_ms).1,
        final(st).is_idle == spec_is_idle(
            spec_elapsed_ms(now_ms, old(st).last_activity_ms),
            threshold_ms,
        ),
        emitted is Some <==> final(st).is_idle != old(st).is_idle,
{
    let d = st.idle_duration_at(now_ms);
    let now_idle = d >= threshold_ms;
    let was_idle = st.is_idle;
    st.is_idle = now_idle;
    if now_idle == was_idle {
        None
    } else if now_idle {
        Some(ActivityState::Idle { since_ms: now_ms - d })
    } else {
        Some(ActivityState::Active)
    }
}

/// The states and emissions of a whole run of checker rounds, one entry
/// per round (`None` where the round was silent).
pub open spec fn spec_run_checks(st: IdleState, threshold_ms: u64, times: Seq<u64>) -> (
    IdleState,
    Seq<Option<ActivityState>>,
)
    decreases times.len(),
{
    if times.len() == 0 {
        (st, Seq::empty())
    } else {
        let (st1, e) = spec_checker_step(st, threshold_ms, times[0]);
        let (st2, rest) = spec_run_checks(st1, threshold_ms, times.drop_first());
        (st2, seq![e] + rest)
    }
}

/// Checker rounds that keep observing one unchanged classification are
/// edge-triggered: when the classification equals the current state, every
/// round is silent; when it differs, exactly the first round emits a
/// transition and every later one is silent. The last-activity timestamp
/// never moves.
pub proof fn lemma_checks_edge_triggered(
    st: IdleState,
    threshold_ms: u64,
    times: Seq<u64>,
    c: bool,
)
    requires
        forall|k: int|
            0 <= k < times.len() ==> spec_is_idle(
                spec_elapsed_ms(#[trigger] times[k], st.last_activity_ms),
                threshold_ms,
            ) == c,
    ensures
        ({
            let (st1, emitted) = spec_run_checks(st, threshold_ms, times);
            &&& emitted.len() == times.len()
            &&& st1.last_activity_ms == st.last_activity_ms
            &&& (times.len() > 0 ==> st1.is_idle == c)
            &&& (times.len() == 0 ==> st1 == st)
            &&& (c == st.is_idle ==> forall|k: int|
                0 <= k < emitted.len() ==> #[trigger] emitted[k] is None)
            &&& (c != st.is_idle && times.len() > 0 ==> emitted[0] is Some && forall|k: int|
                1 <= k < emitted.len() ==> #[trigger] emitted[k] is None)
        }),
    decreases times.len(),
{
    if times.len() > 0 {
        let (st1, e) = spec_checker_step(st, threshold_ms, times[0]);
        assert(spec_is_idle(spec_elapsed_ms(times[0], st.last_activity_ms), threshold_ms) == c);
        assert(st1.is_idle == c && st1.last_activity_ms == st.last_activity_ms);
        assert(forall|k: int|
            0 <= k < times.drop_first().len() ==> #[trigger] times.drop_first()[k] == times[k
                + 1]);
        lemma_checks_edge_triggered(st1, threshold_ms, times.drop_first(), c);
        let (st2, rest) = spec_run_checks(st1, threshold_ms, times.drop_first());
        let emitted = seq![e] + rest;
        assert(forall|k: int| 1 <= k < emitted.len() ==> #[trigger] emitted[k] == rest[k - 1]);
    }
}

/// The idle detector: the configured threshold with the shared state that
/// the monitor and checker maintain. The platform idle source and the
/// background threads around it stay outside the library.
#[derive(Debug, Clone, Copy, PartialEq, Eq, Structural)]
pub struct IdleDetector {
    /// Idle threshold in milliseconds.
    pub threshold_ms: u64,
    /// Shared detection state.
    pub state: IdleState,
}

impl IdleDetector {
    /// A detector with the given threshold, counting from a given instant.
    pub fn new_at(threshold_ms: u64, now_ms: u64) -> (r: Self)
        ensures
            r.threshold_ms == threshold_ms,
            r.state.last_activity_ms == now_ms,
            !r.state.running,
            !r.state.is_idle,
    {
        IdleDetector { threshold_ms, state: IdleState::new_at(now_ms) }
    }

    /// A detector with the given threshold, counting from the current
    /// wall-clock time.
    pub fn new(threshold_ms: u64) -> (r: Self)
        ensures
            r.threshold_ms == threshold_ms,
            !r.state.running,
            !r.state.is_idle,
    {
        IdleDetector { threshold_ms, state: IdleState::new() }
    }

    /// The current activity state: idle since the last recorded activity,
    /// or active.
    pub fn state(&self) -> (r: ActivityState)
        ensures
            r == if self.state.is_idle {
                ActivityState::Idle { since_ms: self.state.last_activity_ms }
            } else {
                ActivityState::Active
            },
    {
        if self.state.is_idle {
            ActivityState::Idle { since_ms: self.state.last_activity_ms }
        } else {
            ActivityState::Active
        }
    }

    /// Mark the detector running. Returns whether it already was, so a
    /// caller starts the background workers only once.
    pub fn start(&mut self) -> (was_running: bool)
        ensures
            was_running == old(self).state.running,
            final(self).state.running,
            final(self).state.last_activity_ms == old(self).state.last_activity_ms,
            final(self).state.is_idle == old(self).state.is_idle,
            final(self).threshold_ms == old(self).threshold_ms,
    {
        let was = self.state.running;
        self.state.running = true;
        was
    }

    /// Mark the detector stopped; every worker polls this flag and exits at
    /// its next iteration boundary.
    pub fn stop(&mut self)
        ensures
            !final(self).state.running,
            final(self).state.last_activity_ms == old(self).state.last_activity_ms,
            final(self).state.is_idle == old(self).state.is_idle,
            final(self).threshold_ms == old(self).threshold_ms,
    {
        self.state.running = false;
    }
}

} // verus!
