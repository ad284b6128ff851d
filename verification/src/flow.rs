use crate::error::{HarnessError, Result};
use crate::harness::{
    deny_if_locked, lemma_move_plan_deduplicated, linear_move_plan, plan_view, spec_move_plan,
    spec_move_steps, validate_click, validate_move_duration, ClickResult, MoveResult,
    MAX_MOVE_DURATION_MS,
};
use crate::capture::Capture;
use crate::harness::{
    image_metadata, missing_monitor_text, select_monitor_index, selects, sha256, ImageMetadata,
};
use crate::models::{monitor_contains, Monitor, MouseButton, Point, Window};
use crate::text::hex_lower;
use crate::policy::{
    admission, target_out_of_bounds_text, PolicyView, SafetyPolicy, CLICK_LIMIT, MOVE_LIMIT,
};
use vstd::prelude::*;

verus! {

/// What the audit log records of a finished action, besides its tool name
/// and arguments.
#[derive(Debug)]
pub struct AuditEntry {
    pub success: bool,
    pub error_code: Option<&'static str>,
    pub cursor_before: Option<Point>,
    pub cursor_after: Option<Point>,
    /// What an observation recorded of its capture.
    pub capture: Option<CaptureAudit>,
}

/// What the audit log records of a capture: its monitor, its pixel size,
/// and the size and SHA-256 of its PNG data, never the data itself.
#[derive(Debug)]
pub struct CaptureAudit {
    pub monitor: String,
    pub pixel_width: u32,
    pub pixel_height: u32,
    pub bytes: usize,
    pub sha256: String,
}

/// What the desktop reports back to an input action in progress: the answer
/// to the action last asked for.
#[derive(Debug)]
pub enum HarnessEvent {
    /// Whether the audit log can be written.
    AuditChecked(Result<()>),
    /// Whether the session is locked.
    Locked(Result<bool>),
    /// The compositor's monitors.
    Monitors(Result<Vec<Monitor>>),
    /// The cursor position.
    Cursor(Result<Point>),
    /// The compositor's windows.
    Windows(Result<Vec<Window>>),
    /// A screenshot of one monitor.
    Captured(Result<Capture>),
    /// A cursor move or a click was carried out.
    Performed(Result<()>),
    /// A pause has passed.
    Slept,
    /// The audit record was written.
    Recorded(Result<()>),
}

/// What an input action asks of the desktop next.
#[derive(Debug)]
pub enum HarnessAction<T> {
    QueryCursor,
    CheckAudit,
    QueryLocked,
    QueryMonitors,
    QueryWindows,
    /// Take a screenshot of the monitor of this name.
    CaptureMonitor(String),
    MoveCursor(Point),
    Click(MouseButton, u8, u32),
    /// Pause for this many milliseconds.
    Sleep(u64),
    /// Write one audit record.
    Record(AuditEntry),
    /// The action is over, with this result.
    Finish(Result<T>),
}

/// The audit entry of an action that failed with `e`.
pub open spec fn failure_entry(before: Option<Point>, e: HarnessError) -> AuditEntry {
    AuditEntry {
        success: false,
        error_code: Some(e.code),
        cursor_before: before,
        cursor_after: None,
        capture: None,
    }
}

/// `i` is the first monitor, in the compositor's order, that is active and
/// contains `p`.
pub open spec fn first_containing(ms: Seq<Monitor>, p: Point, i: int) -> bool {
    &&& 0 <= i < ms.len()
    &&& monitor_contains(ms[i], p)
    &&& forall|j: int| 0 <= j < i ==> !monitor_contains(#[trigger] ms[j], p)
}

/// How an action ends on an event that its state does not expect.
pub open spec fn unexpected<T>(a: HarnessAction<T>) -> bool {
    a matches HarnessAction::Finish(Err(x)) && x.code == "INTERNAL_ERROR" && x.message@
        == "unexpected harness event"@
}

fn unexpected_event<T>() -> (a: HarnessAction<T>)
    ensures
        unexpected(a),
{
    HarnessAction::Finish(
        Err(HarnessError::new("INTERNAL_ERROR", "unexpected harness event".to_string())),
    )
}

// ---------------------------------------------------------------- move

/// Where a pointer move stands.
#[derive(Debug, Clone, Copy, PartialEq, Eq, Structural)]
pub enum MovePhase {
    CursorBefore,
    AuditCheck,
    LockCheck,
    MonitorCheck,
    Origin,
    Moving,
    Pausing,
    Ended,
    Recording,
    Done,
}

/// The state of a pointer move as its contract sees it.
pub struct MoveView {
    pub target: Point,
    pub duration_ms: u32,
    pub phase: MovePhase,
    pub before: Option<Point>,
    pub monitor: String,
    pub origin: Point,
    pub plan: Seq<(u32, Point)>,
    pub delay_ms: u64,
    pub next: int,
    pub outcome: Option<Result<MoveResult>>,
}

/// A pointer move in progress.
#[derive(Debug)]
pub struct MoveState {
    target: Point,
    duration_ms: u32,
    phase: MovePhase,
    before: Option<Point>,
    monitor: String,
    origin: Point,
    plan: Vec<(u32, Point)>,
    delay_ms: u64,
    next: usize,
    outcome: Option<Result<MoveResult>>,
}

impl View for MoveState {
    type V = MoveView;

    closed spec fn view(&self) -> MoveView {
        MoveView {
            target: self.target,
            duration_ms: self.duration_ms,
            phase: self.phase,
            before: self.before,
            monitor: self.monitor,
            origin: self.origin,
            plan: self.plan@,
            delay_ms: self.delay_ms,
            next: self.next as int,
            outcome: self.outcome,
        }
    }
}

/// A move's update plan as the moving phases need it: one to 120 updates at
/// strictly increasing ticks from 1 to 120, the last at the target, and a
/// pause per tick of at most two seconds.
pub open spec fn plan_ready(v: MoveView) -> bool {
    &&& 1 <= v.plan.len() <= 120
    &&& v.delay_ms <= 2000
    &&& forall|i: int| 0 <= i < v.plan.len() ==> 1 <= #[trigger] v.plan[i].0 <= 120
    &&& forall|i: int| 0 <= i < v.plan.len() - 1 ==> #[trigger] v.plan[i].0 < v.plan[i + 1].0
    &&& v.plan.last().1 == v.target
}

/// The invariant of a move in progress.
pub open spec fn move_wf(v: MoveView) -> bool {
    &&& (v.phase == MovePhase::LockCheck || v.phase == MovePhase::MonitorCheck || v.phase
        == MovePhase::Origin || v.phase == MovePhase::Moving || v.phase == MovePhase::Pausing
        || v.phase == MovePhase::Ended) ==> v.duration_ms <= MAX_MOVE_DURATION_MS
    &&& (v.phase == MovePhase::Moving || v.phase == MovePhase::Pausing || v.phase
        == MovePhase::Ended) ==> plan_ready(v)
    &&& (v.phase == MovePhase::Moving || v.phase == MovePhase::Pausing) ==> 0 <= v.next
        < v.plan.len()
    &&& v.phase == MovePhase::Pausing ==> v.next >= 1
    &&& v.phase == MovePhase::Recording ==> v.outcome is Some
}

/// A move that failed with `x`: it records the failure next.
pub open spec fn move_fails(s: MoveView, x: HarnessError, s2: MoveView, a: HarnessAction<
    MoveResult,
>) -> bool {
    &&& s2 == MoveView { phase: MovePhase::Recording, outcome: Some(Err(x)), ..s }
    &&& a == HarnessAction::<MoveResult>::Record(failure_entry(s.before, x))
}

/// A move that failed with an error of its own, of `code` and `message`.
pub open spec fn move_fails_with(
    s: MoveView,
    code: &'static str,
    message: Seq<char>,
    s2: MoveView,
    a: HarnessAction<MoveResult>,
) -> bool {
    s2.outcome matches Some(Err(x)) && x.code == code && x.message@ == message && move_fails(
        s,
        x,
        s2,
        a,
    )
}

/// One step of `move_pointer`, from state `s` and the policy `p0` on event
/// `e` to state `s2`, the policy `p1` and action `a`.
///
/// The sequence: read the cursor (for the record only); check the audit log,
/// and stop at once without a record when it cannot be written; check the
/// duration; ask whether the session is locked; admit the move under the
/// policy (read-only mode and the rate limit); fetch the monitors and find
/// the first active one holding the target; read the cursor as the origin;
/// send the deduplicated 60 Hz updates with a pause of `delay_ms` per tick
/// between them; read the cursor where it ended; write one audit record; and
/// finish with the result, or with the record's error if it could not be
/// written. The first failure skips to the record. Only the admission
/// touches the policy.
pub open spec fn move_transition(
    p0: PolicyView,
    p1: PolicyView,
    s: MoveView,
    e: HarnessEvent,
    s2: MoveView,
    a: HarnessAction<MoveResult>,
) -> bool {
    match (s.phase, e) {
        (MovePhase::CursorBefore, HarnessEvent::Cursor(c)) => {
            &&& p1 == p0
            &&& s2 == MoveView {
                phase: MovePhase::AuditCheck,
                before: match c {
                    Ok(p) => Some(p),
                    Err(_) => None,
                },
                ..s
            }
            &&& a == HarnessAction::<MoveResult>::CheckAudit
        },
        (MovePhase::AuditCheck, HarnessEvent::AuditChecked(Err(x))) => {
            &&& p1 == p0
            &&& s2 == MoveView { phase: MovePhase::Done, ..s }
            &&& a == HarnessAction::<MoveResult>::Finish(Err(x))
        },
        (MovePhase::AuditCheck, HarnessEvent::AuditChecked(Ok(_))) => {
            &&& p1 == p0
            &&& if s.duration_ms <= MAX_MOVE_DURATION_MS {
                &&& s2 == MoveView { phase: MovePhase::LockCheck, ..s }
                &&& a == HarnessAction::<MoveResult>::QueryLocked
            } else {
                move_fails_with(
                    s,
                    "INVALID_ARGUMENT",
                    "duration_ms must be between 0 and 2000"@,
                    s2,
                    a,
                )
            }
        },
        (MovePhase::LockCheck, HarnessEvent::Locked(Err(x))) => p1 == p0 && move_fails(s, x, s2, a),
        (MovePhase::LockCheck, HarnessEvent::Locked(Ok(true))) => {
            &&& p1 == p0
            &&& move_fails_with(
                s,
                "SESSION_LOCKED",
                "pointer actions are disabled while the session is locked"@,
                s2,
                a,
            )
        },
        (MovePhase::LockCheck, HarnessEvent::Locked(Ok(false))) => {
            if s2.phase == MovePhase::MonitorCheck {
                &&& admission(
                    p0.read_only,
                    p0.moves,
                    p1.moves,
                    p0.latest,
                    p1.latest,
                    1,
                    MOVE_LIMIT as nat,
                    "move_pointer"@,
                    Ok(()),
                )
                &&& p1 == PolicyView { moves: p1.moves, latest: p1.latest, ..p0 }
                &&& s2 == MoveView { phase: MovePhase::MonitorCheck, ..s }
                &&& a == HarnessAction::<MoveResult>::QueryMonitors
            } else {
                &&& s2.outcome matches Some(Err(x)) && admission(
                    p0.read_only,
                    p0.moves,
                    p1.moves,
                    p0.latest,
                    p1.latest,
                    1,
                    MOVE_LIMIT as nat,
                    "move_pointer"@,
                    Err(x),
                ) && move_fails(s, x, s2, a)
                &&& p1 == PolicyView { moves: p1.moves, latest: p1.latest, ..p0 }
            }
        },
        (MovePhase::MonitorCheck, HarnessEvent::Monitors(Err(x))) => p1 == p0 && move_fails(
            s,
            x,
            s2,
            a,
        ),
        (MovePhase::MonitorCheck, HarnessEvent::Monitors(Ok(ms))) => {
            &&& p1 == p0
            &&& if exists|i: int| first_containing(ms@, s.target, i) {
                &&& exists|i: int|
                    first_containing(ms@, s.target, i) && s2 == MoveView {
                        phase: MovePhase::Origin,
                        monitor: ms@[i].name,
                        ..s
                    }
                &&& a == HarnessAction::<MoveResult>::QueryCursor
            } else {
                move_fails_with(s, "OUT_OF_BOUNDS", target_out_of_bounds_text(s.target), s2, a)
            }
        },
        (MovePhase::Origin, HarnessEvent::Cursor(Err(x))) => p1 == p0 && move_fails(s, x, s2, a),
        (MovePhase::Origin, HarnessEvent::Cursor(Ok(o))) => {
            &&& p1 == p0
            &&& s2 == MoveView {
                phase: MovePhase::Moving,
                origin: o,
                plan: s2.plan,
                delay_ms: s2.delay_ms,
                next: 0,
                ..s
            }
            &&& if s.duration_ms == 0 {
                s2.plan == seq![(1u32, s.target)] && s2.delay_ms == 0
            } else {
                let steps = spec_move_steps(s.duration_ms as nat);
                &&& plan_view(s2.plan) == spec_move_plan(o, s.target, steps, steps)
                &&& s2.delay_ms == (s.duration_ms as nat) / steps
            }
            &&& a == HarnessAction::<MoveResult>::MoveCursor(s2.plan[0].1)
        },
        (MovePhase::Moving, HarnessEvent::Performed(Err(x))) => p1 == p0 && move_fails(s, x, s2, a),
        (MovePhase::Moving, HarnessEvent::Performed(Ok(_))) => {
            &&& p1 == p0
            &&& if s.next + 1 < s.plan.len() {
                &&& s2 == MoveView { phase: MovePhase::Pausing, next: s.next + 1, ..s }
                &&& a == HarnessAction::<MoveResult>::Sleep(
                    (s.delay_ms * (s.plan[s.next + 1].0 - s.plan[s.next].0)) as u64,
                )
            } else {
                &&& s2 == MoveView { phase: MovePhase::Ended, next: s.next + 1, ..s }
                &&& a == HarnessAction::<MoveResult>::QueryCursor
            }
        },
        (MovePhase::Pausing, HarnessEvent::Slept) => {
            &&& p1 == p0
            &&& s2 == MoveView { phase: MovePhase::Moving, ..s }
            &&& a == HarnessAction::<MoveResult>::MoveCursor(s.plan[s.next].1)
        },
        (MovePhase::Ended, HarnessEvent::Cursor(Err(x))) => p1 == p0 && move_fails(s, x, s2, a),
        (MovePhase::Ended, HarnessEvent::Cursor(Ok(p))) => {
            &&& p1 == p0
            &&& s2 == MoveView {
                phase: MovePhase::Recording,
                outcome: Some(
                    Ok(
                        MoveResult {
                            started_at: s.origin,
                            ended_at: p,
                            requested: s.target,
                            duration_ms: s.duration_ms,
                            monitor: s.monitor,
                        },
                    ),
                ),
                ..s
            }
            &&& a == HarnessAction::<MoveResult>::Record(
                AuditEntry {
                    success: true,
                    error_code: None,
                    cursor_before: s.before,
                    cursor_after: Some(p),
                    capture: None,
                },
            )
        },
        (MovePhase::Recording, HarnessEvent::Recorded(Err(x))) => {
            &&& p1 == p0
            &&& s2.phase == MovePhase::Done
            &&& a == HarnessAction::<MoveResult>::Finish(Err(x))
        },
        (MovePhase::Recording, HarnessEvent::Recorded(Ok(_))) => {
            &&& p1 == p0
            &&& s2.phase == MovePhase::Done
            &&& a == HarnessAction::<MoveResult>::Finish(s.outcome->Some_0)
        },
        _ => p1 == p0 && s2.phase == MovePhase::Done && unexpected(a),
    }
}

/// Law: in every step of a pointer move, an audit log that cannot be
/// written ends the move at once, untouched and unrecorded; the cursor is
/// moved only from the origin reading or after a pause, that is once every
/// check has passed; one record is asked for only on entering the recording
/// phase, and after it only the finish follows; and only the admission
/// changes the policy.
pub proof fn lemma_move_step_order(
    p0: PolicyView,
    p1: PolicyView,
    s: MoveView,
    e: HarnessEvent,
    s2: MoveView,
    a: HarnessAction<MoveResult>,
)
    requires
        move_transition(p0, p1, s, e, s2, a),
    ensures
        s.phase == MovePhase::AuditCheck ==> (e matches HarnessEvent::AuditChecked(Err(x)) ==> a
            == HarnessAction::<MoveResult>::Finish(Err(x)) && p1 == p0 && s2.phase == MovePhase::Done),
        a is MoveCursor ==> (s.phase == MovePhase::Origin || s.phase == MovePhase::Pausing)
            && s2.phase == MovePhase::Moving,
        a is Record ==> s2.phase == MovePhase::Recording && s.phase != MovePhase::Recording,
        s2.phase == MovePhase::Recording ==> a is Record,
        s.phase == MovePhase::Recording ==> a is Finish && s2.phase == MovePhase::Done,
        s.phase == MovePhase::Done ==> a is Finish && s2.phase == MovePhase::Done,
        p1 != p0 ==> s.phase == MovePhase::LockCheck && e == HarnessEvent::Locked(Ok(false)),
        s.phase == MovePhase::LockCheck && s2.phase == MovePhase::MonitorCheck ==> !p0.read_only
            && p1.moves.len() <= MOVE_LIMIT,
{
    match (s.phase, e) {
        (MovePhase::LockCheck, HarnessEvent::Locked(Ok(false))) => {
            if s2.phase == MovePhase::MonitorCheck {
                crate::policy::lemma_admission_respects_limit(
                    p0.moves,
                    p1.moves,
                    p1.latest,
                    1,
                    MOVE_LIMIT as nat,
                    true,
                );
            }
        },
        _ => {},
    }
}

/// A run of a pointer move: its states, the policy before and after each
/// step, the events it was given and the actions it asked for, from its
/// start onward, each step as [`move_transition`] states.
pub open spec fn move_run(
    policies: Seq<PolicyView>,
    states: Seq<MoveView>,
    events: Seq<HarnessEvent>,
    actions: Seq<HarnessAction<MoveResult>>,
) -> bool {
    &&& states.len() == events.len() + 1
    &&& policies.len() == events.len() + 1
    &&& actions.len() == events.len()
    &&& states[0].phase == MovePhase::CursorBefore
    &&& forall|k: int|
        0 <= k < events.len() ==> #[trigger] move_transition(
            policies[k],
            policies[k + 1],
            states[k],
            events[k],
            states[k + 1],
            actions[k],
        )
}

/// Whether step `j` of a run leaves phase `from` for phase `to`, keeping the
/// target of state `k`.
pub open spec fn move_passes(states: Seq<MoveView>, j: int, from: MovePhase, to: MovePhase, k: int) -> bool {
    &&& states[j].phase == from
    &&& states[j + 1].phase == to
    &&& states[j].target == states[k].target
    &&& states[j].duration_ms == states[k].duration_ms
}

/// The phases from the lock check to the end of the cursor updates.
pub open spec fn past_audit(p: MovePhase) -> bool {
    p == MovePhase::LockCheck || p == MovePhase::MonitorCheck || past_admission(p)
}

/// The phases from the monitor check to the end of the cursor updates.
pub open spec fn past_admission(p: MovePhase) -> bool {
    p == MovePhase::MonitorCheck || past_bounds(p)
}

/// The phases from the origin reading to the end of the cursor updates.
pub open spec fn past_bounds(p: MovePhase) -> bool {
    p == MovePhase::Origin || p == MovePhase::Moving || p == MovePhase::Pausing || p
        == MovePhase::Ended
}

/// The phases after which only the finish follows.
pub open spec fn closing(p: MovePhase) -> bool {
    p == MovePhase::Recording || p == MovePhase::Done
}

proof fn lemma_move_run_history(
    policies: Seq<PolicyView>,
    states: Seq<MoveView>,
    events: Seq<HarnessEvent>,
    actions: Seq<HarnessAction<MoveResult>>,
    k: int,
)
    requires
        move_run(policies, states, events, actions),
        0 <= k < states.len(),
    ensures
        past_audit(states[k].phase) ==> exists|j1: int|
            0 <= j1 < k && move_passes(states, j1, MovePhase::AuditCheck, MovePhase::LockCheck, k),
        past_admission(states[k].phase) ==> exists|j1: int, j2: int|
            0 <= j1 < j2 < k && move_passes(states, j1, MovePhase::AuditCheck, MovePhase::LockCheck, k)
                && move_passes(states, j2, MovePhase::LockCheck, MovePhase::MonitorCheck, k),
        past_bounds(states[k].phase) ==> exists|j1: int, j2: int, j3: int|
            0 <= j1 < j2 < j3 < k && move_passes(states, j1, MovePhase::AuditCheck, MovePhase::LockCheck, k)
                && move_passes(states, j2, MovePhase::LockCheck, MovePhase::MonitorCheck, k)
                && move_passes(states, j3, MovePhase::MonitorCheck, MovePhase::Origin, k),
    decreases k,
{
    if k > 0 {
        lemma_move_run_history(policies, states, events, actions, k - 1);
        let j = k - 1;
        assert(move_transition(policies[j], policies[j + 1], states[j], events[j], states[j + 1], actions[j]));
        let p = states[j].phase;
        let q = states[k].phase;
        if past_audit(q) {
            if q == MovePhase::LockCheck {
                assert(move_passes(states, j, MovePhase::AuditCheck, MovePhase::LockCheck, k));
            } else {
                let j1 = choose|j1: int|
                    0 <= j1 < j && move_passes(states, j1, MovePhase::AuditCheck, MovePhase::LockCheck, j);
                assert(move_passes(states, j1, MovePhase::AuditCheck, MovePhase::LockCheck, k));
            }
        }
        if past_admission(q) {
            let j1 = choose|j1: int|
                0 <= j1 < j && move_passes(states, j1, MovePhase::AuditCheck, MovePhase::LockCheck, j);
            if q == MovePhase::MonitorCheck {
                assert(move_passes(states, j1, MovePhase::AuditCheck, MovePhase::LockCheck, k));
                assert(move_passes(states, j, MovePhase::LockCheck, MovePhase::MonitorCheck, k));
            } else {
                let (a1, a2) = choose|a1: int, a2: int|
                    0 <= a1 < a2 < j && move_passes(states, a1, MovePhase::AuditCheck, MovePhase::LockCheck, j)
                        && move_passes(states, a2, MovePhase::LockCheck, MovePhase::MonitorCheck, j);
                assert(move_passes(states, a1, MovePhase::AuditCheck, MovePhase::LockCheck, k));
                assert(move_passes(states, a2, MovePhase::LockCheck, MovePhase::MonitorCheck, k));
            }
        }
        if past_bounds(q) {
            if q == MovePhase::Origin {
                let (a1, a2) = choose|a1: int, a2: int|
                    0 <= a1 < a2 < j && move_passes(states, a1, MovePhase::AuditCheck, MovePhase::LockCheck, j)
                        && move_passes(states, a2, MovePhase::LockCheck, MovePhase::MonitorCheck, j);
                assert(move_passes(states, a1, MovePhase::AuditCheck, MovePhase::LockCheck, k));
                assert(move_passes(states, a2, MovePhase::LockCheck, MovePhase::MonitorCheck, k));
                assert(move_passes(states, j, MovePhase::MonitorCheck, MovePhase::Origin, k));
            } else {
                let (a1, a2, a3) = choose|a1: int, a2: int, a3: int|
                    0 <= a1 < a2 < a3 < j && move_passes(states, a1, MovePhase::AuditCheck, MovePhase::LockCheck, j)
                        && move_passes(states, a2, MovePhase::LockCheck, MovePhase::MonitorCheck, j)
                        && move_passes(states, a3, MovePhase::MonitorCheck, MovePhase::Origin, j);
                assert(move_passes(states, a1, MovePhase::AuditCheck, MovePhase::LockCheck, k));
                assert(move_passes(states, a2, MovePhase::LockCheck, MovePhase::MonitorCheck, k));
                assert(move_passes(states, a3, MovePhase::MonitorCheck, MovePhase::Origin, k));
            }
        }
    }
}

/// Law: in any run of a pointer move, the cursor is moved only after the
/// checks have passed, each once and in this order: the audit log was
/// writable and the duration valid; the session was not locked and the
/// policy admitted the move; and an active monitor holds the target.
pub proof fn lemma_move_cursor_after_checks(
    policies: Seq<PolicyView>,
    states: Seq<MoveView>,
    events: Seq<HarnessEvent>,
    actions: Seq<HarnessAction<MoveResult>>,
    k: int,
)
    requires
        move_run(policies, states, events, actions),
        0 <= k < actions.len(),
        actions[k] is MoveCursor,
    ensures
        exists|j1: int, j2: int, j3: int|
            #![trigger events[j1], events[j2], events[j3]]
            0 <= j1 < j2 < j3 < k && events[j1] is AuditChecked && events[j1]->AuditChecked_0 is Ok
                && states[j1].duration_ms <= MAX_MOVE_DURATION_MS
                && events[j2] == HarnessEvent::Locked(Ok(false)) && admission(
                policies[j2].read_only,
                policies[j2].moves,
                policies[j2 + 1].moves,
                policies[j2].latest,
                policies[j2 + 1].latest,
                1,
                MOVE_LIMIT as nat,
                "move_pointer"@,
                Ok(()),
            ) && events[j3] is Monitors && events[j3]->Monitors_0 is Ok && exists|i: int|
                first_containing(events[j3]->Monitors_0->Ok_0@, states[k].target, i),
{
    assert(move_transition(policies[k], policies[k + 1], states[k], events[k], states[k + 1], actions[k]));
    lemma_move_step_order(policies[k], policies[k + 1], states[k], events[k], states[k + 1], actions[k]);
    lemma_move_run_history(policies, states, events, actions, k);
    let (j1, j2, j3) = choose|j1: int, j2: int, j3: int|
        0 <= j1 < j2 < j3 < k && move_passes(states, j1, MovePhase::AuditCheck, MovePhase::LockCheck, k)
            && move_passes(states, j2, MovePhase::LockCheck, MovePhase::MonitorCheck, k)
            && move_passes(states, j3, MovePhase::MonitorCheck, MovePhase::Origin, k);
    assert(move_transition(policies[j1], policies[j1 + 1], states[j1], events[j1], states[j1 + 1], actions[j1]));
    assert(move_transition(policies[j2], policies[j2 + 1], states[j2], events[j2], states[j2 + 1], actions[j2]));
    assert(move_transition(policies[j3], policies[j3 + 1], states[j3], events[j3], states[j3 + 1], actions[j3]));
}

proof fn lemma_move_closing_stays(
    policies: Seq<PolicyView>,
    states: Seq<MoveView>,
    events: Seq<HarnessEvent>,
    actions: Seq<HarnessAction<MoveResult>>,
    j: int,
    k: int,
)
    requires
        move_run(policies, states, events, actions),
        0 <= j <= k < states.len(),
        closing(states[j].phase),
    ensures
        closing(states[k].phase),
    decreases k - j,
{
    if j < k {
        lemma_move_closing_stays(policies, states, events, actions, j, k - 1);
        let i = k - 1;
        assert(move_transition(policies[i], policies[i + 1], states[i], events[i], states[i + 1], actions[i]));
        lemma_move_step_order(policies[i], policies[i + 1], states[i], events[i], states[i + 1], actions[i]);
    }
}

/// Law: a run of a pointer move asks for at most one audit record, and the
/// move finishes with its own result only right after that record was
/// asked for and written.
pub proof fn lemma_move_records_once(
    policies: Seq<PolicyView>,
    states: Seq<MoveView>,
    events: Seq<HarnessEvent>,
    actions: Seq<HarnessAction<MoveResult>>,
    k1: int,
    k2: int,
)
    requires
        move_run(policies, states, events, actions),
        0 <= k1 < k2 < actions.len(),
    ensures
        actions[k1] is Record ==> !(actions[k2] is Record),
        states[k2].phase == MovePhase::Recording ==> actions[k2 - 1] is Record,
{
    assert(move_transition(policies[k1], policies[k1 + 1], states[k1], events[k1], states[k1 + 1], actions[k1]));
    assert(move_transition(policies[k2], policies[k2 + 1], states[k2], events[k2], states[k2 + 1], actions[k2]));
    let i = k2 - 1;
    assert(move_transition(policies[i], policies[i + 1], states[i], events[i], states[i + 1], actions[i]));
    lemma_move_step_order(policies[k1], policies[k1 + 1], states[k1], events[k1], states[k1 + 1], actions[k1]);
    lemma_move_step_order(policies[k2], policies[k2 + 1], states[k2], events[k2], states[k2 + 1], actions[k2]);
    lemma_move_step_order(policies[i], policies[i + 1], states[i], events[i], states[i + 1], actions[i]);
    if actions[k1] is Record {
        lemma_move_closing_stays(policies, states, events, actions, k1 + 1, k2);
    }
}

impl MoveState {
    /// A move of the pointer to `target` over `duration_ms`; it begins by
    /// reading the cursor.
    pub fn start(target: Point, duration_ms: u32) -> (r: (MoveState, HarnessAction<MoveResult>))
        ensures
            r.0@.target == target,
            r.0@.duration_ms == duration_ms,
            r.0@.phase == MovePhase::CursorBefore,
            r.0@.before is None,
            r.0@.outcome is None,
            r.0.wf(),
            r.1 == HarnessAction::<MoveResult>::QueryCursor,
    {
        (
            MoveState {
                target,
                duration_ms,
                phase: MovePhase::CursorBefore,
                before: None,
                monitor: String::new(),
                origin: target,
                plan: Vec::new(),
                delay_ms: 0,
                next: 0,
                outcome: None,
            },
            HarnessAction::QueryCursor,
        )
    }

    /// Where the move stands.
    pub fn phase(&self) -> (p: MovePhase)
        ensures
            p == self@.phase,
    {
        self.phase
    }

    /// The invariant of a move in progress.
    pub closed spec fn wf(&self) -> bool {
        &&& move_wf(self@)
        &&& self.next <= self.plan@.len()
    }

    fn fail(self, x: HarnessError) -> (r: (MoveState, HarnessAction<MoveResult>))
        requires
            self.wf(),
        ensures
            move_fails(self@, x, r.0@, r.1),
            r.0.wf(),
    {
        let entry = AuditEntry {
            success: false,
            error_code: Some(x.code),
            cursor_before: self.before,
            cursor_after: None,
            capture: None,
        };
        let mut s = self;
        s.phase = MovePhase::Recording;
        s.outcome = Some(Err(x));
        (s, HarnessAction::Record(entry))
    }

    fn end(self) -> (r: (MoveState, HarnessAction<MoveResult>))
        requires
            self.wf(),
        ensures
            r.0@.phase == MovePhase::Done,
            r.0.wf(),
            unexpected(r.1),
    {
        let mut s = self;
        s.phase = MovePhase::Done;
        (s, unexpected_event())
    }
}

proof fn lemma_steps_bounded(duration_ms: nat)
    requires
        0 < duration_ms <= 2000,
    ensures
        1 <= spec_move_steps(duration_ms) <= 120,
        (duration_ms as nat) / spec_move_steps(duration_ms) <= 2000,
{
    let steps = spec_move_steps(duration_ms);
    assert((duration_ms * 60 + 999) / 1000 <= 120);
    assert(duration_ms / steps <= duration_ms) by (nonlinear_arith)
        requires
            steps >= 1,
    ;
}

/// One step of a pointer move: from the move's state and the event that
/// answers its last action, the next state and action, as [`move_transition`]
/// states.
pub fn move_pointer_step(policy: &mut SafetyPolicy, state: MoveState, event: HarnessEvent) -> (r: (
    MoveState,
    HarnessAction<MoveResult>,
))
    requires
        state.wf(),
    ensures
        r.0.wf(),
        move_transition(old(policy)@, final(policy)@, state@, event, r.0@, r.1),
{
    let mut s = state;
    match event {
        HarnessEvent::Cursor(c) => {
            if s.phase == MovePhase::CursorBefore {
                s.before = match c {
                    Ok(p) => Some(p),
                    Err(_) => None,
                };
                s.phase = MovePhase::AuditCheck;
                (s, HarnessAction::CheckAudit)
            } else if s.phase == MovePhase::Origin {
                match c {
                    Err(x) => s.fail(x),
                    Ok(o) => {
                        let (plan, delay_ms) = linear_move_plan(o, s.target, s.duration_ms);
                        proof {
                            if s.duration_ms > 0 {
                                let steps = spec_move_steps(s.duration_ms as nat);
                                lemma_steps_bounded(s.duration_ms as nat);
                                lemma_move_plan_deduplicated(o, s.target, steps);
                                let q = spec_move_plan(o, s.target, steps, steps);
                                assert forall|i: int| 0 <= i < plan@.len() implies 1 <= #[trigger] plan@[i].0
                                    <= 120 by {
                                    assert(plan_view(plan@)[i] == q[i]);
                                }
                                assert forall|i: int| 0 <= i < plan@.len() - 1 implies #[trigger] plan@[i].0
                                    < plan@[i + 1].0 by {
                                    assert(plan_view(plan@)[i] == q[i]);
                                    assert(plan_view(plan@)[i + 1] == q[i + 1]);
                                }
                                assert(plan_view(plan@)[plan@.len() - 1] == q.last());
                            }
                        }
                        s.origin = o;
                        s.plan = plan;
                        s.delay_ms = delay_ms;
                        s.next = 0;
                        s.phase = MovePhase::Moving;
                        let p = s.plan[0].1;
                        (s, HarnessAction::MoveCursor(p))
                    },
                }
            } else if s.phase == MovePhase::Ended {
                match c {
                    Err(x) => s.fail(x),
                    Ok(p) => {
                        let result = MoveResult {
                            started_at: s.origin,
                            ended_at: p,
                            requested: s.target,
                            duration_ms: s.duration_ms,
                            monitor: s.monitor.clone(),
                        };
                        let entry = AuditEntry {
                            success: true,
                            error_code: None,
                            cursor_before: s.before,
                            cursor_after: Some(p),
                            capture: None,
                        };
                        s.phase = MovePhase::Recording;
                        s.outcome = Some(Ok(result));
                        (s, HarnessAction::Record(entry))
                    },
                }
            } else {
                s.end()
            }
        },
        HarnessEvent::AuditChecked(checked) => {
            if s.phase != MovePhase::AuditCheck {
                return s.end();
            }
            match checked {
                Err(x) => {
                    s.phase = MovePhase::Done;
                    (s, HarnessAction::Finish(Err(x)))
                },
                Ok(()) => match validate_move_duration(s.duration_ms) {
                    Err(x) => s.fail(x),
                    Ok(()) => {
                        s.phase = MovePhase::LockCheck;
                        (s, HarnessAction::QueryLocked)
                    },
                },
            }
        },
        HarnessEvent::Locked(locked) => {
            if s.phase != MovePhase::LockCheck {
                return s.end();
            }
            match locked {
                Err(x) => s.fail(x),
                Ok(locked) => match deny_if_locked(locked) {
                    Err(x) => s.fail(x),
                    Ok(()) => match policy.allow_move() {
                        Err(x) => s.fail(x),
                        Ok(()) => {
                            s.phase = MovePhase::MonitorCheck;
                            (s, HarnessAction::QueryMonitors)
                        },
                    },
                },
            }
        },
        HarnessEvent::Monitors(monitors) => {
            if s.phase != MovePhase::MonitorCheck {
                return s.end();
            }
            match monitors {
                Err(x) => s.fail(x),
                Ok(ms) => match policy.validate_target(&s.target, ms.as_slice()) {
                    Err(x) => {
                        proof {
                            assert forall|i: int| !first_containing(ms@, s.target, i) by {
                                if first_containing(ms@, s.target, i) {
                                    assert(monitor_contains(ms@[i], s.target));
                                }
                            }
                        }
                        s.fail(x)
                    },
                    Ok(m) => {
                        proof {
                            let i = choose|i: int|
                                0 <= i < ms@.len() && ms@[i] == *m && monitor_contains(*m, s.target)
                                    && forall|j: int|
                                    0 <= j < i ==> !monitor_contains(#[trigger] ms@[j], s.target);
                            assert(first_containing(ms@, s.target, i));
                        }
                        s.monitor = m.name.clone();
                        s.phase = MovePhase::Origin;
                        (s, HarnessAction::QueryCursor)
                    },
                },
            }
        },
        HarnessEvent::Performed(done) => {
            if s.phase != MovePhase::Moving {
                return s.end();
            }
            match done {
                Err(x) => s.fail(x),
                Ok(()) => {
                    let k = s.next + 1;
                    if k < s.plan.len() {
                        let ticks = (s.plan[k].0 - s.plan[s.next].0) as u64;
                        assert(s.delay_ms * ticks <= 2000 * 120) by (nonlinear_arith)
                            requires
                                s.delay_ms <= 2000,
                                ticks <= 120,
                        ;
                        let pause = s.delay_ms * ticks;
                        s.next = k;
                        s.phase = MovePhase::Pausing;
                        (s, HarnessAction::Sleep(pause))
                    } else {
                        s.next = k;
                        s.phase = MovePhase::Ended;
                        (s, HarnessAction::QueryCursor)
                    }
                },
            }
        },
        HarnessEvent::Windows(_) | HarnessEvent::Captured(_) => s.end(),
        HarnessEvent::Slept => {
            if s.phase != MovePhase::Pausing {
                return s.end();
            }
            s.phase = MovePhase::Moving;
            let p = s.plan[s.next].1;
            (s, HarnessAction::MoveCursor(p))
        },
        HarnessEvent::Recorded(recorded) => {
            if s.phase != MovePhase::Recording {
                return s.end();
            }
            s.phase = MovePhase::Done;
            match recorded {
                Err(x) => (s, HarnessAction::Finish(Err(x))),
                Ok(()) => {
                    let outcome = s.outcome.take();
                    match outcome {
                        Some(o) => (s, HarnessAction::Finish(o)),
                        None => s.end(),
                    }
                },
            }
        },
    }
}

// ---------------------------------------------------------------- click

/// Where a click stands.
#[derive(Debug, Clone, Copy, PartialEq, Eq, Structural)]
pub enum ClickPhase {
    CursorBefore,
    AuditCheck,
    LockCheck,
    Position,
    MonitorCheck,
    Clicking,
    CursorAfter,
    Recording,
    Done,
}

/// The state of a click as its contract sees it.
pub struct ClickView {
    pub button: MouseButton,
    pub count: u8,
    pub interval_ms: u32,
    pub phase: ClickPhase,
    pub before: Option<Point>,
    pub position: Point,
    pub outcome: Option<Result<ClickResult>>,
}

/// A click in progress.
#[derive(Debug)]
pub struct ClickState {
    button: MouseButton,
    count: u8,
    interval_ms: u32,
    phase: ClickPhase,
    before: Option<Point>,
    position: Point,
    outcome: Option<Result<ClickResult>>,
}

impl View for ClickState {
    type V = ClickView;

    closed spec fn view(&self) -> ClickView {
        ClickView {
            button: self.button,
            count: self.count,
            interval_ms: self.interval_ms,
            phase: self.phase,
            before: self.before,
            position: self.position,
            outcome: self.outcome,
        }
    }
}

/// The lowercase name of a button.
pub open spec fn button_text(b: MouseButton) -> Seq<char> {
    match b {
        MouseButton::Left => "left"@,
        MouseButton::Middle => "middle"@,
        MouseButton::Right => "right"@,
    }
}

/// The invariant of a click in progress.
pub open spec fn click_wf(v: ClickView) -> bool {
    (v.phase == ClickPhase::CursorAfter || v.phase == ClickPhase::Recording) ==> v.outcome is Some
}

/// A click that failed with `x`: it reads the cursor for the record next.
pub open spec fn click_fails(s: ClickView, x: HarnessError, s2: ClickView, a: HarnessAction<
    ClickResult,
>) -> bool {
    &&& s2 == ClickView { phase: ClickPhase::CursorAfter, outcome: Some(Err(x)), ..s }
    &&& a == HarnessAction::<ClickResult>::QueryCursor
}

/// A click that failed with an error of its own, of `code` and `message`.
pub open spec fn click_fails_with(
    s: ClickView,
    code: &'static str,
    message: Seq<char>,
    s2: ClickView,
    a: HarnessAction<ClickResult>,
) -> bool {
    s2.outcome matches Some(Err(x)) && x.code == code && x.message@ == message && click_fails(
        s,
        x,
        s2,
        a,
    )
}

/// One step of `click`, from state `s` and the policy `p0` on event `e` to
/// state `s2`, the policy `p1` and action `a`.
///
/// The sequence: read the cursor (for the record only); check the audit log,
/// and stop at once without a record when it cannot be written; check the
/// count and interval; ask whether the session is locked; admit the clicks
/// under the policy; read the cursor position; fetch the monitors and check
/// that an active one holds the position; click; read the cursor again for
/// the record, whether or not the click happened; write one audit record;
/// and finish with the result, or with the record's error if it could not
/// be written. The first failure skips to the cursor read before the record.
/// Only the admission touches the policy.
pub open spec fn click_transition(
    p0: PolicyView,
    p1: PolicyView,
    s: ClickView,
    e: HarnessEvent,
    s2: ClickView,
    a: HarnessAction<ClickResult>,
) -> bool {
    match (s.phase, e) {
        (ClickPhase::CursorBefore, HarnessEvent::Cursor(c)) => {
            &&& p1 == p0
            &&& s2 == ClickView {
                phase: ClickPhase::AuditCheck,
                before: match c {
                    Ok(p) => Some(p),
                    Err(_) => None,
                },
                ..s
            }
            &&& a == HarnessAction::<ClickResult>::CheckAudit
        },
        (ClickPhase::AuditCheck, HarnessEvent::AuditChecked(Err(x))) => {
            &&& p1 == p0
            &&& s2 == ClickView { phase: ClickPhase::Done, ..s }
            &&& a == HarnessAction::<ClickResult>::Finish(Err(x))
        },
        (ClickPhase::AuditCheck, HarnessEvent::AuditChecked(Ok(_))) => {
            &&& p1 == p0
            &&& if !(1 <= s.count <= 3) {
                click_fails_with(s, "INVALID_ARGUMENT", "count must be between 1 and 3"@, s2, a)
            } else if !(40 <= s.interval_ms <= 1000) {
                click_fails_with(
                    s,
                    "INVALID_ARGUMENT",
                    "interval_ms must be between 40 and 1000"@,
                    s2,
                    a,
                )
            } else {
                &&& s2 == ClickView { phase: ClickPhase::LockCheck, ..s }
                &&& a == HarnessAction::<ClickResult>::QueryLocked
            }
        },
        (ClickPhase::LockCheck, HarnessEvent::Locked(Err(x))) => p1 == p0 && click_fails(
            s,
            x,
            s2,
            a,
        ),
        (ClickPhase::LockCheck, HarnessEvent::Locked(Ok(true))) => {
            &&& p1 == p0
            &&& click_fails_with(
                s,
                "SESSION_LOCKED",
                "pointer actions are disabled while the session is locked"@,
                s2,
                a,
            )
        },
        (ClickPhase::LockCheck, HarnessEvent::Locked(Ok(false))) => {
            &&& p1 == PolicyView { clicks: p1.clicks, latest: p1.latest, ..p0 }
            &&& if s2.phase == ClickPhase::Position {
                &&& admission(
                    p0.read_only,
                    p0.clicks,
                    p1.clicks,
                    p0.latest,
                    p1.latest,
                    s.count as nat,
                    CLICK_LIMIT as nat,
                    "click"@,
                    Ok(()),
                )
                &&& s2 == ClickView { phase: ClickPhase::Position, ..s }
                &&& a == HarnessAction::<ClickResult>::QueryCursor
            } else {
                s2.outcome matches Some(Err(x)) && admission(
                    p0.read_only,
                    p0.clicks,
                    p1.clicks,
                    p0.latest,
                    p1.latest,
                    s.count as nat,
                    CLICK_LIMIT as nat,
                    "click"@,
                    Err(x),
                ) && click_fails(s, x, s2, a)
            }
        },
        (ClickPhase::Position, HarnessEvent::Cursor(Err(x))) => p1 == p0 && click_fails(s, x, s2, a),
        (ClickPhase::Position, HarnessEvent::Cursor(Ok(p))) => {
            &&& p1 == p0
            &&& s2 == ClickView { phase: ClickPhase::MonitorCheck, position: p, ..s }
            &&& a == HarnessAction::<ClickResult>::QueryMonitors
        },
        (ClickPhase::MonitorCheck, HarnessEvent::Monitors(Err(x))) => p1 == p0 && click_fails(
            s,
            x,
            s2,
            a,
        ),
        (ClickPhase::MonitorCheck, HarnessEvent::Monitors(Ok(ms))) => {
            &&& p1 == p0
            &&& if exists|i: int| first_containing(ms@, s.position, i) {
                &&& s2 == ClickView { phase: ClickPhase::Clicking, ..s }
                &&& a == HarnessAction::<ClickResult>::Click(s.button, s.count, s.interval_ms)
            } else {
                click_fails_with(s, "OUT_OF_BOUNDS", target_out_of_bounds_text(s.position), s2, a)
            }
        },
        (ClickPhase::Clicking, HarnessEvent::Performed(Err(x))) => p1 == p0 && click_fails(
            s,
            x,
            s2,
            a,
        ),
        (ClickPhase::Clicking, HarnessEvent::Performed(Ok(_))) => {
            &&& p1 == p0
            &&& s2.phase == ClickPhase::CursorAfter
            &&& s2.outcome matches Some(Ok(c)) && c.position == s.position && c.button@
                == button_text(s.button) && c.count == s.count && c.interval_ms == s.interval_ms
            &&& s2 == ClickView { phase: ClickPhase::CursorAfter, outcome: s2.outcome, ..s }
            &&& a == HarnessAction::<ClickResult>::QueryCursor
        },
        (ClickPhase::CursorAfter, HarnessEvent::Cursor(c)) => {
            &&& p1 == p0
            &&& s2 == ClickView { phase: ClickPhase::Recording, ..s }
            &&& a == HarnessAction::<ClickResult>::Record(
                AuditEntry {
                    success: s.outcome->Some_0 is Ok,
                    error_code: match s.outcome->Some_0 {
                        Ok(_) => None,
                        Err(x) => Some(x.code),
                    },
                    cursor_before: s.before,
                    cursor_after: match c {
                        Ok(p) => Some(p),
                        Err(_) => None,
                    },
                    capture: None,
                },
            )
        },
        (ClickPhase::Recording, HarnessEvent::Recorded(Err(x))) => {
            &&& p1 == p0
            &&& s2.phase == ClickPhase::Done
            &&& a == HarnessAction::<ClickResult>::Finish(Err(x))
        },
        (ClickPhase::Recording, HarnessEvent::Recorded(Ok(_))) => {
            &&& p1 == p0
            &&& s2.phase == ClickPhase::Done
            &&& a == HarnessAction::<ClickResult>::Finish(s.outcome->Some_0)
        },
        _ => p1 == p0 && s2.phase == ClickPhase::Done && unexpected(a),
    }
}

/// Law: in every step of a click, an audit log that cannot be written ends
/// the click at once, untouched and unrecorded; the button is pressed only
/// once the position was found on an active monitor, which comes after
/// every other check; one record is asked for only on entering the
/// recording phase, and after it only the finish follows; and only the
/// admission changes the policy.
pub proof fn lemma_click_step_order(
    p0: PolicyView,
    p1: PolicyView,
    s: ClickView,
    e: HarnessEvent,
    s2: ClickView,
    a: HarnessAction<ClickResult>,
)
    requires
        click_transition(p0, p1, s, e, s2, a),
    ensures
        s.phase == ClickPhase::AuditCheck ==> (e matches HarnessEvent::AuditChecked(Err(x)) ==> a
            == HarnessAction::<ClickResult>::Finish(Err(x)) && p1 == p0 && s2.phase == ClickPhase::Done),
        a is Click ==> s.phase == ClickPhase::MonitorCheck && s2.phase == ClickPhase::Clicking
            && exists|i: int| first_containing(e->Monitors_0->Ok_0@, s.position, i),
        a is Record ==> s2.phase == ClickPhase::Recording && s.phase == ClickPhase::CursorAfter,
        s.phase == ClickPhase::Recording ==> a is Finish && s2.phase == ClickPhase::Done,
        s.phase == ClickPhase::Done ==> a is Finish && s2.phase == ClickPhase::Done,
        p1 != p0 ==> s.phase == ClickPhase::LockCheck && e == HarnessEvent::Locked(Ok(false)),
        s.phase == ClickPhase::LockCheck && s2.phase == ClickPhase::Position ==> !p0.read_only
            && p1.clicks.len() <= CLICK_LIMIT,
{
    match (s.phase, e) {
        (ClickPhase::LockCheck, HarnessEvent::Locked(Ok(false))) => {
            if s2.phase == ClickPhase::Position {
                crate::policy::lemma_admission_respects_limit(
                    p0.clicks,
                    p1.clicks,
                    p1.latest,
                    s.count as nat,
                    CLICK_LIMIT as nat,
                    true,
                );
            }
        },
        _ => {},
    }
}

/// A run of a click: its states, the policy before and after each step, the
/// events it was given and the actions it asked for, from its start onward,
/// each step as [`click_transition`] states.
pub open spec fn click_run(
    policies: Seq<PolicyView>,
    states: Seq<ClickView>,
    events: Seq<HarnessEvent>,
    actions: Seq<HarnessAction<ClickResult>>,
) -> bool {
    &&& states.len() == events.len() + 1
    &&& policies.len() == events.len() + 1
    &&& actions.len() == events.len()
    &&& states[0].phase == ClickPhase::CursorBefore
    &&& forall|k: int|
        0 <= k < events.len() ==> #[trigger] click_transition(
            policies[k],
            policies[k + 1],
            states[k],
            events[k],
            states[k + 1],
            actions[k],
        )
}

/// Whether step `j` of a run leaves phase `from` for phase `to`, keeping the
/// arguments of state `k`.
pub open spec fn click_passes(states: Seq<ClickView>, j: int, from: ClickPhase, to: ClickPhase, k: int) -> bool {
    &&& states[j].phase == from
    &&& states[j + 1].phase == to
    &&& states[j].count == states[k].count
    &&& states[j].interval_ms == states[k].interval_ms
}

proof fn lemma_click_run_history(
    policies: Seq<PolicyView>,
    states: Seq<ClickView>,
    events: Seq<HarnessEvent>,
    actions: Seq<HarnessAction<ClickResult>>,
    k: int,
)
    requires
        click_run(policies, states, events, actions),
        0 <= k < states.len(),
    ensures
        (states[k].phase == ClickPhase::LockCheck || states[k].phase == ClickPhase::Position
            || states[k].phase == ClickPhase::MonitorCheck || states[k].phase == ClickPhase::Clicking)
            ==> exists|j1: int|
            0 <= j1 < k && click_passes(states, j1, ClickPhase::AuditCheck, ClickPhase::LockCheck, k),
        (states[k].phase == ClickPhase::Position || states[k].phase == ClickPhase::MonitorCheck
            || states[k].phase == ClickPhase::Clicking) ==> exists|j1: int, j2: int|
            0 <= j1 < j2 < k && click_passes(states, j1, ClickPhase::AuditCheck, ClickPhase::LockCheck, k)
                && click_passes(states, j2, ClickPhase::LockCheck, ClickPhase::Position, k),
    decreases k,
{
    if k > 0 {
        lemma_click_run_history(policies, states, events, actions, k - 1);
        let j = k - 1;
        assert(click_transition(policies[j], policies[j + 1], states[j], events[j], states[j + 1], actions[j]));
        let q = states[k].phase;
        if q == ClickPhase::LockCheck {
            assert(click_passes(states, j, ClickPhase::AuditCheck, ClickPhase::LockCheck, k));
        } else if q == ClickPhase::Position {
            let j1 = choose|j1: int|
                0 <= j1 < j && click_passes(states, j1, ClickPhase::AuditCheck, ClickPhase::LockCheck, j);
            assert(click_passes(states, j1, ClickPhase::AuditCheck, ClickPhase::LockCheck, k));
            assert(click_passes(states, j, ClickPhase::LockCheck, ClickPhase::Position, k));
        } else if q == ClickPhase::MonitorCheck || q == ClickPhase::Clicking {
            let (a1, a2) = choose|a1: int, a2: int|
                0 <= a1 < a2 < j && click_passes(states, a1, ClickPhase::AuditCheck, ClickPhase::LockCheck, j)
                    && click_passes(states, a2, ClickPhase::LockCheck, ClickPhase::Position, j);
            assert(click_passes(states, a1, ClickPhase::AuditCheck, ClickPhase::LockCheck, k));
            assert(click_passes(states, a2, ClickPhase::LockCheck, ClickPhase::Position, k));
        }
    }
}

/// Law: in any run of a click, the button is pressed only after the checks
/// have passed, in this order: the audit log was writable and the count and
/// interval valid; the session was not locked and the policy admitted the
/// clicks; and an active monitor holds the cursor position.
pub proof fn lemma_click_after_checks(
    policies: Seq<PolicyView>,
    states: Seq<ClickView>,
    events: Seq<HarnessEvent>,
    actions: Seq<HarnessAction<ClickResult>>,
    k: int,
)
    requires
        click_run(policies, states, events, actions),
        0 <= k < actions.len(),
        actions[k] is Click,
    ensures
        exists|j1: int, j2: int|
            #![trigger events[j1], events[j2]]
            0 <= j1 < j2 < k && events[j1] is AuditChecked && events[j1]->AuditChecked_0 is Ok && 1
                <= states[k].count <= 3 && 40 <= states[k].interval_ms <= 1000 && events[j2]
                == HarnessEvent::Locked(Ok(false)) && admission(
                policies[j2].read_only,
                policies[j2].clicks,
                policies[j2 + 1].clicks,
                policies[j2].latest,
                policies[j2 + 1].latest,
                states[k].count as nat,
                CLICK_LIMIT as nat,
                "click"@,
                Ok(()),
            ),
        events[k] is Monitors && events[k]->Monitors_0 is Ok && exists|i: int|
            first_containing(events[k]->Monitors_0->Ok_0@, states[k].position, i),
{
    assert(click_transition(policies[k], policies[k + 1], states[k], events[k], states[k + 1], actions[k]));
    lemma_click_step_order(policies[k], policies[k + 1], states[k], events[k], states[k + 1], actions[k]);
    lemma_click_run_history(policies, states, events, actions, k);
    let (j1, j2) = choose|j1: int, j2: int|
        0 <= j1 < j2 < k && click_passes(states, j1, ClickPhase::AuditCheck, ClickPhase::LockCheck, k)
            && click_passes(states, j2, ClickPhase::LockCheck, ClickPhase::Position, k);
    assert(click_transition(policies[j1], policies[j1 + 1], states[j1], events[j1], states[j1 + 1], actions[j1]));
    assert(click_transition(policies[j2], policies[j2 + 1], states[j2], events[j2], states[j2 + 1], actions[j2]));
}

impl ClickState {
    /// A click of `button`, `count` times `interval_ms` apart, at the
    /// cursor; it begins by reading the cursor.
    pub fn start(button: MouseButton, count: u8, interval_ms: u32) -> (r: (
        ClickState,
        HarnessAction<ClickResult>,
    ))
        ensures
            r.0@.button == button,
            r.0@.count == count,
            r.0@.interval_ms == interval_ms,
            r.0@.phase == ClickPhase::CursorBefore,
            r.0@.before is None,
            r.0@.outcome is None,
            click_wf(r.0@),
            r.1 == HarnessAction::<ClickResult>::QueryCursor,
    {
        (
            ClickState {
                button,
                count,
                interval_ms,
                phase: ClickPhase::CursorBefore,
                before: None,
                position: Point { x: 0, y: 0 },
                outcome: None,
            },
            HarnessAction::QueryCursor,
        )
    }

    /// Where the click stands.
    pub fn phase(&self) -> (p: ClickPhase)
        ensures
            p == self@.phase,
    {
        self.phase
    }

    fn fail(self, x: HarnessError) -> (r: (ClickState, HarnessAction<ClickResult>))
        ensures
            click_fails(self@, x, r.0@, r.1),
            click_wf(r.0@),
    {
        let mut s = self;
        s.phase = ClickPhase::CursorAfter;
        s.outcome = Some(Err(x));
        (s, HarnessAction::QueryCursor)
    }

    fn end(self) -> (r: (ClickState, HarnessAction<ClickResult>))
        ensures
            r.0@.phase == ClickPhase::Done,
            click_wf(r.0@),
            unexpected(r.1),
    {
        let mut s = self;
        s.phase = ClickPhase::Done;
        (s, unexpected_event())
    }
}

/// One step of a click: from the click's state and the event that answers
/// its last action, the next state and action, as [`click_transition`] states.
pub fn click_step(policy: &mut SafetyPolicy, state: ClickState, event: HarnessEvent) -> (r: (
    ClickState,
    HarnessAction<ClickResult>,
))
    requires
        click_wf(state@),
    ensures
        click_wf(r.0@),
        click_transition(old(policy)@, final(policy)@, state@, event, r.0@, r.1),
{
    let mut s = state;
    match event {
        HarnessEvent::Cursor(c) => {
            if s.phase == ClickPhase::CursorBefore {
                s.before = match c {
                    Ok(p) => Some(p),
                    Err(_) => None,
                };
                s.phase = ClickPhase::AuditCheck;
                (s, HarnessAction::CheckAudit)
            } else if s.phase == ClickPhase::Position {
                match c {
                    Err(x) => s.fail(x),
                    Ok(p) => {
                        s.position = p;
                        s.phase = ClickPhase::MonitorCheck;
                        (s, HarnessAction::QueryMonitors)
                    },
                }
            } else if s.phase == ClickPhase::CursorAfter {
                let after = match c {
                    Ok(p) => Some(p),
                    Err(_) => None,
                };
                let (success, error_code) = match &s.outcome {
                    Some(Ok(_)) => (true, None),
                    Some(Err(x)) => (false, Some(x.code)),
                    None => {
                        return s.end();
                    },
                };
                let entry = AuditEntry {
                    success,
                    error_code,
                    cursor_before: s.before,
                    cursor_after: after,
                    capture: None,
                };
                s.phase = ClickPhase::Recording;
                (s, HarnessAction::Record(entry))
            } else {
                s.end()
            }
        },
        HarnessEvent::AuditChecked(checked) => {
            if s.phase != ClickPhase::AuditCheck {
                return s.end();
            }
            match checked {
                Err(x) => {
                    s.phase = ClickPhase::Done;
                    (s, HarnessAction::Finish(Err(x)))
                },
                Ok(()) => match validate_click(s.count, s.interval_ms) {
                    Err(x) => s.fail(x),
                    Ok(()) => {
                        s.phase = ClickPhase::LockCheck;
                        (s, HarnessAction::QueryLocked)
                    },
                },
            }
        },
        HarnessEvent::Locked(locked) => {
            if s.phase != ClickPhase::LockCheck {
                return s.end();
            }
            match locked {
                Err(x) => s.fail(x),
                Ok(locked) => match deny_if_locked(locked) {
                    Err(x) => s.fail(x),
                    Ok(()) => match policy.allow_clicks(s.count as usize) {
                        Err(x) => s.fail(x),
                        Ok(()) => {
                            s.phase = ClickPhase::Position;
                            (s, HarnessAction::QueryCursor)
                        },
                    },
                },
            }
        },
        HarnessEvent::Monitors(monitors) => {
            if s.phase != ClickPhase::MonitorCheck {
                return s.end();
            }
            match monitors {
                Err(x) => s.fail(x),
                Ok(ms) => match policy.validate_target(&s.position, ms.as_slice()) {
                    Err(x) => {
                        proof {
                            assert forall|i: int| !first_containing(ms@, s.position, i) by {
                                if first_containing(ms@, s.position, i) {
                                    assert(monitor_contains(ms@[i], s.position));
                                }
                            }
                        }
                        s.fail(x)
                    },
                    Ok(m) => {
                        proof {
                            let i = choose|i: int|
                                0 <= i < ms@.len() && ms@[i] == *m && monitor_contains(
                                    *m,
                                    s.position,
                                ) && forall|j: int|
                                    0 <= j < i ==> !monitor_contains(#[trigger] ms@[j], s.position);
                            assert(first_containing(ms@, s.position, i));
                        }
                        s.phase = ClickPhase::Clicking;
                        let action = HarnessAction::Click(s.button, s.count, s.interval_ms);
                        (s, action)
                    },
                },
            }
        },
        HarnessEvent::Performed(done) => {
            if s.phase != ClickPhase::Clicking {
                return s.end();
            }
            match done {
                Err(x) => s.fail(x),
                Ok(()) => {
                    let result = ClickResult {
                        position: s.position,
                        button: s.button.as_str().to_string(),
                        count: s.count,
                        interval_ms: s.interval_ms,
                    };
                    s.phase = ClickPhase::CursorAfter;
                    s.outcome = Some(Ok(result));
                    (s, HarnessAction::QueryCursor)
                },
            }
        },
        HarnessEvent::Slept | HarnessEvent::Windows(_) | HarnessEvent::Captured(_) => s.end(),
        HarnessEvent::Recorded(recorded) => {
            if s.phase != ClickPhase::Recording {
                return s.end();
            }
            s.phase = ClickPhase::Done;
            match recorded {
                Err(x) => (s, HarnessAction::Finish(Err(x))),
                Ok(()) => {
                    let outcome = s.outcome.take();
                    match outcome {
                        Some(o) => (s, HarnessAction::Finish(o)),
                        None => s.end(),
                    }
                },
            }
        },
    }
}

// ---------------------------------------------------------------- observe

/// What an observation of the desktop gathers: the monitor it captured, the
/// cursor, the focused window, the screenshot and its metadata.
#[derive(Debug)]
pub struct Observation {
    pub monitor: Monitor,
    pub cursor: Point,
    pub active_window: Option<Window>,
    pub capture: Capture,
    pub image: ImageMetadata,
}

/// Where an observation stands.
#[derive(Debug, Clone, Copy, PartialEq, Eq, Structural)]
pub enum ObservePhase {
    Monitors,
    Cursor,
    Windows,
    Capturing,
    Recording,
    Done,
}

/// The state of an observation as its contract sees it.
pub struct ObserveView {
    pub requested: Option<Seq<char>>,
    pub phase: ObservePhase,
    pub monitors: Seq<Monitor>,
    pub selected: int,
    pub cursor: Point,
    pub windows: Seq<Window>,
    pub outcome: Option<Result<Observation>>,
}

/// An observation in progress.
#[derive(Debug)]
pub struct ObserveState {
    requested: Option<String>,
    phase: ObservePhase,
    monitors: Vec<Monitor>,
    selected: usize,
    cursor: Point,
    windows: Vec<Window>,
    outcome: Option<Result<Observation>>,
}

/// The view of an optional owned string.
pub open spec fn opt_string_view(o: Option<String>) -> Option<Seq<char>> {
    match o {
        Some(s) => Some(s@),
        None => None,
    }
}

impl View for ObserveState {
    type V = ObserveView;

    closed spec fn view(&self) -> ObserveView {
        ObserveView {
            requested: opt_string_view(self.requested),
            phase: self.phase,
            monitors: self.monitors@,
            selected: self.selected as int,
            cursor: self.cursor,
            windows: self.windows@,
            outcome: self.outcome,
        }
    }
}

/// The invariant of an observation in progress.
pub open spec fn observe_wf(v: ObserveView) -> bool {
    &&& (v.phase == ObservePhase::Cursor || v.phase == ObservePhase::Windows || v.phase
        == ObservePhase::Capturing) ==> 0 <= v.selected < v.monitors.len()
    &&& v.phase == ObservePhase::Recording ==> v.outcome is Some
}

/// `i` is the first window marked focused.
pub open spec fn first_focused(ws: Seq<Window>, i: int) -> bool {
    &&& 0 <= i < ws.len()
    &&& ws[i].focused
    &&& forall|j: int| 0 <= j < i ==> !(#[trigger] ws[j]).focused
}

/// The focused window of an observation: the first one marked focused.
pub open spec fn active_window_of(ws: Seq<Window>, w: Option<Window>) -> bool {
    match w {
        Some(w) => exists|i: int| first_focused(ws, i) && ws[i] == w,
        None => forall|i: int| 0 <= i < ws.len() ==> !(#[trigger] ws[i]).focused,
    }
}

/// The audit entry of a successful capture `c` of monitor `m`.
pub open spec fn capture_entry(entry: AuditEntry, m: Monitor, c: Capture) -> bool {
    &&& entry.success
    &&& entry.error_code is None
    &&& entry.cursor_before is None
    &&& entry.cursor_after is None
    &&& entry.capture matches Some(summary) && summary.monitor == m.name && summary.pixel_width
        == c.pixel_width && summary.pixel_height == c.pixel_height && summary.bytes == c.png@.len()
        && summary.sha256@ == hex_lower(sha256(c.png@))
}

/// An observation that failed with `x`: it records the failure next.
pub open spec fn observe_fails(s: ObserveView, x: HarnessError, s2: ObserveView, a: HarnessAction<
    Observation,
>) -> bool {
    &&& s2 == ObserveView { phase: ObservePhase::Recording, outcome: Some(Err(x)), ..s }
    &&& a == HarnessAction::<Observation>::Record(failure_entry(None, x))
}

/// One step of `observe_desktop`, from state `s` on event `e` to state `s2`
/// and action `a`.
///
/// The sequence: fetch the monitors and select the requested one (or the
/// focused one); read the cursor; list the windows; capture the selected
/// monitor; write one audit record, which on success holds the capture's
/// monitor, pixel size, byte count and SHA-256, never its bytes; and finish
/// with the observation, or with the record's error if it could not be
/// written. The first failure skips to the record.
pub open spec fn observe_transition(s: ObserveView, e: HarnessEvent, s2: ObserveView, a: HarnessAction<
    Observation,
>) -> bool {
    match (s.phase, e) {
        (ObservePhase::Monitors, HarnessEvent::Monitors(Err(x))) => observe_fails(s, x, s2, a),
        (ObservePhase::Monitors, HarnessEvent::Monitors(Ok(ms))) => {
            if exists|i: int| selects(ms@, s.requested, i) {
                &&& exists|i: int|
                    selects(ms@, s.requested, i) && s2 == ObserveView {
                        phase: ObservePhase::Cursor,
                        monitors: ms@,
                        selected: i,
                        ..s
                    }
                &&& a == HarnessAction::<Observation>::QueryCursor
            } else {
                s2.outcome matches Some(Err(x)) && x.code == "INVALID_ARGUMENT" && x.message@
                    == missing_monitor_text(s.requested) && observe_fails(s, x, s2, a)
            }
        },
        (ObservePhase::Cursor, HarnessEvent::Cursor(Err(x))) => observe_fails(s, x, s2, a),
        (ObservePhase::Cursor, HarnessEvent::Cursor(Ok(p))) => {
            &&& s2 == ObserveView { phase: ObservePhase::Windows, cursor: p, ..s }
            &&& a == HarnessAction::<Observation>::QueryWindows
        },
        (ObservePhase::Windows, HarnessEvent::Windows(Err(x))) => observe_fails(s, x, s2, a),
        (ObservePhase::Windows, HarnessEvent::Windows(Ok(ws))) => {
            &&& s2 == ObserveView { phase: ObservePhase::Capturing, windows: ws@, ..s }
            &&& a matches HarnessAction::CaptureMonitor(name) && name == s.monitors[s.selected].name
        },
        (ObservePhase::Capturing, HarnessEvent::Captured(Err(x))) => observe_fails(s, x, s2, a),
        (ObservePhase::Capturing, HarnessEvent::Captured(Ok(c))) => {
            let m = s.monitors[s.selected];
            &&& s2.phase == ObservePhase::Recording
            &&& s2.outcome matches Some(Ok(o)) && o.monitor == m && o.cursor == s.cursor && o.capture
                == c && active_window_of(s.windows, o.active_window) && o.image.mime_type@
                == "image/png"@ && o.image.bytes == c.png@.len() && o.image.sha256@ == hex_lower(
                sha256(c.png@),
            )
            &&& a matches HarnessAction::Record(entry) && capture_entry(entry, m, c)
        },
        (ObservePhase::Recording, HarnessEvent::Recorded(Err(x))) => {
            &&& s2.phase == ObservePhase::Done
            &&& a == HarnessAction::<Observation>::Finish(Err(x))
        },
        (ObservePhase::Recording, HarnessEvent::Recorded(Ok(_))) => {
            &&& s2.phase == ObservePhase::Done
            &&& a == HarnessAction::<Observation>::Finish(s.outcome->Some_0)
        },
        _ => s2.phase == ObservePhase::Done && unexpected(a),
    }
}

/// The first focused window, taken out of `windows`.
fn take_focused(windows: Vec<Window>) -> (r: Option<Window>)
    ensures
        active_window_of(windows@, r),
{
    let mut i: usize = 0;
    while i < windows.len()
        invariant
            i <= windows@.len(),
            forall|j: int| 0 <= j < i ==> !(#[trigger] windows@[j]).focused,
        decreases windows@.len() - i,
    {
        if windows[i].focused {
            let ghost before = windows@;
            let mut ws = windows;
            let w = ws.remove(i);
            assert(first_focused(before, i as int));
            return Some(w);
        }
        i = i + 1;
    }
    None
}

impl ObserveState {
    /// An observation of the monitor named `requested`, or of the focused
    /// monitor; it begins by fetching the monitors.
    pub fn start(requested: Option<String>) -> (r: (ObserveState, HarnessAction<Observation>))
        ensures
            r.0@.requested == opt_string_view(requested),
            r.0@.phase == ObservePhase::Monitors,
            r.0@.outcome is None,
            observe_wf(r.0@),
            r.1 == HarnessAction::<Observation>::QueryMonitors,
    {
        (
            ObserveState {
                requested,
                phase: ObservePhase::Monitors,
                monitors: Vec::new(),
                selected: 0,
                cursor: Point { x: 0, y: 0 },
                windows: Vec::new(),
                outcome: None,
            },
            HarnessAction::QueryMonitors,
        )
    }

    /// Where the observation stands.
    pub fn phase(&self) -> (p: ObservePhase)
        ensures
            p == self@.phase,
    {
        self.phase
    }

    fn fail(self, x: HarnessError) -> (r: (ObserveState, HarnessAction<Observation>))
        ensures
            observe_fails(self@, x, r.0@, r.1),
            observe_wf(r.0@),
    {
        let entry = AuditEntry {
            success: false,
            error_code: Some(x.code),
            cursor_before: None,
            cursor_after: None,
            capture: None,
        };
        let mut s = self;
        s.phase = ObservePhase::Recording;
        s.outcome = Some(Err(x));
        (s, HarnessAction::Record(entry))
    }

    fn end(self) -> (r: (ObserveState, HarnessAction<Observation>))
        ensures
            r.0@.phase == ObservePhase::Done,
            observe_wf(r.0@),
            unexpected(r.1),
    {
        let mut s = self;
        s.phase = ObservePhase::Done;
        (s, unexpected_event())
    }
}

/// One step of a desktop observation: from its state and the event that
/// answers its last action, the next state and action, as
/// [`observe_transition`] states.
pub fn observe_step(state: ObserveState, event: HarnessEvent) -> (r: (ObserveState, HarnessAction<
    Observation,
>))
    requires
        observe_wf(state@),
    ensures
        observe_wf(r.0@),
        observe_transition(state@, event, r.0@, r.1),
{
    let mut s = state;
    match event {
        HarnessEvent::Monitors(monitors) => {
            if s.phase != ObservePhase::Monitors {
                return s.end();
            }
            match monitors {
                Err(x) => s.fail(x),
                Ok(ms) => {
                    let requested = match &s.requested {
                        Some(name) => Some(name.as_str()),
                        None => None,
                    };
                    assert(crate::harness::opt_view(requested) == s@.requested);
                    match select_monitor_index(ms.as_slice(), requested) {
                        Err(x) => s.fail(x),
                        Ok(i) => {
                            s.monitors = ms;
                            s.selected = i;
                            s.phase = ObservePhase::Cursor;
                            (s, HarnessAction::QueryCursor)
                        },
                    }
                },
            }
        },
        HarnessEvent::Cursor(c) => {
            if s.phase != ObservePhase::Cursor {
                return s.end();
            }
            match c {
                Err(x) => s.fail(x),
                Ok(p) => {
                    s.cursor = p;
                    s.phase = ObservePhase::Windows;
                    (s, HarnessAction::QueryWindows)
                },
            }
        },
        HarnessEvent::Windows(windows) => {
            if s.phase != ObservePhase::Windows {
                return s.end();
            }
            match windows {
                Err(x) => s.fail(x),
                Ok(ws) => {
                    s.windows = ws;
                    s.phase = ObservePhase::Capturing;
                    let name = s.monitors[s.selected].name.clone();
                    (s, HarnessAction::CaptureMonitor(name))
                },
            }
        },
        HarnessEvent::Captured(captured) => {
            if s.phase != ObservePhase::Capturing {
                return s.end();
            }
            match captured {
                Err(x) => s.fail(x),
                Ok(capture) => {
                    let image = image_metadata(capture.png.as_slice());
                    let summary = CaptureAudit {
                        monitor: s.monitors[s.selected].name.clone(),
                        pixel_width: capture.pixel_width,
                        pixel_height: capture.pixel_height,
                        bytes: image.bytes,
                        sha256: image.sha256.clone(),
                    };
                    let entry = AuditEntry {
                        success: true,
                        error_code: None,
                        cursor_before: None,
                        cursor_after: None,
                        capture: Some(summary),
                    };
                    let monitor = s.monitors.remove(s.selected);
                    let mut windows: Vec<Window> = Vec::new();
                    std::mem::swap(&mut windows, &mut s.windows);
                    let active_window = take_focused(windows);
                    let observation = Observation {
                        monitor,
                        cursor: s.cursor,
                        active_window,
                        capture,
                        image,
                    };
                    s.phase = ObservePhase::Recording;
                    s.outcome = Some(Ok(observation));
                    (s, HarnessAction::Record(entry))
                },
            }
        },
        HarnessEvent::Recorded(recorded) => {
            if s.phase != ObservePhase::Recording {
                return s.end();
            }
            s.phase = ObservePhase::Done;
            match recorded {
                Err(x) => (s, HarnessAction::Finish(Err(x))),
                Ok(()) => {
                    let outcome = s.outcome.take();
                    match outcome {
                        Some(o) => (s, HarnessAction::Finish(o)),
                        None => s.end(),
                    }
                },
            }
        },
        HarnessEvent::AuditChecked(_) | HarnessEvent::Locked(_) | HarnessEvent::Performed(_)
        | HarnessEvent::Slept => s.end(),
    }
}

} // verus!
