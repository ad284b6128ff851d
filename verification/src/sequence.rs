use crate::models::{KeyModifier, MotionProfile, MouseButton, ScrollDirection};
use vstd::prelude::*;
use vstd::string::*;

verus! {

/// Most steps a sequence may hold.
pub const MAX_SEQUENCE_STEPS: usize = 32;
/// Longest total planned duration of a sequence, in milliseconds.
pub const MAX_SEQUENCE_DURATION_MS: u64 = 45_000;
/// Longest single wait step, in milliseconds.
pub const MAX_SEQUENCE_WAIT_MS: u32 = 10_000;
/// The duration planned for an animated move whose duration is chosen
/// automatically: the longest automatic duration.
pub const AUTOMATIC_MOVE_PLAN_MS: u32 = 1_200;

/// Live preconditions checked immediately before a sequence step.
#[derive(Debug, Clone, Default)]
pub struct SequenceGuard {
    /// Stable ID/address that must be focused immediately before this step.
    pub focused_window_id: Option<String>,
    /// Numeric workspace ID that must be active on the focused monitor.
    pub workspace_id: Option<i32>,
}

/// One step of a sequence: an action and its guard.
#[derive(Debug, Clone)]
pub struct SequenceStep {
    pub action: SequenceAction,
    pub guard: SequenceGuard,
}

/// A typed sequence action.
#[derive(Debug, Clone)]
pub enum SequenceAction {
    MovePointer { x: i32, y: i32, duration_ms: Option<u32>, motion: MotionProfile },
    Click { button: MouseButton, count: u8, interval_ms: u32 },
    FocusWindow { window_id: String },
    Scroll { direction: ScrollDirection, amount: u8 },
    PressKey { key: String, modifiers: Vec<KeyModifier>, repeat: u8 },
    TypeText { text: String, interval_ms: u32 },
    Wait { duration_ms: u32 },
    SwitchWorkspace { workspace_id: i32 },
}

/// The tool name of an action.
pub open spec fn spec_action_name(a: SequenceAction) -> &'static str {
    match a {
        SequenceAction::MovePointer { .. } => "move_pointer",
        SequenceAction::Click { .. } => "click",
        SequenceAction::FocusWindow { .. } => "focus_window",
        SequenceAction::Scroll { .. } => "scroll",
        SequenceAction::PressKey { .. } => "press_key",
        SequenceAction::TypeText { .. } => "type_text",
        SequenceAction::Wait { .. } => "wait",
        SequenceAction::SwitchWorkspace { .. } => "switch_workspace",
    }
}

/// `a * b`, or `u64::MAX` when the product does not fit.
pub open spec fn saturating_product(a: nat, b: nat) -> nat {
    if a * b > u64::MAX {
        u64::MAX as nat
    } else {
        a * b
    }
}

/// The time an action is conservatively planned to take, in milliseconds:
/// the movement duration (the automatic maximum when none is given, nothing
/// for an instant move), the pauses between clicks, the per-character
/// typing delay, or the wait itself.
pub open spec fn spec_planned_duration(a: SequenceAction) -> nat {
    match a {
        SequenceAction::MovePointer { duration_ms, motion, .. } => if motion
            == MotionProfile::Instant {
            0
        } else {
            match duration_ms {
                Some(d) => d as nat,
                None => AUTOMATIC_MOVE_PLAN_MS as nat,
            }
        },
        SequenceAction::Click { count, interval_ms, .. } => if count == 0 {
            0
        } else {
            ((count - 1) * interval_ms) as nat
        },
        SequenceAction::TypeText { text, interval_ms } => saturating_product(
            text@.len(),
            interval_ms as nat,
        ),
        SequenceAction::Wait { duration_ms } => duration_ms as nat,
        _ => 0,
    }
}

/// Law: how long each kind of step is planned to take. A move that is not
/// instant is planned at exactly its explicit duration, whichever motion
/// profile it uses, and at 1200 ms only when no duration is given; an
/// instant move takes no time. A click of `n` presses plans the `n - 1`
/// pauses between them; typing plans the per-character delay for each
/// character, capped at `u64::MAX`; a wait plans its own length; and the
/// other actions plan nothing.
pub proof fn lemma_planned_durations(a: SequenceAction)
    ensures
        a matches SequenceAction::MovePointer { duration_ms: Some(d), motion, .. } ==> (motion
            != MotionProfile::Instant ==> spec_planned_duration(a) == d),
        a matches SequenceAction::MovePointer { duration_ms: None, motion, .. } ==> (motion
            != MotionProfile::Instant ==> spec_planned_duration(a) == 1200),
        a matches SequenceAction::MovePointer { motion: MotionProfile::Instant, .. }
            ==> spec_planned_duration(a) == 0,
        a matches SequenceAction::Click { count, interval_ms, .. } ==> (count >= 1
            ==> spec_planned_duration(a) == (count - 1) * interval_ms),
        a matches SequenceAction::Click { count: 0, .. } ==> spec_planned_duration(a) == 0,
        a matches SequenceAction::TypeText { text, interval_ms } ==> (spec_planned_duration(a)
            <= u64::MAX && (text@.len() * interval_ms <= u64::MAX ==> spec_planned_duration(a)
            == text@.len() * interval_ms) && (text@.len() * interval_ms > u64::MAX
            ==> spec_planned_duration(a) == u64::MAX)),
        a matches SequenceAction::Wait { duration_ms } ==> spec_planned_duration(a) == duration_ms,
        (a is FocusWindow || a is Scroll || a is PressKey || a is SwitchWorkspace)
            ==> spec_planned_duration(a) == 0,
{
}

/// Law: the plan of a move that is not instant depends on its duration
/// alone: two such moves with the same duration, to any targets and with
/// any non-instant profiles, are planned alike.
pub proof fn lemma_move_plan_ignores_profile(
    x1: i32,
    y1: i32,
    m1: MotionProfile,
    x2: i32,
    y2: i32,
    m2: MotionProfile,
    duration_ms: Option<u32>,
)
    requires
        m1 != MotionProfile::Instant,
        m2 != MotionProfile::Instant,
    ensures
        spec_planned_duration(SequenceAction::MovePointer { x: x1, y: y1, duration_ms, motion: m1 })
            == spec_planned_duration(SequenceAction::MovePointer { x: x2, y: y2, duration_ms, motion: m2 }),
{
}

impl SequenceAction {
    /// The tool this action performs.
    pub fn name(&self) -> (s: &'static str)
        ensures
            s == spec_action_name(*self),
    {
        match self {
            SequenceAction::MovePointer { .. } => "move_pointer",
            SequenceAction::Click { .. } => "click",
            SequenceAction::FocusWindow { .. } => "focus_window",
            SequenceAction::Scroll { .. } => "scroll",
            SequenceAction::PressKey { .. } => "press_key",
            SequenceAction::TypeText { .. } => "type_text",
            SequenceAction::Wait { .. } => "wait",
            SequenceAction::SwitchWorkspace { .. } => "switch_workspace",
        }
    }

    /// Whether the action changes the desktop (everything but a wait).
    pub fn is_input(&self) -> (b: bool)
        ensures
            b == !(*self is Wait),
    {
        match self {
            SequenceAction::Wait { .. } => false,
            _ => true,
        }
    }

    /// The conservatively planned duration of the action, in milliseconds.
    pub fn planned_duration_ms(&self) -> (d: u64)
        ensures
            d == spec_planned_duration(*self),
    {
        match self {
            SequenceAction::MovePointer { duration_ms, motion, .. } => {
                if *motion == MotionProfile::Instant {
                    0
                } else {
                    match duration_ms {
                        Some(d) => *d as u64,
                        None => AUTOMATIC_MOVE_PLAN_MS as u64,
                    }
                }
            },
            SequenceAction::Click { count, interval_ms, .. } => {
                let pauses: u64 = if *count == 0 {
                    0
                } else {
                    (*count - 1) as u64
                };
                assert(pauses * (*interval_ms as u64) <= 255 * 0xffff_ffff) by (nonlinear_arith)
                    requires
                        pauses <= 255,
                        *interval_ms <= 0xffff_ffff,
                ;
                pauses * (*interval_ms as u64)
            },
            SequenceAction::TypeText { text, interval_ms } => {
                let chars = text.as_str().unicode_len() as u64;
                match chars.checked_mul(*interval_ms as u64) {
                    Some(v) => v,
                    None => u64::MAX,
                }
            },
            SequenceAction::Wait { duration_ms } => *duration_ms as u64,
            _ => 0,
        }
    }
}

/// The error of a failed sequence step.
#[derive(Debug, Clone)]
pub struct SequenceStepError {
    pub code: String,
    pub message: String,
    pub details: Option<serde_json::Value>,
}

/// The result and timing of one sequence step.
#[derive(Debug, Clone)]
pub struct SequenceStepResult {
    pub index: usize,
    pub action: String,
    pub started_offset_ms: u128,
    pub elapsed_ms: u128,
    pub ok: bool,
    pub result: Option<serde_json::Value>,
    pub error: Option<SequenceStepError>,
}

/// Default click button: left.
pub fn default_button() -> (b: MouseButton)
    ensures
        b == MouseButton::Left,
{
    MouseButton::Left
}

/// Default click count and key repeat: once.
pub fn default_count() -> (n: u8)
    ensures
        n == 1,
{
    1
}

/// Default pause between clicks: 120 ms.
pub fn default_click_interval() -> (ms: u32)
    ensures
        ms == 120,
{
    120
}

/// Default scroll amount: three wheel steps.
pub fn default_scroll_amount() -> (n: u8)
    ensures
        n == 3,
{
    3
}

/// Default delay between typed characters: 5 ms.
pub fn default_text_interval() -> (ms: u32)
    ensures
        ms == 5,
{
    5
}

} // verus!
