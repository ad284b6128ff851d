use hyprharness::models::{MotionProfile, MouseButton};
use hyprharness::sequence::{default_click_interval, default_count, default_scroll_amount, default_text_interval, SequenceAction};

#[test]
fn automatic_motion_uses_conservative_planned_duration() {
    let action = SequenceAction::MovePointer {
        x: 1,
        y: 2,
        duration_ms: None,
        motion: MotionProfile::Natural,
    };
    assert_eq!(action.planned_duration_ms(), 1_200);
}

#[test]
fn planned_durations_per_action() {
    let instant = SequenceAction::MovePointer { x: 0, y: 0, duration_ms: Some(900), motion: MotionProfile::Instant };
    assert_eq!(instant.planned_duration_ms(), 0);
    let smooth = SequenceAction::MovePointer { x: 0, y: 0, duration_ms: Some(900), motion: MotionProfile::Smooth };
    assert_eq!(smooth.planned_duration_ms(), 900);
    let click = SequenceAction::Click { button: MouseButton::Left, count: 3, interval_ms: 120 };
    assert_eq!(click.planned_duration_ms(), 240);
    let typing = SequenceAction::TypeText { text: "héllo".into(), interval_ms: 10 };
    assert_eq!(typing.planned_duration_ms(), 50);
    let wait = SequenceAction::Wait { duration_ms: 800 };
    assert_eq!(wait.planned_duration_ms(), 800);
    let focus = SequenceAction::FocusWindow { window_id: "0x1".into() };
    assert_eq!(focus.planned_duration_ms(), 0);
}

#[test]
fn action_names_and_input_classification() {
    let wait = SequenceAction::Wait { duration_ms: 1 };
    assert_eq!(wait.name(), "wait");
    assert!(!wait.is_input());
    let ws = SequenceAction::SwitchWorkspace { workspace_id: 3 };
    assert_eq!(ws.name(), "switch_workspace");
    assert!(ws.is_input());
    let key = SequenceAction::PressKey { key: "l".into(), modifiers: vec![], repeat: 1 };
    assert_eq!(key.name(), "press_key");
}

#[test]
fn sequence_defaults() {
    assert_eq!(default_count(), 1);
    assert_eq!(default_click_interval(), 120);
    assert_eq!(default_scroll_amount(), 3);
    assert_eq!(default_text_interval(), 5);
}
