use hyprharness::models::{Monitor, Point, WorkspaceRef};
use hyprharness::policy::{register, SafetyPolicy, CLICK_LIMIT, MOVE_LIMIT, WINDOW_NANOS};
use std::collections::VecDeque;

fn monitor(x: i32, scale_millionths: i64) -> Monitor {
    Monitor {
        id: 1,
        name: "test".into(),
        description: String::new(),
        width: 1920,
        height: 1080,
        x,
        y: 0,
        scale_millionths,
        transform: 0,
        focused: true,
        disabled: false,
        dpms_status: true,
        active_workspace: WorkspaceRef::default(),
    }
}

#[test]
fn validates_negative_and_scaled_layouts() {
    let policy = SafetyPolicy::new(false);
    let monitors = vec![monitor(-1920, 1_000_000), monitor(0, 2_000_000)];
    assert!(
        policy
            .validate_target(&Point { x: -1, y: 100 }, &monitors)
            .is_ok()
    );
    assert!(
        policy
            .validate_target(&Point { x: 959, y: 539 }, &monitors)
            .is_ok()
    );
    assert!(
        policy
            .validate_target(&Point { x: 960, y: 100 }, &monitors)
            .is_err()
    );
}

#[test]
fn read_only_denies_input() {
    assert_eq!(
        SafetyPolicy::new(true).allow_move().unwrap_err().code,
        "INPUT_DISABLED"
    );
}

#[test]
fn rate_limits_excessive_moves() {
    let mut policy = SafetyPolicy::new(false);
    for _ in 0..MOVE_LIMIT {
        policy.allow_move().unwrap();
    }
    assert_eq!(policy.allow_move().unwrap_err().code, "RATE_LIMITED");
}

#[test]
fn read_only_denies_every_action_class() {
    let mut policy = SafetyPolicy::new(true);
    assert!(policy.read_only());
    assert_eq!(policy.allow_clicks(1).unwrap_err().code, "INPUT_DISABLED");
    assert_eq!(policy.allow_focus().unwrap_err().code, "INPUT_DISABLED");
    assert_eq!(policy.allow_workspace().unwrap_err().code, "INPUT_DISABLED");
    assert_eq!(policy.allow_scroll(3).unwrap_err().code, "INPUT_DISABLED");
    assert_eq!(policy.allow_keyboard(1, "press_key").unwrap_err().code, "INPUT_DISABLED");
}

#[test]
fn clicks_count_every_event_against_the_limit() {
    let mut policy = SafetyPolicy::new(false);
    assert!(policy.allow_clicks(CLICK_LIMIT - 1).is_ok());
    assert_eq!(policy.allow_clicks(2).unwrap_err().code, "RATE_LIMITED");
    assert!(policy.allow_clicks(1).is_ok());
    assert_eq!(policy.allow_clicks(1).unwrap_err().code, "RATE_LIMITED");
}

#[test]
fn focus_and_workspace_share_one_window() {
    let mut policy = SafetyPolicy::new(false);
    for _ in 0..60 {
        policy.allow_focus().unwrap();
        policy.allow_workspace().unwrap();
    }
    assert_eq!(policy.allow_workspace().unwrap_err().code, "RATE_LIMITED");
    assert_eq!(policy.allow_focus().unwrap_err().code, "RATE_LIMITED");
    assert!(policy.allow_move().is_ok());
}

#[test]
fn register_forgets_events_that_left_the_window() {
    let mut queue = VecDeque::new();
    assert!(register(&mut queue, 0, 2, 2, "t").is_ok());
    assert_eq!(register(&mut queue, WINDOW_NANOS - 1, 1, 2, "t").unwrap_err().code, "RATE_LIMITED");
    assert_eq!(queue.len(), 2);
    assert!(register(&mut queue, WINDOW_NANOS, 1, 2, "t").is_ok());
    assert_eq!(queue, VecDeque::from(vec![WINDOW_NANOS]));
}

#[test]
fn refused_registration_still_drops_expired_events() {
    let mut queue = VecDeque::from(vec![0, 10, 20]);
    assert!(register(&mut queue, WINDOW_NANOS + 10, 5, 3, "t").is_err());
    assert_eq!(queue, VecDeque::from(vec![20]));
}

#[test]
fn refusals_explain_themselves() {
    let mut queue = VecDeque::new();
    let error = register(&mut queue, 0, 61, CLICK_LIMIT, "click").unwrap_err();
    assert_eq!(error.message, "click exceeded the limit of 60 events per minute");
    let policy = SafetyPolicy::new(false);
    let error = policy
        .validate_target(&Point { x: -5, y: 7 }, &[monitor(0, 1_000_000)])
        .unwrap_err();
    assert_eq!(error.code, "OUT_OF_BOUNDS");
    assert_eq!(error.message, "point (-5, 7) is outside enabled monitor bounds");
    let mut read_only = SafetyPolicy::new(true);
    assert_eq!(
        read_only.allow_move().unwrap_err().message,
        "desktop input is disabled by --read-only"
    );
}

#[test]
fn longest_duration_bound_matches_std() {
    assert_eq!(
        hyprharness::policy::MAX_DURATION_NANOS,
        std::time::Duration::MAX.as_nanos()
    );
}

#[test]
fn accepted_events_in_any_minute_stay_within_the_limit() {
    let second = 1_000_000_000u128;
    let mut queue = VecDeque::new();
    let calls = [(0, 40usize), (30, 20), (45, 1), (59, 5), (60, 40), (61, 1), (95, 1)];
    let mut accepted = Vec::new();
    for (at, amount) in calls {
        if register(&mut queue, at * second, amount, 60, "click").is_ok() {
            accepted.push((at * second, amount));
        }
    }
    assert_eq!(
        accepted,
        vec![(0, 40), (30 * second, 20), (60 * second, 40), (95 * second, 1)]
    );
    for t in (0..=200u128).map(|s| s * second / 2) {
        let in_window: usize = accepted
            .iter()
            .filter(|(at, _)| *at <= t && t < *at + WINDOW_NANOS)
            .map(|(_, n)| *n)
            .sum();
        assert!(in_window <= 60, "{t}");
    }
}
