use hyprharness::capture::Capture;
use hyprharness::flow::{
    click_step, move_pointer_step, observe_step, ClickPhase, ClickState, HarnessAction,
    HarnessEvent, MovePhase, MoveState, ObservePhase, ObserveState,
};
use hyprharness::models::{Monitor, MouseButton, Point, Window, WorkspaceRef};
use hyprharness::policy::SafetyPolicy;
use hyprharness::HarnessError;

fn screen() -> Monitor {
    Monitor {
        id: 1,
        name: "DP-1".into(),
        description: String::new(),
        width: 1920,
        height: 1080,
        x: 0,
        y: 0,
        scale_millionths: 1_000_000,
        transform: 0,
        focused: true,
        disabled: false,
        dpms_status: true,
        active_workspace: WorkspaceRef::default(),
    }
}

fn io_error() -> HarnessError {
    HarnessError::new("IPC_ERROR", "socket closed".into())
}

#[test]
fn animated_move_runs_every_check_then_moves_and_records() {
    let mut policy = SafetyPolicy::new(false);
    let target = Point { x: 2, y: 0 };
    let (s, a) = MoveState::start(target, 100);
    assert!(matches!(a, HarnessAction::QueryCursor));
    let (s, a) = move_pointer_step(&mut policy, s, HarnessEvent::Cursor(Ok(Point { x: 5, y: 5 })));
    assert!(matches!(a, HarnessAction::CheckAudit));
    let (s, a) = move_pointer_step(&mut policy, s, HarnessEvent::AuditChecked(Ok(())));
    assert!(matches!(a, HarnessAction::QueryLocked));
    let (s, a) = move_pointer_step(&mut policy, s, HarnessEvent::Locked(Ok(false)));
    assert!(matches!(a, HarnessAction::QueryMonitors));
    let (s, a) = move_pointer_step(&mut policy, s, HarnessEvent::Monitors(Ok(vec![screen()])));
    assert!(matches!(a, HarnessAction::QueryCursor));
    let (s, a) =
        move_pointer_step(&mut policy, s, HarnessEvent::Cursor(Ok(Point { x: 0, y: 0 })));
    assert!(matches!(a, HarnessAction::MoveCursor(Point { x: 0, y: 0 })));
    let (s, a) = move_pointer_step(&mut policy, s, HarnessEvent::Performed(Ok(())));
    assert!(matches!(a, HarnessAction::Sleep(16)));
    let (s, a) = move_pointer_step(&mut policy, s, HarnessEvent::Slept);
    assert!(matches!(a, HarnessAction::MoveCursor(Point { x: 1, y: 0 })));
    let (s, a) = move_pointer_step(&mut policy, s, HarnessEvent::Performed(Ok(())));
    assert!(matches!(a, HarnessAction::Sleep(48)));
    let (s, a) = move_pointer_step(&mut policy, s, HarnessEvent::Slept);
    assert!(matches!(a, HarnessAction::MoveCursor(Point { x: 2, y: 0 })));
    let (s, a) = move_pointer_step(&mut policy, s, HarnessEvent::Performed(Ok(())));
    assert!(matches!(a, HarnessAction::QueryCursor));
    let (s, a) = move_pointer_step(&mut policy, s, HarnessEvent::Cursor(Ok(target)));
    match a {
        HarnessAction::Record(entry) => {
            assert!(entry.success);
            assert_eq!(entry.error_code, None);
            assert_eq!(entry.cursor_before, Some(Point { x: 5, y: 5 }));
            assert_eq!(entry.cursor_after, Some(target));
        }
        other => panic!("unexpected action {other:?}"),
    }
    let (s, a) = move_pointer_step(&mut policy, s, HarnessEvent::Recorded(Ok(())));
    assert_eq!(s.phase(), MovePhase::Done);
    match a {
        HarnessAction::Finish(Ok(result)) => {
            assert_eq!(result.started_at, Point { x: 0, y: 0 });
            assert_eq!(result.ended_at, target);
            assert_eq!(result.requested, target);
            assert_eq!(result.duration_ms, 100);
            assert_eq!(result.monitor, "DP-1");
        }
        other => panic!("unexpected action {other:?}"),
    }
}

#[test]
fn unwritable_audit_log_stops_a_move_before_anything_else() {
    let mut policy = SafetyPolicy::new(false);
    let (s, _) = MoveState::start(Point { x: 1, y: 1 }, 0);
    let (s, _) = move_pointer_step(&mut policy, s, HarnessEvent::Cursor(Err(io_error())));
    let unavailable = HarnessError::new("AUDIT_UNAVAILABLE", "open audit log: denied".into());
    let (s, a) = move_pointer_step(&mut policy, s, HarnessEvent::AuditChecked(Err(unavailable)));
    assert_eq!(s.phase(), MovePhase::Done);
    match a {
        HarnessAction::Finish(Err(e)) => assert_eq!(e.code, "AUDIT_UNAVAILABLE"),
        other => panic!("unexpected action {other:?}"),
    }
}

fn failed_move_code(read_only: bool, duration_ms: u32, locked: bool, target: Point) -> &'static str {
    let mut policy = SafetyPolicy::new(read_only);
    let (s, _) = MoveState::start(target, duration_ms);
    let (s, _) = move_pointer_step(&mut policy, s, HarnessEvent::Cursor(Ok(Point { x: 0, y: 0 })));
    let (mut s, mut a) = move_pointer_step(&mut policy, s, HarnessEvent::AuditChecked(Ok(())));
    if matches!(a, HarnessAction::QueryLocked) {
        (s, a) = move_pointer_step(&mut policy, s, HarnessEvent::Locked(Ok(locked)));
    }
    if matches!(a, HarnessAction::QueryMonitors) {
        (s, a) = move_pointer_step(&mut policy, s, HarnessEvent::Monitors(Ok(vec![screen()])));
    }
    let code = match a {
        HarnessAction::Record(entry) => {
            assert!(!entry.success);
            assert_eq!(entry.cursor_after, None);
            entry.error_code.unwrap()
        }
        other => panic!("unexpected action {other:?}"),
    };
    let (_, a) = move_pointer_step(&mut policy, s, HarnessEvent::Recorded(Ok(())));
    match a {
        HarnessAction::Finish(Err(e)) => assert_eq!(e.code, code),
        other => panic!("unexpected action {other:?}"),
    }
    code
}

#[test]
fn move_checks_come_in_order_and_the_first_failure_is_recorded() {
    let inside = Point { x: 10, y: 10 };
    let outside = Point { x: 5000, y: 10 };
    assert_eq!(failed_move_code(true, 2001, true, outside), "INVALID_ARGUMENT");
    assert_eq!(failed_move_code(true, 0, true, outside), "SESSION_LOCKED");
    assert_eq!(failed_move_code(true, 0, false, outside), "INPUT_DISABLED");
    assert_eq!(failed_move_code(false, 0, false, outside), "OUT_OF_BOUNDS");
    let mut policy = SafetyPolicy::new(false);
    let (s, _) = MoveState::start(inside, 0);
    let (s, _) = move_pointer_step(&mut policy, s, HarnessEvent::Cursor(Ok(inside)));
    let (s, _) = move_pointer_step(&mut policy, s, HarnessEvent::AuditChecked(Ok(())));
    let (s, _) = move_pointer_step(&mut policy, s, HarnessEvent::Locked(Ok(false)));
    let (s, _) = move_pointer_step(&mut policy, s, HarnessEvent::Monitors(Ok(vec![screen()])));
    let (_, a) = move_pointer_step(&mut policy, s, HarnessEvent::Cursor(Ok(inside)));
    assert!(matches!(a, HarnessAction::MoveCursor(p) if p == inside));
}

#[test]
fn record_failure_is_what_the_move_returns() {
    let mut policy = SafetyPolicy::new(false);
    let (s, _) = MoveState::start(Point { x: 1, y: 1 }, 5000);
    let (s, _) = move_pointer_step(&mut policy, s, HarnessEvent::Cursor(Ok(Point { x: 0, y: 0 })));
    let (s, _) = move_pointer_step(&mut policy, s, HarnessEvent::AuditChecked(Ok(())));
    let lost = HarnessError::new("AUDIT_UNAVAILABLE", "write audit log: full".into());
    let (_, a) = move_pointer_step(&mut policy, s, HarnessEvent::Recorded(Err(lost)));
    match a {
        HarnessAction::Finish(Err(e)) => assert_eq!(e.code, "AUDIT_UNAVAILABLE"),
        other => panic!("unexpected action {other:?}"),
    }
}

#[test]
fn an_unexpected_event_ends_the_move() {
    let mut policy = SafetyPolicy::new(false);
    let (s, _) = MoveState::start(Point { x: 1, y: 1 }, 0);
    let (s, a) = move_pointer_step(&mut policy, s, HarnessEvent::Slept);
    assert_eq!(s.phase(), MovePhase::Done);
    match a {
        HarnessAction::Finish(Err(e)) => assert_eq!(e.code, "INTERNAL_ERROR"),
        other => panic!("unexpected action {other:?}"),
    }
}

#[test]
fn click_runs_its_checks_clicks_and_reads_the_cursor_for_the_record() {
    let mut policy = SafetyPolicy::new(false);
    let here = Point { x: 100, y: 200 };
    let (s, a) = ClickState::start(MouseButton::Right, 2, 120);
    assert!(matches!(a, HarnessAction::QueryCursor));
    let (s, a) = click_step(&mut policy, s, HarnessEvent::Cursor(Ok(here)));
    assert!(matches!(a, HarnessAction::CheckAudit));
    let (s, a) = click_step(&mut policy, s, HarnessEvent::AuditChecked(Ok(())));
    assert!(matches!(a, HarnessAction::QueryLocked));
    let (s, a) = click_step(&mut policy, s, HarnessEvent::Locked(Ok(false)));
    assert!(matches!(a, HarnessAction::QueryCursor));
    let (s, a) = click_step(&mut policy, s, HarnessEvent::Cursor(Ok(here)));
    assert!(matches!(a, HarnessAction::QueryMonitors));
    let (s, a) = click_step(&mut policy, s, HarnessEvent::Monitors(Ok(vec![screen()])));
    assert!(matches!(a, HarnessAction::Click(MouseButton::Right, 2, 120)));
    let (s, a) = click_step(&mut policy, s, HarnessEvent::Performed(Ok(())));
    assert!(matches!(a, HarnessAction::QueryCursor));
    let (s, a) = click_step(&mut policy, s, HarnessEvent::Cursor(Err(io_error())));
    match a {
        HarnessAction::Record(entry) => {
            assert!(entry.success);
            assert_eq!(entry.cursor_before, Some(here));
            assert_eq!(entry.cursor_after, None);
        }
        other => panic!("unexpected action {other:?}"),
    }
    let (s, a) = click_step(&mut policy, s, HarnessEvent::Recorded(Ok(())));
    assert_eq!(s.phase(), ClickPhase::Done);
    match a {
        HarnessAction::Finish(Ok(result)) => {
            assert_eq!(result.position, here);
            assert_eq!(result.button, "right");
            assert_eq!(result.count, 2);
            assert_eq!(result.interval_ms, 120);
        }
        other => panic!("unexpected action {other:?}"),
    }
}

#[test]
fn click_failures_still_read_the_cursor_and_record() {
    let mut policy = SafetyPolicy::new(false);
    let (s, _) = ClickState::start(MouseButton::Left, 4, 120);
    let (s, _) = click_step(&mut policy, s, HarnessEvent::Cursor(Ok(Point { x: 0, y: 0 })));
    let (s, a) = click_step(&mut policy, s, HarnessEvent::AuditChecked(Ok(())));
    assert!(matches!(a, HarnessAction::QueryCursor));
    let (s, a) = click_step(&mut policy, s, HarnessEvent::Cursor(Ok(Point { x: 3, y: 3 })));
    match a {
        HarnessAction::Record(entry) => {
            assert!(!entry.success);
            assert_eq!(entry.error_code, Some("INVALID_ARGUMENT"));
            assert_eq!(entry.cursor_after, Some(Point { x: 3, y: 3 }));
        }
        other => panic!("unexpected action {other:?}"),
    }
    let (_, a) = click_step(&mut policy, s, HarnessEvent::Recorded(Ok(())));
    match a {
        HarnessAction::Finish(Err(e)) => assert_eq!(e.message, "count must be between 1 and 3"),
        other => panic!("unexpected action {other:?}"),
    }
}

#[test]
fn click_off_every_monitor_is_out_of_bounds() {
    let mut policy = SafetyPolicy::new(false);
    let (s, _) = ClickState::start(MouseButton::Left, 1, 40);
    let (s, _) = click_step(&mut policy, s, HarnessEvent::Cursor(Ok(Point { x: 0, y: 0 })));
    let (s, _) = click_step(&mut policy, s, HarnessEvent::AuditChecked(Ok(())));
    let (s, _) = click_step(&mut policy, s, HarnessEvent::Locked(Ok(false)));
    let (s, _) = click_step(&mut policy, s, HarnessEvent::Cursor(Ok(Point { x: -5, y: 0 })));
    let (s, a) = click_step(&mut policy, s, HarnessEvent::Monitors(Ok(vec![screen()])));
    assert!(matches!(a, HarnessAction::QueryCursor));
    let (_, a) = click_step(&mut policy, s, HarnessEvent::Cursor(Ok(Point { x: -5, y: 0 })));
    match a {
        HarnessAction::Record(entry) => assert_eq!(entry.error_code, Some("OUT_OF_BOUNDS")),
        other => panic!("unexpected action {other:?}"),
    }
}

fn window(address: &str, focused: bool) -> Window {
    Window {
        address: address.into(),
        stable_id: String::new(),
        mapped: true,
        hidden: false,
        visible: true,
        accepts_input: true,
        at: [0, 0],
        size: [100, 100],
        workspace: WorkspaceRef::default(),
        monitor: 1,
        class: String::new(),
        title: String::new(),
        pid: 1,
        xwayland: false,
        fullscreen: 0,
        focus_history_id: 0,
        focused,
    }
}

#[test]
fn observation_records_the_capture_digest_and_never_its_bytes() {
    let mut other = screen();
    other.name = "HDMI-A-1".into();
    other.focused = false;
    let (s, a) = ObserveState::start(None);
    assert!(matches!(a, HarnessAction::QueryMonitors));
    let (s, a) = observe_step(s, HarnessEvent::Monitors(Ok(vec![other, screen()])));
    assert!(matches!(a, HarnessAction::QueryCursor));
    let (s, a) = observe_step(s, HarnessEvent::Cursor(Ok(Point { x: 7, y: 8 })));
    assert!(matches!(a, HarnessAction::QueryWindows));
    let windows = vec![window("0x1", false), window("0x2", true), window("0x3", true)];
    let (s, a) = observe_step(s, HarnessEvent::Windows(Ok(windows)));
    match a {
        HarnessAction::CaptureMonitor(name) => assert_eq!(name, "DP-1"),
        other => panic!("unexpected action {other:?}"),
    }
    let capture = Capture { png: Vec::new(), pixel_width: 1920, pixel_height: 1080 };
    let (s, a) = observe_step(s, HarnessEvent::Captured(Ok(capture)));
    let empty_digest = "e3b0c44298fc1c149afbf4c8996fb92427ae41e4649b934ca495991b7852b855";
    match a {
        HarnessAction::Record(entry) => {
            assert!(entry.success);
            let summary = entry.capture.unwrap();
            assert_eq!(summary.monitor, "DP-1");
            assert_eq!((summary.pixel_width, summary.pixel_height), (1920, 1080));
            assert_eq!(summary.bytes, 0);
            assert_eq!(summary.sha256, empty_digest);
        }
        other => panic!("unexpected action {other:?}"),
    }
    let (s, a) = observe_step(s, HarnessEvent::Recorded(Ok(())));
    assert_eq!(s.phase(), ObservePhase::Done);
    match a {
        HarnessAction::Finish(Ok(observation)) => {
            assert_eq!(observation.monitor.name, "DP-1");
            assert_eq!(observation.cursor, Point { x: 7, y: 8 });
            assert_eq!(observation.active_window.unwrap().address, "0x2");
            assert_eq!(observation.image.mime_type, "image/png");
            assert_eq!(observation.image.sha256, empty_digest);
        }
        other => panic!("unexpected action {other:?}"),
    }
}

#[test]
fn observation_of_a_missing_monitor_is_recorded_as_invalid() {
    let (s, _) = ObserveState::start(Some("nope".into()));
    let (s, a) = observe_step(s, HarnessEvent::Monitors(Ok(vec![screen()])));
    match a {
        HarnessAction::Record(entry) => {
            assert!(!entry.success);
            assert_eq!(entry.error_code, Some("INVALID_ARGUMENT"));
            assert!(entry.capture.is_none());
        }
        other => panic!("unexpected action {other:?}"),
    }
    let (_, a) = observe_step(s, HarnessEvent::Recorded(Ok(())));
    match a {
        HarnessAction::Finish(Err(e)) => {
            assert_eq!(e.message, "monitor 'nope' was not found or is inactive")
        }
        other => panic!("unexpected action {other:?}"),
    }
}
