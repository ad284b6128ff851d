use hyprharness::harness::{
    deny_if_locked, focused_window, interpolate, linear_move_plan, mapped_windows, monitor_at,
    select_monitor, sha256_hex, validate_click, validate_move_duration,
};
use hyprharness::models::{Monitor, Point, Window, WorkspaceRef};

fn monitor(name: &str, x: i32, focused: bool, active: bool) -> Monitor {
    Monitor {
        id: 0,
        name: name.into(),
        description: String::new(),
        width: 1920,
        height: 1080,
        x,
        y: 0,
        scale_millionths: 1_000_000,
        transform: 0,
        focused,
        disabled: !active,
        dpms_status: true,
        active_workspace: WorkspaceRef::default(),
    }
}

fn window(address: &str, mapped: bool, focused: bool) -> Window {
    Window {
        address: address.into(),
        stable_id: String::new(),
        mapped,
        hidden: false,
        visible: true,
        accepts_input: true,
        at: [0, 0],
        size: [100, 100],
        workspace: WorkspaceRef::default(),
        monitor: 0,
        class: String::new(),
        title: String::new(),
        pid: 1,
        xwayland: false,
        fullscreen: 0,
        focus_history_id: 1,
        focused,
    }
}

#[test]
fn interpolation_finishes_exactly() {
    assert_eq!(interpolate(-100, 101, 1, 1), 101);
    assert_eq!(interpolate(0, 10, 1, 2), 5);
}

#[test]
fn interpolation_rounds_halves_away_from_zero() {
    assert_eq!(interpolate(0, 1, 1, 2), 1);
    assert_eq!(interpolate(0, -1, 1, 2), -1);
    assert_eq!(interpolate(-3, -2, 1, 2), -3);
    assert_eq!(interpolate(i32::MIN, i32::MAX, 1, 1), i32::MAX);
    assert_eq!(interpolate(i32::MAX, i32::MIN, 1, 1), i32::MIN);
}

#[test]
fn linear_moves_end_at_the_target_at_sixty_hertz() {
    let origin = Point { x: 0, y: 0 };
    let target = Point { x: 100, y: -50 };
    let (plan, delay) = linear_move_plan(origin, target, 100);
    let points: Vec<Point> = plan.iter().map(|(_, p)| *p).collect();
    let ticks: Vec<u32> = plan.iter().map(|(t, _)| *t).collect();
    assert_eq!(points.len(), 6);
    assert_eq!(ticks, vec![1, 2, 3, 4, 5, 6]);
    assert_eq!(delay, 16);
    assert_eq!(points[0], Point { x: 17, y: -8 });
    assert_eq!(*points.last().unwrap(), target);
    for p in &points {
        assert!(0 <= p.x && p.x <= 100 && -50 <= p.y && p.y <= 0);
    }
    let (plan, delay) = linear_move_plan(origin, target, 1);
    assert_eq!((plan, delay), (vec![(1, target)], 1));
    let (plan, _) = linear_move_plan(origin, target, 2000);
    assert_eq!(plan.len(), 110);
    assert_eq!(*plan.last().unwrap(), (120, target));
    for pair in plan.windows(2) {
        assert!(pair[0].0 < pair[1].0 && pair[0].1 != pair[1].1);
    }
}

#[test]
fn immediate_moves_go_straight_to_the_target() {
    let target = Point { x: -7, y: 9 };
    assert_eq!(linear_move_plan(Point { x: 0, y: 0 }, target, 0), (vec![(1, target)], 0));
}

#[test]
fn animated_moves_skip_repeated_points() {
    let here = Point { x: 40, y: 40 };
    assert_eq!(linear_move_plan(here, here, 100), (vec![(1, here)], 16));
    let (plan, delay) = linear_move_plan(Point { x: 0, y: 0 }, Point { x: 2, y: 0 }, 100);
    assert_eq!(
        plan,
        vec![
            (1, Point { x: 0, y: 0 }),
            (2, Point { x: 1, y: 0 }),
            (5, Point { x: 2, y: 0 }),
        ]
    );
    assert_eq!(delay, 16);
}

#[test]
fn argument_validation() {
    assert!(validate_move_duration(2000).is_ok());
    assert_eq!(validate_move_duration(2001).unwrap_err().code, "INVALID_ARGUMENT");
    assert!(validate_click(1, 40).is_ok());
    assert!(validate_click(3, 1000).is_ok());
    assert_eq!(validate_click(0, 120).unwrap_err().code, "INVALID_ARGUMENT");
    assert_eq!(validate_click(4, 120).unwrap_err().code, "INVALID_ARGUMENT");
    assert_eq!(validate_click(1, 39).unwrap_err().code, "INVALID_ARGUMENT");
    assert_eq!(validate_click(1, 1001).unwrap_err().code, "INVALID_ARGUMENT");
    assert!(deny_if_locked(false).is_ok());
    assert_eq!(deny_if_locked(true).unwrap_err().code, "SESSION_LOCKED");
}

#[test]
fn selects_named_or_focused_active_monitor() {
    let monitors = vec![
        monitor("DP-1", 0, false, true),
        monitor("eDP-1", 1920, true, true),
        monitor("HDMI-A-1", 3840, false, false),
    ];
    assert_eq!(select_monitor(&monitors, None).unwrap().name, "eDP-1");
    assert_eq!(select_monitor(&monitors, Some("DP-1")).unwrap().name, "DP-1");
    assert_eq!(select_monitor(&monitors, Some("HDMI-A-1")).unwrap_err().code, "INVALID_ARGUMENT");
    assert_eq!(select_monitor(&monitors, Some("nope")).unwrap_err().code, "INVALID_ARGUMENT");
    let unfocused = vec![monitor("DP-1", 0, false, true)];
    assert_eq!(select_monitor(&unfocused, None).unwrap_err().code, "INVALID_ARGUMENT");
}

#[test]
fn finds_the_monitor_under_the_cursor() {
    let monitors = vec![monitor("left", -1920, false, true), monitor("right", 0, true, true)];
    assert_eq!(monitor_at(&monitors, &Point { x: -5, y: 5 }).unwrap().name, "left");
    assert_eq!(monitor_at(&monitors, &Point { x: 5, y: 5 }).unwrap().name, "right");
    assert!(monitor_at(&monitors, &Point { x: 5, y: 1080 }).is_none());
}

#[test]
fn lists_mapped_windows_and_finds_focus() {
    let windows = vec![window("a", true, false), window("b", false, true), window("c", true, true)];
    assert_eq!(focused_window(&windows).unwrap().address, "b");
    let mapped = mapped_windows(windows);
    let addresses: Vec<_> = mapped.iter().map(|w| w.address.as_str()).collect();
    assert_eq!(addresses, ["a", "c"]);
    assert!(focused_window(&[window("x", true, false)]).is_none());
}

#[test]
fn hashes_captures_as_lowercase_hex_sha256() {
    assert_eq!(
        sha256_hex(b"abc"),
        "ba7816bf8f01cfea414140de5dae2223b00361a396177a9cb410ff61f20015ad"
    );
    assert_eq!(
        sha256_hex(b""),
        "e3b0c44298fc1c149afbf4c8996fb92427ae41e4649b934ca495991b7852b855"
    );
}

#[test]
fn image_metadata_records_size_and_digest() {
    let meta = hyprharness::harness::image_metadata(b"abc");
    assert_eq!(meta.mime_type, "image/png");
    assert_eq!(meta.bytes, 3);
    assert_eq!(meta.sha256, "ba7816bf8f01cfea414140de5dae2223b00361a396177a9cb410ff61f20015ad");
}
