use hyprharness::input::{map_trajectory, scroll_steps, AbsolutePoint, DesktopBounds, ScrollAxis};
use hyprharness::models::{Monitor, Point, ScrollDirection, WorkspaceRef};

fn monitor(x: i32, y: i32, width: i32, height: i32, scale_millionths: i64) -> Monitor {
    Monitor {
        id: 0,
        name: "test".into(),
        description: String::new(),
        width,
        height,
        x,
        y,
        scale_millionths,
        transform: 0,
        focused: true,
        disabled: false,
        dpms_status: true,
        active_workspace: WorkspaceRef::default(),
    }
}

#[test]
fn maps_negative_and_scaled_monitor_layouts_to_unsigned_wayland_space() {
    let bounds = DesktopBounds::from_monitors(&[
        monitor(-1920, 0, 1920, 1080, 1_000_000),
        monitor(0, 0, 1920, 1080, 2_000_000),
    ])
    .unwrap();
    assert_eq!(
        bounds,
        DesktopBounds {
            x: -1920,
            y: 0,
            width: 2880,
            height: 1080,
        }
    );
    assert_eq!(
        bounds.map_point(&Point { x: -1920, y: 0 }).unwrap(),
        AbsolutePoint { x: 0, y: 0 }
    );
    assert_eq!(
        bounds.map_point(&Point { x: 959, y: 539 }).unwrap(),
        AbsolutePoint { x: 2879, y: 539 }
    );
}

#[test]
fn rejects_points_outside_the_wayland_coordinate_frame() {
    let bounds = DesktopBounds {
        x: -100,
        y: -50,
        width: 200,
        height: 100,
    };
    assert!(bounds.map_point(&Point { x: -101, y: 0 }).is_err());
    assert!(bounds.map_point(&Point { x: 100, y: 0 }).is_err());
    assert!(bounds.map_point(&Point { x: 0, y: 50 }).is_err());
}

#[test]
fn bounds_ignore_disabled_and_powered_off_monitors() {
    let mut off = monitor(5000, 5000, 100, 100, 1_000_000);
    off.dpms_status = false;
    let mut disabled = monitor(-5000, -5000, 100, 100, 1_000_000);
    disabled.disabled = true;
    let bounds =
        DesktopBounds::from_monitors(&[off, monitor(0, 0, 800, 600, 1_000_000), disabled]).unwrap();
    assert_eq!(bounds, DesktopBounds { x: 0, y: 0, width: 800, height: 600 });
}

#[test]
fn bounds_without_active_monitors_are_out_of_bounds() {
    assert_eq!(DesktopBounds::from_monitors(&[]).unwrap_err().code, "OUT_OF_BOUNDS");
    let mut off = monitor(0, 0, 100, 100, 1_000_000);
    off.disabled = true;
    assert_eq!(DesktopBounds::from_monitors(&[off]).unwrap_err().code, "OUT_OF_BOUNDS");
}

#[test]
fn bounds_with_empty_extent_are_invalid() {
    assert_eq!(
        DesktopBounds::from_monitors(&[monitor(0, 0, 0, 100, 1_000_000)]).unwrap_err().code,
        "INVALID_ARGUMENT"
    );
    assert_eq!(
        DesktopBounds::from_monitors(&[monitor(0, 0, 100, 0, 1_000_000)]).unwrap_err().code,
        "INVALID_ARGUMENT"
    );
}

#[test]
fn every_pixel_of_an_active_monitor_maps_into_the_frame() {
    let monitors = [
        monitor(-1920, -200, 1920, 1080, 1_000_000),
        monitor(0, 0, 2560, 1440, 1_500_000),
    ];
    let bounds = DesktopBounds::from_monitors(&monitors).unwrap();
    for m in &monitors {
        for (dx, dy) in [(0, 0), (m.logical_width() - 1, m.logical_height() - 1)] {
            let p = Point { x: m.x + dx, y: m.y + dy };
            assert!(m.contains(&p));
            let a = bounds.map_point(&p).unwrap();
            assert!(a.x < bounds.width && a.y < bounds.height);
        }
    }
}

#[test]
fn trajectories_map_every_point_or_fail() {
    let bounds = DesktopBounds { x: -10, y: -10, width: 20, height: 20 };
    assert_eq!(
        map_trajectory(bounds, &[Point { x: -10, y: -10 }, Point { x: 9, y: 9 }]).unwrap(),
        vec![AbsolutePoint { x: 0, y: 0 }, AbsolutePoint { x: 19, y: 19 }]
    );
    assert_eq!(map_trajectory(bounds, &[]).unwrap_err().code, "INVALID_ARGUMENT");
    assert_eq!(
        map_trajectory(bounds, &[Point { x: 0, y: 0 }, Point { x: 10, y: 0 }]).unwrap_err().code,
        "OUT_OF_BOUNDS"
    );
}

#[test]
fn scroll_directions_choose_axis_and_sign() {
    assert_eq!(scroll_steps(ScrollDirection::Up, 3), (ScrollAxis::Vertical, -3));
    assert_eq!(scroll_steps(ScrollDirection::Down, 3), (ScrollAxis::Vertical, 3));
    assert_eq!(scroll_steps(ScrollDirection::Left, 20), (ScrollAxis::Horizontal, -20));
    assert_eq!(scroll_steps(ScrollDirection::Right, 1), (ScrollAxis::Horizontal, 1));
}

#[test]
fn frame_errors_name_the_point() {
    let bounds = DesktopBounds { x: 0, y: 0, width: 10, height: 10 };
    assert_eq!(
        bounds.map_point(&Point { x: 10, y: -1 }).unwrap_err().message,
        "point (10, -1) is outside Wayland desktop bounds"
    );
    assert_eq!(
        DesktopBounds::from_monitors(&[]).unwrap_err().message,
        "no active monitors found"
    );
}
