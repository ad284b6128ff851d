use hyprharness::audit::{archive_shifts, needs_rotation, AuditLogger, ARCHIVES, MAX_BYTES};
use hyprharness::cli::{pointer_test_pattern, validate_test_distance};
use hyprharness::mcp::{default_button, default_count, default_interval, png_image_data};
use hyprharness::models::{
    true_value, CursorPosition, KeyModifier, Monitor, MotionProfile, MouseButton, Point,
    WorkspaceRef,
};
use hyprharness::text::{decimal_string, hex_lower_string, signed_decimal_string, str_eq};
use hyprharness::HarnessError;
use std::path::PathBuf;

fn monitor(width: i32, height: i32, scale_millionths: i64) -> Monitor {
    Monitor {
        id: 0,
        name: "m".into(),
        description: String::new(),
        width,
        height,
        x: 0,
        y: 0,
        scale_millionths,
        transform: 0,
        focused: true,
        disabled: false,
        dpms_status: true,
        active_workspace: WorkspaceRef::default(),
    }
}

#[test]
fn logical_size_divides_by_scale_and_rounds() {
    let m = monitor(2560, 1600, 1_600_000);
    assert_eq!((m.logical_width(), m.logical_height()), (1600, 1000));
    let m = monitor(2880, 1800, 1_333_333);
    assert_eq!((m.logical_width(), m.logical_height()), (2160, 1350));
    let m = monitor(3, 5, 2_000_000);
    assert_eq!((m.logical_width(), m.logical_height()), (2, 3));
    let m = monitor(100, 100, 0);
    assert_eq!(m.logical_width(), 10_000);
    let m = monitor(i32::MAX, 1, -5);
    assert_eq!(m.logical_width(), i32::MAX);
}

#[test]
fn inactive_monitors_contain_nothing() {
    let mut m = monitor(100, 100, 1_000_000);
    assert!(m.contains(&Point { x: 0, y: 0 }));
    assert!(m.contains(&Point { x: 99, y: 99 }));
    assert!(!m.contains(&Point { x: 100, y: 0 }));
    m.dpms_status = false;
    assert!(!m.contains(&Point { x: 0, y: 0 }));
    m.dpms_status = true;
    m.disabled = true;
    assert!(!m.contains(&Point { x: 0, y: 0 }));
}

#[test]
fn button_codes_names_and_modifiers() {
    assert_eq!(MouseButton::Left.linux_code(), 0x110);
    assert_eq!(MouseButton::Right.linux_code(), 0x111);
    assert_eq!(MouseButton::Middle.linux_code(), 0x112);
    assert_eq!(MouseButton::Middle.as_str(), "middle");
    assert_eq!(KeyModifier::Super.wtype_name(), "logo");
    assert_eq!(KeyModifier::Ctrl.wtype_name(), "ctrl");
    assert_eq!(MotionProfile::default(), MotionProfile::Natural);
    assert_eq!(Point::from(CursorPosition { x: 3, y: -4 }), Point { x: 3, y: -4 });
    assert!(true_value());
}

#[test]
fn error_constructors() {
    let e = HarnessError::io("CAPTURE_FAILED", "start grim", "not found");
    assert_eq!(e.code, "CAPTURE_FAILED");
    assert_eq!(e.message, "start grim: not found");
    assert!(e.details.is_none());
    let e = HarnessError::invalid("bad".to_string()).with_details(serde_json::Value::from(1));
    assert_eq!(e.code, "INVALID_ARGUMENT");
    assert_eq!(e.details.unwrap(), serde_json::Value::from(1));
}

#[test]
fn decimal_and_hex_text() {
    assert_eq!(decimal_string(0), "0");
    assert_eq!(decimal_string(120), "120");
    assert_eq!(decimal_string(u64::MAX), u64::MAX.to_string());
    assert_eq!(signed_decimal_string(i64::MIN), i64::MIN.to_string());
    assert_eq!(signed_decimal_string(-42), "-42");
    assert_eq!(hex_lower_string(&[0x00, 0x0f, 0xab, 0xff]), "000fabff");
    assert!(str_eq("abc", "abc"));
    assert!(!str_eq("abc", "abd"));
}

#[test]
fn tool_defaults_and_image_payload() {
    assert_eq!(default_button(), MouseButton::Left);
    assert_eq!(default_count(), 1);
    assert_eq!(default_interval(), 120);
    assert_eq!(png_image_data(b"hello"), "aGVsbG8=");
    assert_eq!(png_image_data(b""), "");
}

#[test]
fn audit_rotation_plan() {
    assert!(!needs_rotation(MAX_BYTES - 1));
    assert!(needs_rotation(MAX_BYTES));
    assert_eq!(archive_shifts(ARCHIVES), vec![(4, 5), (3, 4), (2, 3), (1, 2)]);
    assert_eq!(archive_shifts(1), vec![]);
    assert_eq!(archive_shifts(0), vec![]);
    let logger = AuditLogger::at_path(PathBuf::from("/tmp/audit.jsonl"));
    assert_eq!(logger.path(), &PathBuf::from("/tmp/audit.jsonl"));
}

#[test]
fn pointer_test_stays_on_the_monitor() {
    assert!(validate_test_distance(1).is_ok());
    assert!(validate_test_distance(500).is_ok());
    assert_eq!(validate_test_distance(0).unwrap_err().code, "INVALID_ARGUMENT");
    assert_eq!(validate_test_distance(501).unwrap_err().code, "INVALID_ARGUMENT");
    let m = monitor(1920, 1080, 1_000_000);
    let origin = Point { x: 1900, y: 10 };
    assert_eq!(
        pointer_test_pattern(origin, &m, 40),
        vec![
            Point { x: 1919, y: 10 },
            Point { x: 1919, y: 50 },
            Point { x: 1900, y: 50 },
            origin
        ]
    );
}

#[test]
fn errors_display_code_and_message() {
    let e = HarnessError::new("SESSION_LOCKED", "locked".to_string());
    assert_eq!(e.to_display_string(), "SESSION_LOCKED: locked");
}
