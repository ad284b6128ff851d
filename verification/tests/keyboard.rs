use hyprharness::keyboard::{normalize_key, press_key_args, type_text_args, WtypeKeyboard};
use hyprharness::models::KeyModifier;
use std::path::PathBuf;

#[test]
fn normalizes_supported_keys() {
    assert_eq!(normalize_key("enter").unwrap(), "Return");
    assert_eq!(normalize_key("page_up").unwrap(), "Page_Up");
    assert_eq!(normalize_key("F12").unwrap(), "F12");
    assert_eq!(normalize_key("L").unwrap(), "l");
}

#[test]
fn rejects_unknown_keys() {
    assert_eq!(
        normalize_key("volume_up").unwrap_err().code,
        "INVALID_ARGUMENT"
    );
}

#[test]
fn normalizes_aliases_case_and_function_keys() {
    assert_eq!(normalize_key("RETURN").unwrap(), "Return");
    assert_eq!(normalize_key("Esc").unwrap(), "Escape");
    assert_eq!(normalize_key("PageDown").unwrap(), "Page_Down");
    assert_eq!(normalize_key("dot").unwrap(), "period");
    assert_eq!(normalize_key("bracket_left").unwrap(), "bracketleft");
    assert_eq!(normalize_key("f1").unwrap(), "F1");
    assert_eq!(normalize_key("f10").unwrap(), "F10");
    assert_eq!(normalize_key("7").unwrap(), "7");
    assert_eq!(normalize_key("q").unwrap(), "q");
    assert_eq!(normalize_key("Z").unwrap(), "z");
}

#[test]
fn rejects_out_of_range_and_malformed_keys() {
    for key in ["f0", "f13", "F1x", "", "-", "é", "ctrl", "enter "] {
        assert_eq!(normalize_key(key).unwrap_err().code, "INVALID_ARGUMENT", "{key}");
    }
}

#[test]
fn press_key_holds_modifiers_around_repeated_taps() {
    let args = press_key_args("l", &[KeyModifier::Ctrl, KeyModifier::Super], 2).unwrap();
    assert_eq!(
        args,
        vec!["-M", "ctrl", "-M", "logo", "-k", "l", "-k", "l", "-m", "logo", "-m", "ctrl"]
    );
    assert_eq!(press_key_args("enter", &[], 1).unwrap(), vec!["-k", "Return"]);
    assert_eq!(press_key_args("nope", &[], 1).unwrap_err().code, "INVALID_ARGUMENT");
}

#[test]
fn typed_text_goes_to_stdin_with_interval_argument() {
    assert_eq!(type_text_args("private text", 7).unwrap(), vec!["-d", "7", "-"]);
    assert_eq!(type_text_args("x", 50).unwrap(), vec!["-d", "50", "-"]);
    assert_eq!(type_text_args("x", 0).unwrap(), vec!["-d", "0", "-"]);
    assert_eq!(type_text_args("a\0b", 5).unwrap_err().code, "INVALID_ARGUMENT");
}

#[test]
fn wtype_keyboard_remembers_its_executable() {
    let keyboard = WtypeKeyboard::from_path(PathBuf::from("/bin/wtype"));
    assert_eq!(keyboard.executable_path(), &PathBuf::from("/bin/wtype"));
}

#[test]
fn unsupported_key_message_names_the_key() {
    assert_eq!(
        normalize_key("volume_up").unwrap_err().message,
        "unsupported key 'volume_up'; use a letter, digit, F1-F12, or a documented named key"
    );
}

#[test]
fn function_keys_take_no_sign_or_leading_zero() {
    for key in ["f01", "F+1", "f+9", "f00", "f012", "F-1"] {
        assert_eq!(normalize_key(key).unwrap_err().code, "INVALID_ARGUMENT", "{key}");
    }
    assert_eq!(normalize_key("F9").unwrap(), "F9");
    assert_eq!(normalize_key("f11").unwrap(), "F11");
    assert_eq!(normalize_key("f12").unwrap(), "F12");
}

#[test]
fn press_key_rejects_duplicate_modifiers() {
    let error = press_key_args("a", &[KeyModifier::Ctrl, KeyModifier::Ctrl], 1).unwrap_err();
    assert_eq!(error.code, "INVALID_ARGUMENT");
    assert_eq!(error.message, "modifiers must not repeat");
    let error = press_key_args(
        "a",
        &[KeyModifier::Shift, KeyModifier::Alt, KeyModifier::Shift],
        1,
    )
    .unwrap_err();
    assert_eq!(error.code, "INVALID_ARGUMENT");
    let error = press_key_args("nope", &[KeyModifier::Alt, KeyModifier::Alt], 1).unwrap_err();
    assert!(error.message.starts_with("unsupported key 'nope'"));
}
