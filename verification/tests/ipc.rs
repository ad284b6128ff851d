use hyprharness::ipc::{
    check_dispatch_response, dispatch_request, getoption_command, json_request,
    movecursor_command, resolve_focus, trim_string, HyprlandIpc,
};
use hyprharness::models::{Point, Window, WorkspaceRef};
use std::path::PathBuf;

fn window(address: &str, focus_history_id: i64) -> Window {
    Window {
        address: address.into(),
        stable_id: String::new(),
        mapped: true,
        hidden: false,
        visible: true,
        accepts_input: true,
        at: [0, 0],
        size: [1, 1],
        workspace: WorkspaceRef::default(),
        monitor: 0,
        class: String::new(),
        title: String::new(),
        pid: 0,
        xwayland: false,
        fullscreen: 0,
        focus_history_id,
        focused: false,
    }
}

#[test]
fn builds_hyprland_requests() {
    assert_eq!(json_request("cursorpos"), "j/cursorpos");
    assert_eq!(dispatch_request("movecursor 1 2"), "dispatch movecursor 1 2");
    assert_eq!(getoption_command("ecosystem:enforce_permissions"), "getoption ecosystem:enforce_permissions");
    assert_eq!(movecursor_command(&Point { x: 1390, y: -582 }), "movecursor 1390 -582");
    assert_eq!(movecursor_command(&Point { x: 0, y: 7 }), "movecursor 0 7");
    assert_eq!(
        movecursor_command(&Point { x: i32::MIN, y: i32::MAX }),
        "movecursor -2147483648 2147483647"
    );
}

#[test]
fn accepts_only_ok_dispatch_replies() {
    assert!(check_dispatch_response(b"ok").is_ok());
    assert!(check_dispatch_response(b"  ok\n").is_ok());
    let error = check_dispatch_response(b"Invalid dispatcher\n").unwrap_err();
    assert_eq!(error.code, "IPC_UNAVAILABLE");
    assert_eq!(error.message, "Hyprland dispatcher rejected command: Invalid dispatcher");
    assert!(check_dispatch_response(b"okay").is_err());
    assert!(check_dispatch_response(b"\xffok").is_err());
}

#[test]
fn trims_unicode_white_space() {
    assert_eq!(trim_string(" \t\u{a0}ok\u{3000}\n"), "ok");
    assert_eq!(trim_string("a b"), "a b");
    assert_eq!(trim_string("   "), "");
}

#[test]
fn resolves_focus_from_active_window_or_history() {
    let windows = vec![window("0x1", 1), window("0x2", 0), window("0x3", 0)];
    let resolved = resolve_focus(windows.clone(), Some("0x3"));
    let focus: Vec<bool> = resolved.iter().map(|w| w.focused).collect();
    assert_eq!(focus, [false, false, true]);
    let resolved = resolve_focus(windows.clone(), None);
    let focus: Vec<bool> = resolved.iter().map(|w| w.focused).collect();
    assert_eq!(focus, [false, true, false]);
    let resolved = resolve_focus(vec![window("0x1", 2)], None);
    assert!(!resolved[0].focused);
}

#[test]
fn ipc_client_remembers_its_socket() {
    let ipc = HyprlandIpc::from_socket_path(PathBuf::from("/run/user/1000/hypr/x/.socket.sock"));
    assert_eq!(ipc.socket_path(), &PathBuf::from("/run/user/1000/hypr/x/.socket.sock"));
}
