use shellswitch::automatic::body;
use shellswitch::control::State;
use shellswitch::discovery::desktop;
use shellswitch::generic::markers;
use shellswitch::lifecycle::{gate_allows, normalize_widget_args};
use shellswitch::model::{compositor_hint, Backend};
use shellswitch::native::cooperative_serpantinum;
use shellswitch::wayland::registry;

const RESPAWN: &str = "if ! pgrep -f \"quickshell.*Shell.qml\" >/dev/null; then\n    quickshell -p \"$SHELL_QML_PATH\" >/dev/null 2>&1 &\n    disown\nfi";

#[test]
fn recognizes_structure_and_rejects_unknown_respawn() {
    let source = format!(
        "SCRIPTS_DIR=\"/arbitrary/quickshell\"\nSHELL_QML_PATH=\"$SCRIPTS_DIR/Shell.qml\"\n{RESPAWN}"
    );
    let path = "/arbitrary/quickshell/Shell.qml";
    let home = Some("/home/user");
    assert!(!body(&source, path, home).unwrap().contains("disown"));
    assert!(body(&source.replace("disown", "setsid unknown"), path, home).is_none());
    assert!(body(&source, "/other/Shell.qml", home).is_none());
}

#[test]
fn metadata_is_not_execution_authority() {
    let p = "/tmp/app.desktop";
    let c = desktop(
        p,
        "[Desktop Entry]\nName=Desktop shell\nExec=sh -c evil\n[Desktop Action Foo]\nExec=other",
    )
    .unwrap();
    assert!(matches!(c.backend, Backend::Review { .. }));
    assert!(c.evidence.iter().any(|s| s.contains("sh -c evil")));
}

#[test]
fn ordinary_gtk_app_is_not_detected() {
    assert!(markers(b"Gtk.ApplicationWindow").is_empty());
}

#[test]
fn optional_widget_subtarget_is_explicit() {
    let base: Vec<String> = [
        "qs",
        "ipc",
        "call",
        "main",
        "handleCommand",
        "toggle",
        "settings",
    ]
    .into_iter()
    .map(str::to_owned)
    .collect();
    let mut args = base.clone();
    normalize_widget_args("serpantinum-bridge-v1", &mut args).unwrap();
    assert_eq!(args.last().unwrap(), "");
    let mut supplied = base.clone();
    supplied.push("appearance".into());
    normalize_widget_args("serpantinum-bridge-v1", &mut supplied).unwrap();
    assert_eq!(supplied.last().unwrap(), "appearance");
    let mut missing = base;
    missing.pop();
    assert!(normalize_widget_args("serpantinum-bridge-v1", &mut missing).is_err());
}

#[test]
fn arbitrary_shell_selection_and_emergency_hold() {
    let mut s = State::new();
    s.selected = Some("unknown-shell-42".into());
    assert!(gate_allows(&s, "unknown-shell-42"));
    assert!(!gate_allows(&s, "other"));
    s.disabled.push("unknown-shell-42".into());
    assert!(!gate_allows(&s, "unknown-shell-42"));
}

#[test]
fn current_desktop_overrides_inherited_foreign_socket() {
    assert_eq!(compositor_hint("Hyprland", true, true, false), "hyprland");
    assert_eq!(compositor_hint("niri", true, true, false), "niri");
    assert_eq!(compositor_hint("", false, true, false), "hyprland");
    assert_eq!(compositor_hint("GNOME", true, false, false), "gnome");
}

#[test]
fn hook_preserves_native_body_and_requires_known_guard() {
    let original = "ensure_daemon() {\n echo native-start\n}\nensure_daemon\n";
    let result = cooperative_serpantinum(original).unwrap();
    assert!(result.contains("authorize"));
    assert!(result.contains("echo native-start"));
    assert!(cooperative_serpantinum("new_launcher() {}").is_err());
    assert!(cooperative_serpantinum("ensure_daemon() {}\nensure_daemon() {}").is_err());
}

#[test]
fn decodes_registry_and_sync() {
    let name = b"zwlr_layer_shell_v1\0";
    let padded = (name.len() + 3) & !3;
    let size = 8 + 12 + padded;
    let mut data = vec![];
    for w in [2u32, (size as u32) << 16, 1, name.len() as u32] {
        data.extend(w.to_ne_bytes());
    }
    data.extend(name);
    data.resize(16 + padded, 0);
    data.extend(4u32.to_ne_bytes());
    for w in [3u32, 12 << 16, 0] {
        data.extend(w.to_ne_bytes());
    }
    assert!(registry(&data, host_little())
        .unwrap()
        .contains(&"zwlr_layer_shell_v1".to_string()));
}

#[test]
fn malformed_packet_rejected() {
    assert!(registry(&[1, 0, 0, 0, 0, 0, 4, 0], host_little()).is_err());
}

fn host_little() -> bool {
    u32::from_ne_bytes([1, 0, 0, 0]) == 1
}
