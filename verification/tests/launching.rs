use shellswitch::catalog::{find_candidate, merged};
use shellswitch::control::State;
use shellswitch::discovery::{file_budget_note, skipped_entry, walk_enters};
use shellswitch::kdl::{freeze_admits, sections_admits};
use shellswitch::generic::record_finding;
use shellswitch::launch::{guarded, EnvVar, UnitFacts};
use shellswitch::maintenance::protect;
use shellswitch::model::{Backend, Candidate, Kind, Session};
use shellswitch::ownership::{text, Disk, FileRead, OwnedFile, Snapshot};
use shellswitch::procfs::{parse_cmdline, parse_stat, StatFields};
use shellswitch::wayland::registry;

fn candidate(id: &str, name: &str, backend: Backend) -> Candidate {
    Candidate {
        id: id.into(),
        name: name.into(),
        kind: Kind::Shell,
        framework: "Quickshell".into(),
        source: format!("/shells/{id}/shell.qml"),
        evidence: vec![],
        protocols: vec![],
        compositors: vec![],
        backend,
        required_globals: vec![],
        lifecycle: None,
        declared: true,
        running_pids: vec![],
    }
}

fn process(argv: &[&str]) -> Backend {
    Backend::Process {
        argv: argv.iter().map(|s| s.to_string()).collect(),
        cwd: "/".into(),
    }
}

fn unit(name: &str) -> Backend {
    Backend::Systemd { unit: name.into() }
}

fn no_unit() -> UnitFacts {
    UnitFacts {
        environment: Err("unused".into()),
        details: Err("unused".into()),
    }
}

fn var(key: &str, value: Option<&str>) -> EnvVar {
    EnvVar {
        key: key.into(),
        value: value.map(|v| v.to_string()),
    }
}

fn facts(environment: &str, details: &str) -> UnitFacts {
    UnitFacts {
        environment: Ok(environment.into()),
        details: Ok(details.into()),
    }
}

#[test]
fn guard_accepts_an_ordinary_shell_process() {
    let c = candidate("a", "A", process(&["/usr/bin/qs", "-p", "/x"]));
    assert!(guarded(&c, true, true, &no_unit(), &vec![]).is_ok());
}

#[test]
fn guard_refuses_sessions_and_broken_launches() {
    let mut s = candidate("a", "A", process(&["/usr/bin/qs"]));
    s.kind = Kind::Session;
    assert_eq!(
        guarded(&s, true, true, &no_unit(), &vec![]).unwrap_err(),
        "Cannot replace a desktop session in place"
    );
    let empty = candidate("a", "A", process(&[]));
    assert_eq!(guarded(&empty, true, true, &no_unit(), &vec![]).unwrap_err(), "Empty launch argv");
    let c = candidate("a", "A", process(&["/usr/bin/qs"]));
    assert_eq!(
        guarded(&c, false, true, &no_unit(), &vec![]).unwrap_err(),
        "Working directory does not exist"
    );
    assert_eq!(
        guarded(&c, true, false, &no_unit(), &vec![]).unwrap_err(),
        "Executable unavailable: /usr/bin/qs"
    );
}

#[test]
fn guard_refuses_compositor_programs_by_lowercased_name() {
    let c = candidate("a", "A", process(&["/usr/bin/Hyprland"]));
    assert_eq!(
        guarded(&c, true, true, &no_unit(), &vec![]).unwrap_err(),
        "hyprland is a compositor/session process, not a replaceable shell layer"
    );
}

#[test]
fn guard_checks_the_service_manager_environment() {
    let c = candidate("a", "A", unit("bar.service"));
    let vars = vec![
        var("WAYLAND_DISPLAY", Some("wayland-1")),
        var("DISPLAY", None),
        var("XDG_RUNTIME_DIR", Some("/run/user/1000")),
    ];
    let env = "WAYLAND_DISPLAY=wayland-1\nXDG_RUNTIME_DIR=/run/user/1000\n";
    let ok = "ExecStart={ path=/usr/bin/qs ; argv[]=/usr/bin/qs }\nPartOf=\nPropagatesStopTo=\nConflicts=\n";
    assert!(guarded(&c, false, false, &facts(env, ok), &vars).is_ok());
    let other = "WAYLAND_DISPLAY=wayland-0\nXDG_RUNTIME_DIR=/run/user/1000\n";
    assert_eq!(
        guarded(&c, true, true, &facts(other, ok), &vars).unwrap_err(),
        "User service manager WAYLAND_DISPLAY differs from this graphical session. Review its environment before switching; Shellswitch will not import it globally."
    );
    let failed = UnitFacts {
        environment: Err("systemctl timed out".into()),
        details: Ok(ok.into()),
    };
    assert_eq!(guarded(&c, true, true, &failed, &vars).unwrap_err(), "systemctl timed out");
}

#[test]
fn guard_refuses_units_with_dangerous_dependencies() {
    let c = candidate("a", "A", unit("bar.service"));
    let env = "";
    assert_eq!(
        guarded(&c, true, true, &facts(env, "PropagatesStopTo=graphical.target\nConflicts=\n"), &vec![])
            .unwrap_err(),
        "Unit propagates stop to other units; refusing shell-only control"
    );
    assert_eq!(
        guarded(&c, true, true, &facts(env, "PropagatesStopTo=\nConflicts=other.service\n"), &vec![])
            .unwrap_err(),
        "Unit has Conflicts= dependencies; review before managing it"
    );
    assert_eq!(
        guarded(&c, true, true, &facts(env, "ExecStart={ path=/usr/bin/niri ; argv[]=/usr/bin/niri --session }\n"), &vec![])
            .unwrap_err(),
        "Unit runs a compositor/session executable"
    );
}

#[test]
fn catalog_prefers_installed_and_orders_by_name() {
    let scanned = vec![
        candidate("b", "Beta", process(&["/b"])),
        candidate("a", "Alpha", process(&["/a"])),
    ];
    let mut inst = candidate("b", "Beta", process(&["/installed/b"]));
    inst.framework = "Installed".into();
    let all = merged(&scanned, &vec![inst]);
    assert_eq!(all.len(), 2);
    assert_eq!(all[0].name, "Alpha");
    assert_eq!(all[1].name, "Beta");
    assert_eq!(all[1].framework, "Installed");
}

#[test]
fn catalog_finds_by_id_or_name() {
    let cs = vec![
        candidate("id-1", "Alpha", process(&["/a"])),
        candidate("id-2", "Beta", process(&["/b"])),
        candidate("id-3", "Beta", process(&["/c"])),
    ];
    assert_eq!(find_candidate(&cs, "id-1").unwrap(), 0);
    assert_eq!(find_candidate(&cs, "Alpha").unwrap(), 0);
    assert_eq!(find_candidate(&cs, "id-3").unwrap(), 2);
    assert_eq!(
        find_candidate(&cs, "Beta").unwrap_err(),
        "Ambiguous name; use the full candidate ID"
    );
    assert_eq!(
        find_candidate(&cs, "Gamma").unwrap_err(),
        "No candidate \"Gamma\"; run scan"
    );
}

#[test]
fn stat_line_fields() {
    let line = "1234 (qs (bar)) S 1 1200 1200 0 -1 4194560 100 0 0 0 5 3 0 0 20 0 4 0 987654 1000 50";
    assert_eq!(
        parse_stat(line),
        Some(StatFields {
            state: 'S',
            group: 1200,
            start: 987654
        })
    );
    assert_eq!(parse_stat("1234 (qs) S 1 2"), None);
    assert_eq!(parse_stat("no parenthesis"), None);
    assert_eq!(parse_stat("1 (x) S 1 x 1 0 -1 0 0 0 0 0 0 0 0 0 20 0 1 0 5"), None);
}

#[test]
fn cmdline_arguments_are_split_on_nul() {
    assert_eq!(
        parse_cmdline(b"/usr/bin/qs\0-p\0\0/shells/a\0"),
        vec!["/usr/bin/qs".to_string(), "-p".to_string(), "/shells/a".to_string()]
    );
    assert!(parse_cmdline(b"").is_empty());
    assert_eq!(parse_cmdline(b"a\xffb"), vec!["a\u{fffd}b".to_string()]);
}

#[test]
fn session_description_from_environment() {
    let s = Session::detect(
        "wayland-1",
        ":0",
        "niri",
        "niri".into(),
        Some(Ok(vec!["wl_shm".into(), "zwlr_layer_shell_v1".into()])),
    );
    assert_eq!(s.protocol, "wayland");
    assert_eq!(s.compositor, "niri");
    assert_eq!(s.globals.as_ref().unwrap().len(), 2);
    assert_eq!(
        s.evidence,
        vec![
            "XDG_CURRENT_DESKTOP=niri".to_string(),
            "Compositor routing: niri".to_string(),
            "Wayland registry: 2 advertised globals".to_string(),
        ]
    );
    let x = Session::detect("", ":0", "", "".into(), None);
    assert_eq!(x.protocol, "x11");
    assert_eq!(x.compositor, "unknown");
    assert!(x.globals.is_none());
    let failed = Session::detect("wayland-1", "", "", "sway".into(), Some(Err("no socket".into())));
    assert!(failed.globals.is_none());
    assert_eq!(failed.evidence[2], "Wayland capability probe unavailable: no socket");
    assert_eq!(Session::detect("", "", "", "".into(), None).protocol, "unknown");
}

#[test]
fn protections_need_no_pending_switch_and_no_drift() {
    let mut s = State::new();
    s.protections = vec![OwnedFile {
        path: "/bin/alpha".into(),
        original: Snapshot::Absent,
        expected: text("gate", 0o755),
        owner: "protection".into(),
    }];
    let same = Disk {
        reads: vec![FileRead {
            path: "/bin/alpha".into(),
            result: Ok(text("gate", 0o755)),
        }],
    };
    assert!(protect(&s, &same).is_ok());
    let edited = Disk {
        reads: vec![FileRead {
            path: "/bin/alpha".into(),
            result: Ok(text("edited", 0o755)),
        }],
    };
    assert_eq!(
        protect(&s, &edited).unwrap_err(),
        "Ownership drift at /bin/alpha; run doctor / repair"
    );
    let c = candidate("alpha", "Alpha", process(&["/a"]));
    shellswitch::control::begin(&mut s, c, "t".into(), 1, vec![], vec![], None);
    assert_eq!(protect(&s, &same).unwrap_err(), "Pending transaction; recover first");
}

#[test]
fn scan_budget_note() {
    assert_eq!(file_budget_note(29999), None);
    assert_eq!(
        file_budget_note(30000).unwrap(),
        "Scan reached 30000-file budget; scan narrower --root paths"
    );
}

#[test]
fn registry_names_must_be_utf8() {
    let name = b"zw\xfflayer\0";
    let padded = (name.len() + 3) & !3;
    let size = 8 + 12 + padded;
    let mut data = vec![];
    for w in [2u32, (size as u32) << 16, 1, name.len() as u32] {
        data.extend(w.to_le_bytes());
    }
    data.extend(name);
    data.resize(16 + padded, 0);
    data.extend(4u32.to_le_bytes());
    for w in [3u32, 12 << 16, 0] {
        data.extend(w.to_le_bytes());
    }
    assert!(registry(&data, true).is_err());
    let valid: Vec<u8> = data
        .iter()
        .map(|b| if *b == 0xff { b'_' } else { *b })
        .collect();
    assert_eq!(registry(&valid, true).unwrap(), vec!["zw_layer".to_string()]);
}

fn wayland_session(globals: Option<&[&str]>) -> Session {
    Session {
        protocol: "wayland".into(),
        compositor: "niri".into(),
        globals: globals.map(|g| g.iter().map(|s| s.to_string()).collect()),
        evidence: vec![],
    }
}

#[test]
fn compatibility_refusals_in_order() {
    let s = wayland_session(Some(&["wl_shm", "zwlr_layer_shell_v1"]));
    let mut c = candidate("a", "A", process(&["/usr/bin/qs"]));
    assert!(s.compatibility(&c).is_ok());
    c.compositors = vec!["impossible-wm".into()];
    assert_eq!(
        s.compatibility(&c).unwrap_err(),
        "Requires {\"impossible-wm\"}; current compositor is niri"
    );
    c.compositors = vec![];
    c.protocols = vec!["x11".into()];
    assert_eq!(
        s.compatibility(&c).unwrap_err(),
        "Requires {\"x11\"}; current session is wayland"
    );
    c.protocols = vec![];
    c.required_globals = vec!["zwlr_layer_shell_v1".into(), "ext_session_lock_manager_v1".into()];
    assert_eq!(
        s.compatibility(&c).unwrap_err(),
        "Compositor is missing required globals: [\"ext_session_lock_manager_v1\"]"
    );
    assert_eq!(
        wayland_session(None).compatibility(&c).unwrap_err(),
        "Required Wayland capabilities could not be verified; run inside the host graphical session"
    );
    let mut unknown = wayland_session(None);
    unknown.protocol = "unknown".into();
    assert_eq!(
        unknown.compatibility(&candidate("b", "B", process(&["/b"]))).unwrap_err(),
        "No graphical session detected"
    );
    let review = candidate(
        "r",
        "R",
        Backend::Review {
            reason: "Needs a manifest".into(),
        },
    );
    assert_eq!(s.compatibility(&review).unwrap_err(), "Needs a manifest");
    let mut full = candidate("f", "Full Session", process(&["/usr/bin/niri"]));
    full.kind = Kind::Session;
    assert_eq!(
        s.compatibility(&full).unwrap_err(),
        "Full desktop session: select it at your login manager after logging out"
    );
}

#[test]
fn evidence_scan_skips_files_without_shell_apis() {
    let mut fs = vec![];
    record_finding(&mut fs, "/t/shell.qml", "/t/shell.qml", b"import QtQuick\nWindow {}");
    assert!(fs.is_empty());
    record_finding(&mut fs, "/usr/bin/tool", "/usr/bin/tool", b"\x7fELF plain binary");
    assert!(fs.is_empty());
    record_finding(
        &mut fs,
        "/t/unknown.py",
        "/t/unknown.py",
        b"from gi.repository import GtkLayerShell\nGtkLayerShell.init_for_window(win)",
    );
    assert_eq!(fs.len(), 1);
    assert_eq!(fs[0].kind, Kind::Candidate);
    assert!(fs[0].protocols.contains(&"wayland".to_string()));
}

#[test]
fn include_walks_stop_at_cycles_and_limits() {
    let stack = vec!["/cfg/a.kdl".to_string()];
    assert!(freeze_admits(0, &stack, "/cfg/b.kdl").is_ok());
    assert_eq!(
        freeze_admits(0, &stack, "/cfg/a.kdl").unwrap_err(),
        "Config include cycle at /cfg/a.kdl"
    );
    assert_eq!(
        freeze_admits(127, &stack, "/cfg/b.kdl").unwrap_err(),
        "Config include limit reached"
    );
    assert_eq!(sections_admits(&stack, "/cfg/a.kdl").unwrap(), false);
    assert_eq!(sections_admits(&stack, "/cfg/b.kdl").unwrap(), true);
    let many: Vec<String> = (0..128).map(|i| format!("/f{i}")).collect();
    assert_eq!(
        sections_admits(&many, "/x").unwrap_err(),
        "Too many configuration includes"
    );
}

#[test]
fn scan_walk_limits_and_skipped_entries() {
    assert!(skipped_entry(".git"));
    assert!(skipped_entry("node_modules"));
    assert!(!skipped_entry("quickshell"));
    assert!(walk_enters(0, 12));
    assert!(!walk_enters(0, 13));
    assert!(!walk_enters(30000, 0));
}

#[test]
fn registry_words_follow_the_named_byte_order() {
    let name = b"wl_shm\0";
    let padded = (name.len() + 3) & !3;
    let size = 8 + 12 + padded;
    let mut data = vec![];
    for w in [2u32, (size as u32) << 16, 1, name.len() as u32] {
        data.extend(w.to_be_bytes());
    }
    data.extend(name);
    data.resize(16 + padded, 0);
    data.extend(4u32.to_be_bytes());
    for w in [3u32, 12 << 16, 0] {
        data.extend(w.to_be_bytes());
    }
    assert_eq!(registry(&data, false).unwrap(), vec!["wl_shm".to_string()]);
    assert!(registry(&data, true).is_err());
}
