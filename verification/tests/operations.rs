use shellswitch::audit::{
    config_touched, confirmed, daemon_reload_needed, environ_get, same_session, startup_findings,
};
use shellswitch::changes::{apply_changes, restore_changes, FileStep};
use shellswitch::control::State;
use shellswitch::dup::Duplicate;
use shellswitch::maintenance::{
    compose_into, config_candidate, dedup_by_path, enroll, enrollable, import_settings, repair,
    set_user_settings,
    stop_commands, update_config,
};
use shellswitch::model::{Backend, Candidate, Kind};
use shellswitch::ownership::{
    text, Change, CommandGate, Disk, FileRead, Lifecycle, OwnedFile, Policy, ProcessMatch,
    Snapshot,
};
use shellswitch::process::{Identity, Process};

fn file(s: &str) -> Snapshot {
    text(s, 0o644)
}

fn disk(entries: &[(&str, Snapshot)]) -> Disk {
    Disk {
        reads: entries
            .iter()
            .map(|(p, s)| FileRead {
                path: p.to_string(),
                result: Ok(s.duplicate()),
            })
            .collect(),
    }
}

fn change(p: &str, before: Snapshot, after: Snapshot) -> Change {
    Change {
        path: p.to_string(),
        before,
        after,
    }
}

fn content(steps: &[FileStep], d: &Disk, p: &str) -> Option<Vec<u8>> {
    for s in steps.iter().rev() {
        if let FileStep::Write { path, content } = s {
            if path == p {
                return match content {
                    Snapshot::File { data, .. } => Some(data.clone()),
                    _ => None,
                };
            }
        }
    }
    match d.reads.iter().find(|r| r.path == p) {
        Some(FileRead {
            result: Ok(Snapshot::File { data, .. }),
            ..
        }) => Some(data.clone()),
        _ => None,
    }
}

fn candidate(id: &str, name: &str) -> Candidate {
    Candidate {
        id: id.into(),
        name: name.into(),
        kind: Kind::Shell,
        framework: "Quickshell".into(),
        source: format!("/shells/{id}/shell.qml"),
        evidence: vec![],
        protocols: vec![],
        compositors: vec![],
        backend: Backend::Process {
            argv: vec!["/usr/bin/qs".into(), "--path".into(), format!("/shells/{id}")],
            cwd: "/".into(),
        },
        required_globals: vec![],
        lifecycle: None,
        declared: false,
        running_pids: vec![],
    }
}

fn owned(p: &str, expected: &str) -> OwnedFile {
    OwnedFile {
        path: p.into(),
        original: Snapshot::Absent,
        expected: file(expected),
        owner: "test".into(),
    }
}

#[test]
fn apply_writes_planned_content_in_order() {
    let d = disk(&[("/a", file("one")), ("/b", file("two"))]);
    let cs = vec![
        change("/a", file("one"), file("uno")),
        change("/b", file("two"), file("dos")),
    ];
    let (steps, r) = apply_changes(&cs, &d);
    assert!(r.is_ok());
    assert_eq!(steps.len(), 2);
    assert_eq!(content(&steps, &d, "/a").unwrap(), b"uno");
    assert_eq!(content(&steps, &d, "/b").unwrap(), b"dos");
}

#[test]
fn apply_stops_at_external_change() {
    let d = disk(&[("/a", file("one")), ("/b", file("edited"))]);
    let cs = vec![
        change("/a", file("one"), file("uno")),
        change("/b", file("two"), file("dos")),
        change("/a", file("uno"), file("eins")),
    ];
    let (steps, r) = apply_changes(&cs, &d);
    assert_eq!(r.unwrap_err(), "External change at /b; run doctor / repair");
    assert_eq!(steps.len(), 1);
}

#[test]
fn apply_sees_its_own_earlier_writes() {
    let d = disk(&[("/a", file("one"))]);
    let cs = vec![
        change("/a", file("one"), file("two")),
        change("/a", file("two"), file("three")),
    ];
    let (steps, r) = apply_changes(&cs, &d);
    assert!(r.is_ok());
    assert_eq!(content(&steps, &d, "/a").unwrap(), b"three");
}

#[test]
fn apply_reports_unobserved_path() {
    let d = disk(&[]);
    let cs = vec![change("/x", file("a"), file("b"))];
    let (steps, r) = apply_changes(&cs, &d);
    assert_eq!(r.unwrap_err(), "Path was not observed: /x");
    assert!(steps.is_empty());
}

#[test]
fn restore_undoes_a_clean_apply() {
    let before = disk(&[("/a", file("one")), ("/b", file("two"))]);
    let cs = vec![
        change("/a", file("one"), file("uno")),
        change("/b", file("two"), file("dos")),
        change("/a", file("uno"), file("eins")),
    ];
    let (applied, r) = apply_changes(&cs, &before);
    assert!(r.is_ok());
    let after = disk(&[
        ("/a", Snapshot::File { data: content(&applied, &before, "/a").unwrap(), mode: 0o644 }),
        ("/b", Snapshot::File { data: content(&applied, &before, "/b").unwrap(), mode: 0o644 }),
    ]);
    let (steps, r) = restore_changes(&cs, &after);
    assert!(r.is_ok());
    assert!(steps.iter().all(|s| matches!(s, FileStep::Write { .. })));
    assert_eq!(content(&steps, &after, "/a").unwrap(), b"one");
    assert_eq!(content(&steps, &after, "/b").unwrap(), b"two");
}

#[test]
fn restore_archives_foreign_content_before_overwriting() {
    let d = disk(&[("/a", file("someone else"))]);
    let cs = vec![change("/a", file("one"), file("uno"))];
    let (steps, r) = restore_changes(&cs, &d);
    assert!(r.is_ok());
    assert_eq!(steps.len(), 2);
    assert!(matches!(&steps[0], FileStep::Archive { path } if path == "/a"));
    assert!(matches!(&steps[1], FileStep::Write { path, .. } if path == "/a"));
}

#[test]
fn restore_leaves_untouched_paths_alone() {
    let d = disk(&[("/a", file("one"))]);
    let cs = vec![change("/a", file("one"), file("uno"))];
    let (steps, r) = restore_changes(&cs, &d);
    assert!(r.is_ok());
    assert!(steps.is_empty());
}

#[test]
fn enroll_refusals_and_snapshot() {
    let mut s = State::new();
    let r = enroll(
        &mut s,
        "/cfg/config.kdl".into(),
        Snapshot::Absent,
        "/state/user".into(),
        vec![],
        Policy::PreserveUser,
        true,
    );
    assert_eq!(
        r.unwrap_err(),
        "Expected a regular configuration file, not a symlink or missing path"
    );
    assert!(s.config.is_none());
    assert!(enrollable(&s).is_ok());
    enroll(
        &mut s,
        "/cfg/config.kdl".into(),
        file("layout {}"),
        "/state/user".into(),
        vec![],
        Policy::PreserveUser,
        true,
    )
    .unwrap();
    let c = s.config.as_ref().unwrap();
    assert!(matches!(&c.expected, Snapshot::File { data, .. } if data == b"layout {}"));
    assert!(matches!(&c.original, Snapshot::File { data, .. } if data == b"layout {}"));
    assert_eq!(
        s.last_event,
        "Niri config enrolled and snapshotted; no entrypoint or shell was changed"
    );
    assert_eq!(
        enrollable(&s).unwrap_err(),
        "Configuration already enrolled; use repair or config-update"
    );
}

fn enrolled_state() -> State {
    let mut s = State::new();
    enroll(
        &mut s,
        "/cfg/config.kdl".into(),
        file("old"),
        "/state/user".into(),
        vec![owned("/state/user/main.kdl", "binds {}")],
        Policy::PreserveUser,
        false,
    )
    .unwrap();
    s
}

#[test]
fn config_update_checks_and_composes() {
    let mut s = State::new();
    assert_eq!(
        update_config(&s, &disk(&[])).unwrap_err(),
        "Enroll a configuration first"
    );
    s = enrolled_state();
    let d = disk(&[("/cfg/config.kdl", file("old")), ("/state/user/main.kdl", file("binds {}"))]);
    let mut cfg = update_config(&s, &d).unwrap();
    set_user_settings(&mut cfg, "/state/new".into(), vec![], Policy::ShellWins);
    assert_eq!(cfg.user_root, "/state/new");
    assert_eq!(cfg.policy, Policy::ShellWins);
    let ch = compose_into(&mut cfg, file("new"), vec![], Some("alpha".into()), file("old"));
    assert_eq!(ch.path, "/cfg/config.kdl");
    assert!(matches!(&ch.after, Snapshot::File { data, .. } if data == b"new"));
    assert_eq!(cfg.owner.as_deref(), Some("alpha"));
    let mut imported = enrolled_state();
    imported.selected = Some("alpha".into());
    import_settings(&mut imported, cfg.clone());
    let now = imported.config.as_ref().unwrap();
    assert_eq!((now.user_root.as_str(), now.policy), ("/state/new", Policy::ShellWins));
    assert_eq!(now.target, "/cfg/config.kdl");
    assert_eq!(imported.selected.as_deref(), Some("alpha"));
    assert_eq!(
        imported.last_event,
        "User settings imported with explicit precedence; shell selection unchanged"
    );
    let drifted = disk(&[("/cfg/config.kdl", file("edited")), ("/state/user/main.kdl", file("binds {}"))]);
    assert_eq!(
        update_config(&s, &drifted).unwrap_err(),
        "Niri configuration ownership drift at /cfg/config.kdl; run doctor, then repair --yes"
    );
}

#[test]
fn composing_shell_prefers_selected_running_instance() {
    let mut s = State::new();
    assert!(config_candidate(&s).is_none());
    s.installed.push(candidate("alpha", "Alpha"));
    s.selected = Some("alpha".into());
    assert_eq!(config_candidate(&s).unwrap().name, "Alpha");
}

#[test]
fn repair_restores_drift_once_per_path() {
    let mut s = enrolled_state();
    s.protections = vec![owned("/bin/alpha", "gate v1"), owned("/bin/alpha", "gate v2")];
    let d = disk(&[
        ("/bin/alpha", file("gate v1")),
        ("/cfg/config.kdl", file("old")),
        ("/state/user/main.kdl", file("tampered")),
    ]);
    let changes = repair(&s, &d).unwrap();
    assert_eq!(changes.len(), 2);
    assert_eq!(changes[0].path, "/bin/alpha");
    assert!(matches!(&changes[0].after, Snapshot::File { data, .. } if data == b"gate v2"));
    assert_eq!(changes[1].path, "/state/user/main.kdl");
    let (steps, r) = apply_changes(&changes, &d);
    assert!(r.is_ok());
    assert_eq!(content(&steps, &d, "/state/user/main.kdl").unwrap(), b"binds {}");
    let dedup = dedup_by_path(&s.protections);
    assert_eq!(dedup.len(), 1);
}

#[test]
fn repair_refuses_pending_switch() {
    let mut s = enrolled_state();
    let c = candidate("alpha", "Alpha");
    shellswitch::control::begin(&mut s, c, "t".into(), 1, vec![], vec![], None);
    assert_eq!(
        repair(&s, &disk(&[])).unwrap_err(),
        "Recover the pending switch before repairing drift"
    );
}

#[test]
fn stopping_commands_hands_them_out() {
    let mut s = State::new();
    let r = shellswitch::control::Running {
        candidate: candidate("alpha", "Alpha"),
        process: None,
        owned_group: true,
        lease: "l".into(),
    };
    shellswitch::lifecycle::record_command(&mut s, r);
    let out = stop_commands(&mut s);
    assert_eq!(out.len(), 1);
    assert!(s.commands.is_empty());
}

#[test]
fn confirmation_is_required() {
    assert!(confirmed(true).is_ok());
    assert_eq!(
        confirmed(false).unwrap_err(),
        "Review with plan first, then pass --yes to authorize this operation"
    );
}

fn with_lifecycle(mut c: Candidate, services: &[&str], gate: &str, prefix: &[&str]) -> Candidate {
    let mut l = Lifecycle::empty("fixture".into());
    l.services = services.iter().map(|s| s.to_string()).collect();
    l.commands = vec![CommandGate {
        path: gate.into(),
        inline_body: None,
        inline_original: None,
        native_argv: vec![],
        blocked_prefixes: vec![],
        routes: vec![],
    }];
    l.processes = vec![ProcessMatch {
        argv_prefix: prefix.iter().map(|s| s.to_string()).collect(),
        kill_without_cleanup: false,
    }];
    c.lifecycle = Some(l);
    c
}

#[test]
fn daemon_reload_and_config_touch() {
    let mut s = enrolled_state();
    assert!(!daemon_reload_needed(&s));
    s.installed.push(with_lifecycle(candidate("a", "A"), &["a.service"], "/bin/a", &["/usr/bin/a"]));
    assert!(daemon_reload_needed(&s));
    assert!(config_touched(&s, &vec![change("/state/user/main.kdl", file("x"), file("y"))]));
    assert!(config_touched(&s, &vec![change("/cfg/config.kdl", file("x"), file("y"))]));
    assert!(!config_touched(&s, &vec![change("/bin/a", file("x"), file("y"))]));
}

#[test]
fn session_membership_from_environment() {
    let env = vec![
        "WAYLAND_DISPLAY=wayland-1".to_string(),
        "XDG_RUNTIME_DIR=/run/user/1000".to_string(),
    ];
    assert_eq!(environ_get(&env, "WAYLAND_DISPLAY").as_deref(), Some("wayland-1"));
    assert_eq!(environ_get(&env, "WAYLAND"), None);
    let ours = Some("wayland-1".to_string());
    let rt = Some("/run/user/1000".to_string());
    assert!(same_session("WAYLAND_DISPLAY", &ours, &rt, &None, &Some(env.clone())));
    assert!(!same_session("WAYLAND_DISPLAY", &Some("wayland-2".into()), &rt, &None, &Some(env.clone())));
    assert!(!same_session("WAYLAND_DISPLAY", &ours, &Some("/run/user/1".into()), &None, &Some(env)));
    assert!(!same_session("WAYLAND_DISPLAY", &ours, &rt, &None, &None));
    assert!(same_session("DISPLAY", &None, &None, &Some("3".into()), &Some(vec![])));
}

#[test]
fn startup_audit_reports_uncommented_references_by_line() {
    let mut s = State::new();
    s.installed.push(with_lifecycle(
        candidate("a", "A"),
        &[],
        "/home/u/.local/bin/alpha-cli",
        &["/usr/bin/qs", "/opt/alpha/shell.qml"],
    ));
    s.installed.push(with_lifecycle(candidate("b", "B"), &[], "/bin/beta", &["/usr/bin/beta"]));
    let text = "# alpha-cli\nexec beta --daemon\n  // alpha-cli\nspawn alpha-cli\nqs -p /opt/alpha/shell.qml\n";
    let f = startup_findings(&s, "/home/u/.config/niri/config.kdl", text);
    let lines: Vec<(usize, &str)> = f.iter().map(|x| (x.line, x.shell.as_str())).collect();
    assert_eq!(lines, vec![(2, "b"), (4, "a"), (5, "a")]);
    assert!(f[0].protection.starts_with("external reference"));
    s.protections.push(owned("/home/u/.config/niri/config.kdl", ""));
    let f = startup_findings(&s, "/home/u/.config/niri/config.kdl", text);
    assert_eq!(f[0].protection, "owned startup file; doctor checks drift");
}

#[test]
fn identities_are_plain_values() {
    let p = Process {
        identity: Identity { pid: 7, start: 9, boot: "b".into() },
        argv: vec![],
        cwd: "/".into(),
        group: 7,
        state: 'S',
    };
    assert_eq!(p.identity.pid, 7);
}
