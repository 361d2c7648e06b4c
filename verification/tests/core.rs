use shellswitch::adapters::bridge_entry;
use shellswitch::compose::compose;
use shellswitch::control::{
    begin, keep, must_roll_back, pending_launch, plan, record_launch, revert, set_phase,
    start_trial, Phase, Running, State,
};
use shellswitch::install::{payload_destination, ready_to_install, stage};
use shellswitch::kdl::{frozen_text, include_path, include_refs, nodes, section_refs, tokens};
use shellswitch::lifecycle::{
    authorize, disable, gate, gate_allows, reconcile_legacy, release, GateAction,
};
use shellswitch::model::{stable_id, Backend, Candidate, Kind, Session};
use shellswitch::ownership::{
    text, verify, Config, Disk, FileRead, Lifecycle, OwnedFile, Policy, Route, Snapshot,
    CommandGate, ProcessMatch,
};
use shellswitch::wayland::registry_request;

fn file(s: &str) -> Snapshot {
    text(s, 0o644)
}

fn shell(id: &str) -> Candidate {
    Candidate {
        id: id.into(),
        name: format!("Shell {id}"),
        kind: Kind::Shell,
        framework: "Quickshell".into(),
        source: format!("/shells/{id}/shell.qml"),
        evidence: vec![],
        protocols: vec![],
        compositors: vec![],
        backend: Backend::Process {
            argv: vec!["/usr/bin/qs".into(), "-p".into(), format!("/shells/{id}")],
            cwd: "/".into(),
        },
        required_globals: vec![],
        lifecycle: Some(Lifecycle::empty("fixture".into())),
        declared: true,
        running_pids: vec![],
    }
}

fn config(user_root: &str, policy: Policy) -> Config {
    Config {
        target: "/cfg/config.kdl".into(),
        live_reload: false,
        original: file("old"),
        expected: file("old"),
        user_root: user_root.into(),
        user_files: vec![],
        policy,
        owner: None,
        dependencies: vec![],
    }
}

fn session() -> Session {
    Session {
        protocol: "wayland".into(),
        compositor: "niri".into(),
        globals: None,
        evidence: vec![],
    }
}

fn empty_disk() -> Disk {
    Disk { reads: vec![] }
}

fn running(c: Candidate, lease: &str) -> Running {
    Running {
        candidate: c,
        process: None,
        owned_group: true,
        lease: lease.into(),
    }
}

#[test]
fn kdl_tokens_strings_and_comments() {
    let t = tokens("layout { gaps 3; } // c\ninclude \"a\\\"b\"").unwrap();
    let values: Vec<&str> = t.iter().map(|x| x.value.as_str()).collect();
    assert_eq!(values, vec!["layout", "{", "gaps", "3", ";", "}", "\n", "include", "a\"b"]);
    assert!(t[8].string);
    assert_eq!((t[0].start, t[0].end), (0, 6));
    assert!(tokens("x \"open").unwrap_err().starts_with("Unclosed KDL string at"));
    assert_eq!(tokens("/* never closed").unwrap_err(), "Unclosed KDL comment");
    assert_eq!(
        tokens("x \"\"\"multi\"\"\"").unwrap_err(),
        "Multiline KDL strings need manual flattening before enrollment"
    );
}

#[test]
fn kdl_nodes_sections_and_includes() {
    let n = nodes("a 1\nb { c; }\n\n").unwrap();
    assert_eq!(n.len(), 2);
    assert_eq!(nodes("a }").unwrap_err(), "Unbalanced KDL braces");
    let (names, incs) = section_refs("layout { gaps 3; }\n/- binds {}\ninclude \"b.kdl\"\nbinds {}\n").unwrap();
    assert_eq!(names, vec!["layout".to_string(), "binds".to_string()]);
    assert_eq!(incs, vec!["b.kdl".to_string()]);
    let refs = include_refs("include \"x.kdl\"\nlayout {}\n").unwrap();
    assert_eq!(refs.len(), 1);
    assert_eq!((refs[0].value.as_str(), refs[0].start, refs[0].end), ("x.kdl", 8, 15));
    assert_eq!(
        include_refs("include x\n").unwrap_err(),
        "Include needs a quoted file path; unsupported syntax must be flattened explicitly"
    );
    let frozen = frozen_text("include \"x.kdl\"\nlayout {}\n", &vec!["/state/1.kdl".into()]).unwrap();
    assert_eq!(frozen, "include \"/state/1.kdl\"\nlayout {}\n");
    assert_eq!(include_path("~/n.kdl", Some("/home/u"), "/etc").unwrap(), "/home/u/n.kdl");
    assert_eq!(include_path("n.kdl", None, "/etc/niri").unwrap(), "/etc/niri/n.kdl");
    assert_eq!(include_path("~/n.kdl", None, "/etc").unwrap_err(), "HOME missing");
}

#[test]
fn compose_orders_includes_by_policy() {
    let cfg = config("/state/user/a.kdl", Policy::PreserveUser);
    let (snap, deps) = compose(&cfg, None, &vec![], &vec![], "/usr/bin/shellswitch", "/state", &empty_disk()).unwrap();
    let expected = "// Shellswitch owns this entrypoint. Edit your user baseline, then use config-update explicitly.\ninclude \"/state/user/a.kdl\"\nspawn-at-startup \"/usr/bin/shellswitch\" \"--state-dir\" \"/state\" \"resume\"\n";
    assert!(matches!(&snap, Snapshot::File { data, mode } if data == expected.as_bytes() && *mode == 0o600));
    assert!(deps.is_empty());
    let mut c = shell("a");
    c.lifecycle.as_mut().unwrap().niri_fragment = Some("/frag.kdl".into());
    let (snap, _) = compose(&cfg, Some(&c), &vec!["binds".into()], &vec!["binds".into()], "/x", "/s", &empty_disk()).unwrap();
    let body = match snap {
        Snapshot::File { data, .. } => String::from_utf8(data).unwrap(),
        _ => unreachable!(),
    };
    assert!(body.contains("include \"/frag.kdl\"\ninclude \"/state/user/a.kdl\"\n"));
    let wins = config("/state/user/a.kdl", Policy::ShellWins);
    let (snap, _) = compose(&wins, Some(&c), &vec![], &vec![], "/x", "/s", &empty_disk()).unwrap();
    let body = match snap {
        Snapshot::File { data, .. } => String::from_utf8(data).unwrap(),
        _ => unreachable!(),
    };
    assert!(body.contains("include \"/state/user/a.kdl\"\ninclude \"/frag.kdl\"\n"));
    let strict = config("/state/user/a.kdl", Policy::AbortConflicts);
    assert_eq!(
        compose(&strict, Some(&c), &vec!["binds".into(), "layout".into()], &vec!["layout".into()], "/x", "/s", &empty_disk()).unwrap_err(),
        "Config sections conflict: [\"layout\"]. Choose preserve-user or shell-wins explicitly; no bindings were replaced"
    );
    assert_eq!(
        compose(&cfg, Some(&c), &vec!["spawn-at-startup".into()], &vec![], "/x", "/s", &empty_disk()).unwrap_err(),
        "Shell fragments must not own autostart; use the Shellswitch resume path"
    );
}

#[test]
fn json_quote_escapes_like_serde() {
    let t = "include \"x.kdl\"\n";
    assert_eq!(
        frozen_text(t, &vec!["/a\"b\\c\nd".into()]).unwrap(),
        "include \"/a\\\"b\\\\c\\nd\"\n"
    );
    assert_eq!(frozen_text(t, &vec!["/\u{1}".into()]).unwrap(), "include \"/\\u0001\"\n");
}

#[test]
fn stable_ids_are_fnv1a() {
    assert_eq!(stable_id(""), "cbf29ce484222325");
    assert_eq!(stable_id("a"), "af63dc4c8601ec8c");
}

#[test]
fn owned_files_verify_against_disk() {
    let f = vec![OwnedFile {
        path: "/a".into(),
        original: Snapshot::Absent,
        expected: file("x"),
        owner: "o".into(),
    }];
    let good = Disk { reads: vec![FileRead { path: "/a".into(), result: Ok(file("x")) }] };
    let bad = Disk { reads: vec![FileRead { path: "/a".into(), result: Ok(file("y")) }] };
    assert!(verify(&f, &good).is_ok());
    assert_eq!(verify(&f, &bad).unwrap_err(), "Ownership drift at /a; run doctor / repair");
}

#[test]
fn hold_closes_gate_and_release_does_not_select() {
    let mut s = State::new();
    s.installed.push(shell("a"));
    s.selected = Some("a".into());
    s.config = Some(config("/state/user/a.kdl", Policy::PreserveUser));
    assert!(gate_allows(&s, "a"));
    assert_eq!(disable(&mut s, "zz").unwrap_err(), "Unknown installed shell zz");
    disable(&mut s, "a").unwrap();
    assert!(!gate_allows(&s, "a"));
    assert_eq!(s.config.as_ref().unwrap().user_root, "/state/user/a.kdl");
    assert_eq!(s.selected, None);
    assert_eq!(s.disabled, vec!["a".to_string()]);
    release(&mut s, "a").unwrap();
    assert!(s.disabled.is_empty());
    assert_eq!(s.selected, None);
    assert!(!gate_allows(&s, "a"));
    assert_eq!(release(&mut s, "a").unwrap_err(), "Shell has no emergency hold");
}

#[test]
fn held_shell_lease_and_configure_refused() {
    let mut s = State::new();
    s.installed.push(shell("a"));
    s.selected = Some("a".into());
    s.active = Some(running(shell("a"), "lease"));
    assert!(authorize(&s, "a", "runtime", "lease", true).is_ok());
    assert_eq!(
        authorize(&s, "a", "configure", "lease", true).unwrap_err(),
        "Configuration writes require an active handoff, not a runtime lease"
    );
    assert_eq!(
        authorize(&s, "a", "runtime", "", true).unwrap_err(),
        "No authorized Shellswitch lease; use the managed entrypoint"
    );
    s.disabled.push("a".into());
    assert_eq!(authorize(&s, "a", "runtime", "lease", true).unwrap_err(), "a is emergency-disabled");
}

#[test]
fn gate_runs_only_for_the_open_selected_shell() {
    let mut s = State::new();
    let mut c = shell("a");
    c.lifecycle.as_mut().unwrap().commands = vec![CommandGate {
        path: "/bin/a".into(),
        inline_body: None,
        inline_original: None,
        native_argv: vec![],
        blocked_prefixes: vec![],
        routes: vec![Route { prefix: vec!["toggle".into()], argv: vec!["/usr/bin/qs".into(), "ipc".into()] }],
    }];
    s.installed.push(c.clone());
    let args = vec!["toggle".to_string(), "bar".to_string()];
    assert_eq!(
        gate(&s, "a", Some("/bin/a"), &args, false, true, &empty_disk()).unwrap_err(),
        "a is inactive, disabled, or undergoing handoff; select it explicitly in Shellswitch"
    );
    s.selected = Some("a".into());
    assert_eq!(
        gate(&s, "a", Some("/bin/a"), &args, false, false, &empty_disk()).unwrap_err(),
        "Selected shell is not running; use resume"
    );
    s.active = Some(running(c, "l"));
    match gate(&s, "a", Some("/bin/a"), &args, false, true, &empty_disk()).unwrap() {
        GateAction::Run(v) => assert_eq!(v, vec!["/usr/bin/qs", "ipc", "bar"]),
        _ => panic!("expected a run"),
    }
    assert!(gate(&s, "a", Some("/bin/a"), &args, true, true, &empty_disk()).is_err());
    assert!(matches!(
        gate(&s, "a", Some("/bin/a"), &vec!["start".to_string()], false, true, &empty_disk()).unwrap(),
        GateAction::Resume
    ));
}

#[test]
fn gate_help_and_status_without_a_running_shell() {
    let s = State::new();
    match gate(&s, "arbitrary", None, &vec![], false, false, &empty_disk()).unwrap() {
        GateAction::Help(t) => assert!(t.starts_with("arbitrary: Shellswitch-managed entrypoint\n")),
        _ => panic!("expected help"),
    }
    match gate(&s, "arbitrary", None, &vec!["status".to_string()], false, false, &empty_disk()).unwrap() {
        GateAction::Status(t) => assert_eq!(
            t,
            "arbitrary: selected=false, running=false, disabled=false, trial=false"
        ),
        _ => panic!("expected status"),
    }
    assert!(gate(&s, "arbitrary", None, &vec!["start".to_string()], false, false, &empty_disk()).is_err());
}

#[test]
fn switch_journal_trial_keep_and_rollback() {
    let mut s = State::new();
    s.installed.push(shell("old"));
    s.selected = Some("old".into());
    s.active = Some(running(shell("old"), "l0"));
    s.config = Some(config("/state/user/a.kdl", Policy::PreserveUser));
    let target = shell("new");
    let disk = Disk { reads: vec![FileRead { path: "/cfg/config.kdl".into(), result: Ok(file("old")) }] };
    let text = plan(&target, &session(), &s, Ok(()), true, &disk).unwrap();
    assert!(text.starts_with("1. Snapshot configuration, ownership and selected shell: old\n"));
    begin(&mut s, target.clone(), "tok".into(), 1000, vec![], vec![], None);
    assert_eq!(
        plan(&target, &session(), &s, Ok(()), true, &disk).unwrap_err(),
        "A transaction is pending: keep, revert, or recover it first"
    );
    let p = s.pending.as_ref().unwrap();
    assert_eq!((p.deadline, p.phase), (1060, Phase::Prepared));
    assert_eq!(p.previous_selected.as_deref(), Some("old"));
    set_phase(&mut s, Phase::Starting).unwrap();
    assert_eq!(s.pending.as_ref().unwrap().previous_selected.as_deref(), Some("old"));
    s.active = Some(running(target.clone(), "tok"));
    assert_eq!(keep(&mut s, 1001, true, &disk, Ok(())).unwrap_err(), "Transaction is not ready to commit; recover it first");
    start_trial(&mut s, 1001);
    assert_eq!(keep(&mut s, 1030, true, &disk, Ok(())).unwrap_err(), "Trial expired");
    let snapshot_selected = s.selected.clone();
    let b = revert(&mut s).unwrap();
    assert_eq!(s.selected, snapshot_selected);
    assert_eq!(b.relaunch.as_ref().map(|c| c.id.as_str()), Some("old"));
    assert_eq!(s.pending.as_ref().unwrap().phase, Phase::Restoring);
    assert!(s.active.is_none());
}

#[test]
fn keep_commits_a_healthy_trial() {
    let mut s = State::new();
    s.config = Some(config("/u", Policy::PreserveUser));
    let target = shell("new");
    let disk = Disk { reads: vec![FileRead { path: "/cfg/config.kdl".into(), result: Ok(file("old")) }] };
    begin(&mut s, target.clone(), "tok".into(), 10, vec![], vec![], None);
    s.active = Some(running(target, "tok"));
    start_trial(&mut s, 10);
    assert_eq!(keep(&mut s, 12, false, &disk, Ok(())).unwrap_err(), "Trial shell died");
    keep(&mut s, 12, true, &disk, Ok(())).unwrap();
    assert_eq!(s.selected.as_deref(), Some("new"));
    assert!(s.pending.is_none());
    assert_eq!(s.generation, 1);
    assert_eq!(s.last_event, "Switch committed");
    assert_eq!(revert(&mut s).unwrap_err(), "No pending transaction");
}

#[test]
fn watchdog_rolls_back_all_but_a_live_trial() {
    let mut s = State::new();
    assert!(!must_roll_back(&s, 0, false));
    let target = shell("new");
    begin(&mut s, target.clone(), "tok".into(), 100, vec![], vec![], None);
    assert!(must_roll_back(&s, 100, true));
    s.active = Some(running(target, "tok"));
    start_trial(&mut s, 100);
    assert!(!must_roll_back(&s, 119, true));
    assert!(must_roll_back(&s, 120, true));
    assert!(must_roll_back(&s, 110, false));
    s.disabled.push("new".into());
    let b = revert(&mut s).unwrap();
    assert!(b.stopped.is_some());
    assert_eq!(s.disabled, vec!["new".to_string()]);
}

#[test]
fn install_stages_without_selecting_or_releasing() {
    let mut s = State::new();
    s.installed.push(shell("a"));
    s.disabled.push("a".into());
    assert!(ready_to_install(&s).is_ok());
    stage(&mut s, &shell("b"));
    assert_eq!(s.selected, None);
    assert_eq!(s.disabled, vec!["a".to_string()]);
    assert!(s.installed.iter().any(|c| c.id == "b"));
    assert_eq!(
        payload_destination("/state/packages/x", "/state").unwrap_err(),
        "Package destination cannot be inside payload source"
    );
    assert!(payload_destination("/elsewhere", "/state").is_ok());
}

#[test]
fn bridges_are_reviewed_only_for_known_shells() {
    assert_eq!(bridge_entry("tonantzintla", "/src/T").unwrap(), "/src/T/src/quickshell");
    assert_eq!(bridge_entry("serpantinum", "/src/S").unwrap(), "/src/S/src/quickshell/Shell.qml");
    assert!(bridge_entry("other", "/x").is_err());
}

#[test]
fn wayland_registry_request_bytes() {
    assert_eq!(
        registry_request(true),
        vec![1, 0, 0, 0, 1, 0, 12, 0, 2, 0, 0, 0, 1, 0, 0, 0, 0, 0, 12, 0, 3, 0, 0, 0]
    );
    assert_eq!(
        registry_request(false),
        vec![0, 0, 0, 1, 0, 12, 0, 1, 0, 0, 0, 2, 0, 0, 0, 1, 0, 12, 0, 0, 0, 0, 0, 3]
    );
}

fn native_provider() -> Candidate {
    let mut c = shell("unknown-provider");
    c.backend = Backend::Process {
        argv: vec!["/bin/sleep".into(), "60".into()],
        cwd: "/fixture".into(),
    };
    c.lifecycle.as_mut().unwrap().commands = vec![CommandGate {
        path: "/fixture/native".into(),
        inline_body: None,
        inline_original: None,
        native_argv: vec!["/bin/sh".into(), "/fixture/native.sh".into()],
        blocked_prefixes: vec![vec!["install".into()]],
        routes: vec![],
    }];
    c
}

#[test]
fn native_cli_gets_arguments_verbatim_and_legacy_ids_reconcile() {
    let mut s = State::new();
    let c = native_provider();
    s.installed.push(c.clone());
    s.selected = Some("unknown-provider".into());
    s.active = Some(running(c.clone(), "fixture"));
    let args: Vec<String> = ["future-feature", "two words", "$(touch should-not-exist)", ""]
        .iter()
        .map(|a| a.to_string())
        .collect();
    match gate(&s, "unknown-provider", Some("/fixture/native"), &args, false, true, &empty_disk()).unwrap() {
        GateAction::Run(v) => {
            let mut expected = vec!["/bin/sh".to_string(), "/fixture/native.sh".to_string()];
            expected.extend(args.clone());
            assert_eq!(v, expected);
        }
        _ => panic!("expected a run"),
    }
    assert_eq!(
        gate(&s, "unknown-provider", Some("/fixture/native"), &vec!["install".to_string()], false, true, &empty_disk())
            .unwrap_err(),
        "This command changes installation or ownership; use a staged update instead"
    );
    s.selected = Some("another-provider".into());
    assert!(gate(&s, "unknown-provider", Some("/fixture/native"), &args, false, true, &empty_disk()).is_err());

    // An instance recorded under a legacy discovery id, launched with the
    // entry a registration declares, is carried over to that registration.
    let mut legacy = shell("legacy-hash");
    legacy.lifecycle = None;
    legacy.backend = Backend::Process {
        argv: vec!["/fixture/qs".into(), "-p".into(), "/fixture/runtime/shell.qml".into()],
        cwd: "/fixture".into(),
    };
    s.selected = Some("legacy-hash".into());
    s.active = Some(running(legacy, "fixture"));
    s.installed[0].lifecycle.as_mut().unwrap().processes = vec![ProcessMatch {
        argv_prefix: vec!["/fixture/qs".into(), "-p".into(), "/fixture/runtime".into()],
        kill_without_cleanup: false,
    }];
    assert!(reconcile_legacy(&mut s, "unknown-provider"));
    assert_eq!(s.selected.as_deref(), Some("unknown-provider"));
    let a = s.active.as_ref().unwrap();
    assert_eq!(a.candidate.id, "unknown-provider");
    match &a.candidate.backend {
        Backend::Process { argv, .. } => assert_eq!(argv[2], "/fixture/runtime/shell.qml"),
        _ => panic!("expected a process backend"),
    }
    assert!(gate(&s, "unknown-provider", Some("/fixture/native"), &vec!["future-feature".to_string()], false, true, &empty_disk()).is_ok());
    assert!(!reconcile_legacy(&mut s, "unknown-provider"));
}

#[test]
fn switch_launches_the_journaled_target_under_its_token() {
    let mut s = State::new();
    s.selected = Some("old".into());
    assert!(pending_launch(&s, None).is_none());
    begin(&mut s, shell("new"), "tok".into(), 5, vec![], vec![], None);
    let id = shellswitch::process::Identity { pid: 42, start: 7, boot: "b".into() };
    let r = pending_launch(&s, Some(id)).unwrap();
    assert_eq!(r.candidate.id, "new");
    assert_eq!(r.lease, "tok");
    assert!(r.owned_group);
    assert!(!pending_launch(&s, None).unwrap().owned_group);
    set_phase(&mut s, Phase::Starting).unwrap();
    record_launch(&mut s, r);
    start_trial(&mut s, 10);
    let p = s.pending.as_ref().unwrap();
    assert_eq!((p.phase, p.deadline), (Phase::Trial, 30));
    assert_eq!(s.active.as_ref().unwrap().lease, p.token);
    assert_eq!(s.selected.as_deref(), Some("old"));
}
