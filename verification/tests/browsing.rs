use shellswitch::control::State;
use shellswitch::diagnostics::Diagnostic;
use shellswitch::matching::{
    adoptable, annotate, declared, is_same_file, quickshell_config_path, quiesce,
    verify_inactive, FileId, ProcessFacts, Resolution, UnitState,
};
use shellswitch::model::{Backend, Candidate, Kind};
use shellswitch::niri::{config_loaded, receive};
use shellswitch::ownership::{Lifecycle, ProcessMatch};
use shellswitch::process::{Identity, Process};
use shellswitch::ui::{
    action_done, diagnostics_shown, filtered, key, kept, plan_shown, refresh_due, reverted,
    scanned, App, Confirming, Key, UiAction,
};

fn process(pid: u32, argv: &[&str], cwd: &str) -> Process {
    Process {
        identity: Identity { pid, start: 100 + pid as u64, boot: "boot".into() },
        argv: argv.iter().map(|s| s.to_string()).collect(),
        cwd: cwd.into(),
        group: pid,
        state: 'S',
    }
}

fn shell(id: &str, name: &str, kind: Kind, framework: &str, argv: &[&str]) -> Candidate {
    Candidate {
        id: id.into(),
        name: name.into(),
        kind,
        framework: framework.into(),
        source: format!("/shells/{id}/shell.qml"),
        evidence: vec![],
        protocols: vec![],
        compositors: vec![],
        backend: Backend::Process {
            argv: argv.iter().map(|s| s.to_string()).collect(),
            cwd: "/".into(),
        },
        required_globals: vec![],
        lifecycle: None,
        declared: false,
        running_pids: vec![],
    }
}

fn here() -> ProcessFacts {
    ProcessFacts { in_session: true, env_override: false, config_is_dir: true }
}

fn id(path: &str, canon: &str) -> FileId {
    FileId { path: path.into(), id: Some(canon.into()) }
}

#[test]
fn quickshell_selection_follows_command_line() {
    let p = process(1, &["/usr/bin/qs", "-p", "proj"], "/home/u");
    assert_eq!(quickshell_config_path(&p, "/home/u/.config", false).as_deref(), Some("/home/u/proj"));
    let p = process(1, &["qs", "--config", "bar"], "/");
    assert_eq!(
        quickshell_config_path(&p, "/home/u/.config", false).as_deref(),
        Some("/home/u/.config/quickshell/bar")
    );
    let p = process(1, &["quickshell"], "/");
    assert_eq!(
        quickshell_config_path(&p, "/c", false).as_deref(),
        Some("/c/quickshell")
    );
    assert_eq!(quickshell_config_path(&p, "/c", true), None);
    let p = process(1, &["qs", "ipc", "call"], "/");
    assert_eq!(quickshell_config_path(&p, "/c", false), None);
    let p = process(1, &["/usr/bin/python3", "-p", "x"], "/");
    assert_eq!(quickshell_config_path(&p, "/c", false), None);
    let p = process(1, &["qs", "--verbose"], "/");
    assert_eq!(quickshell_config_path(&p, "/c", false), None);
}

#[test]
fn matching_compares_files_and_exact_arguments() {
    let ids = vec![
        id("/shells/a/shell.qml", "/real/a.qml"),
        id("/home/u/proj/shell.qml", "/real/a.qml"),
        id("/usr/bin/bar", "/usr/bin/bar"),
        id("/bin/bar", "/usr/bin/bar"),
    ];
    assert!(is_same_file(&ids, "/bin/bar", "/usr/bin/bar"));
    assert!(!is_same_file(&ids, "/nowhere", "/nowhere"));
    let qs = shell("a", "A", Kind::Shell, "Quickshell", &["qs", "-p", "/shells/a"]);
    let p = process(1, &["qs", "-p", "proj"], "/home/u");
    assert!(shellswitch::matching::matches(&qs, &p, here(), &ids, "/c"));
    let outside = ProcessFacts { in_session: false, ..here() };
    assert!(!shellswitch::matching::matches(&qs, &p, outside, &ids, "/c"));
    let bar = shell("b", "B", Kind::Shell, "Eww", &["/usr/bin/bar", "--main"]);
    assert!(shellswitch::matching::matches(&bar, &process(2, &["/bin/bar", "--main"], "/"), here(), &ids, "/c"));
    assert!(!shellswitch::matching::matches(&bar, &process(2, &["/bin/bar", "--other"], "/"), here(), &ids, "/c"));
    assert!(!shellswitch::matching::matches(&bar, &process(2, &["/bin/bar"], "/"), here(), &ids, "/c"));
}

#[test]
fn annotation_records_matching_pids_and_keeps_live_review_pids() {
    let ids = vec![id("/usr/bin/bar", "/usr/bin/bar")];
    let mut review = shell("r", "R", Kind::Candidate, "Unknown", &[]);
    review.backend = Backend::Review { reason: "x".into() };
    review.running_pids = vec![5, 6];
    let mut cs = vec![shell("b", "B", Kind::Shell, "Eww", &["/usr/bin/bar"]), review];
    let ps = vec![process(5, &["/usr/bin/bar"], "/"), process(9, &["/usr/bin/bar"], "/")];
    annotate(&mut cs, &ps, &vec![here(), here()], &ids, "/c");
    assert_eq!(cs[0].running_pids, vec![5, 9]);
    assert_eq!(cs[1].running_pids, vec![5]);
}

fn registered(id: &str, services: &[&str], prefix: &[&str], kill: bool) -> Candidate {
    let mut c = shell(id, id, Kind::Shell, "Eww", &["/usr/bin/x"]);
    let mut l = Lifecycle::empty("fixture".into());
    l.services = services.iter().map(|s| s.to_string()).collect();
    l.processes = vec![ProcessMatch {
        argv_prefix: prefix.iter().map(|s| s.to_string()).collect(),
        kill_without_cleanup: kill,
    }];
    c.lifecycle = Some(l);
    c
}

#[test]
fn quiescing_targets_declared_processes_only() {
    let mut s = State::new();
    s.installed.push(registered("alpha", &["alpha.service"], &["/usr/bin/alpha", "--daemon"], true));
    s.installed.push(registered("beta", &[], &["beta"], false));
    let ps = vec![
        process(10, &["/usr/bin/alpha", "--daemon", "--x"], "/"),
        process(11, &["/usr/bin/alpha"], "/"),
        process(12, &["/usr/local/bin/beta"], "/"),
        process(13, &["kitty"], "/"),
    ];
    let ids = vec![id("beta", "/usr/local/bin/beta"), id("/usr/local/bin/beta", "/usr/local/bin/beta")];
    let exes = vec![Resolution { name: "/usr/local/bin/beta".into(), path: Some("/usr/local/bin/beta".into()) }];
    let facts = vec![ProcessFacts { in_session: true, env_override: false, config_is_dir: false }; 4];
    let (units, stops) = quiesce(&s, &ps, &facts, &ids, &exes);
    assert_eq!(units, vec!["alpha.service".to_string()]);
    let got: Vec<(u32, bool)> = stops.iter().map(|x| (x.identity.pid, x.kill)).collect();
    assert_eq!(got, vec![(10, true), (12, false)]);
    assert!(declared(&s.installed[0], &ps[0], false, &ids, &exes).is_none());
}

#[test]
fn inactive_shells_must_not_run() {
    let mut s = State::new();
    s.installed.push(registered("alpha", &["alpha.service"], &["/usr/bin/alpha"], false));
    s.installed.push(registered("beta", &[], &["/usr/bin/beta"], false));
    let ps = vec![process(21, &["/usr/bin/beta"], "/")];
    let facts = vec![ProcessFacts { in_session: true, env_override: false, config_is_dir: false }];
    let active = vec![UnitState { unit: "alpha.service".into(), state: Ok("active\n".into()) }];
    let quiet = vec![UnitState { unit: "alpha.service".into(), state: Ok("inactive".into()) }];
    assert_eq!(
        verify_inactive(&s, Some("beta"), &active, &ps, &facts, &vec![true], &vec![], &vec![]).unwrap_err(),
        "Inactive shell service alpha.service is running; disable alpha --yes"
    );
    assert!(verify_inactive(&s, Some("beta"), &quiet, &ps, &facts, &vec![true], &vec![], &vec![]).is_ok());
    assert_eq!(
        verify_inactive(&s, Some("alpha"), &quiet, &ps, &facts, &vec![true], &vec![], &vec![]).unwrap_err(),
        "Inactive shell beta resurrected as PID 21; disable it and inspect startup inventory"
    );
    assert!(verify_inactive(&s, Some("alpha"), &quiet, &ps, &facts, &vec![false], &vec![], &vec![]).is_ok());
    assert_eq!(
        verify_inactive(&s, None, &vec![], &ps, &facts, &vec![false], &vec![], &vec![]).unwrap_err(),
        "No state was reported for unit alpha.service"
    );
}

#[test]
fn adoption_refuses_service_members_and_strangers() {
    let ids = vec![id("/usr/bin/bar", "/usr/bin/bar")];
    let c = shell("b", "B", Kind::Shell, "Eww", &["/usr/bin/bar"]);
    let p = process(4, &["/usr/bin/bar"], "/");
    let ok = adoptable(&c, Some(&p), here(), &ids, "/c", Ok("0::/user.slice/user@1000.service/app.slice/x.scope".into()));
    assert_eq!(ok.unwrap().pid, 4);
    assert_eq!(
        adoptable(&c, Some(&p), here(), &ids, "/c", Ok("0::/user.slice/user@1000.service/bar.service".into()))
            .unwrap_err(),
        "Process belongs to a service; use a systemd manifest to avoid supervisor respawns"
    );
    assert_eq!(
        adoptable(&c, None, here(), &ids, "/c", Ok(String::new())).unwrap_err(),
        "Process unavailable or not owned by this user"
    );
    let other = process(4, &["/usr/bin/other"], "/");
    assert_eq!(
        adoptable(&c, Some(&other), here(), &ids, "/c", Ok(String::new())).unwrap_err(),
        "PID does not match this candidate's exact entrypoint"
    );
    assert_eq!(
        adoptable(&c, Some(&p), here(), &ids, "/c", Err("gone".into())).unwrap_err(),
        "gone"
    );
}

#[test]
fn niri_events_wait_for_a_fresh_config_loaded() {
    let mut pending = b"{\"WorkspacesChanged\":{}}\n{\"ConfigLoaded\":{\"failed\":true}}\n{\"x\":1}\n".to_vec();
    assert_eq!(config_loaded(&mut pending).unwrap(), Some(false));
    assert_eq!(pending, b"{\"x\":1}\n".to_vec());
    assert_eq!(config_loaded(&mut pending).unwrap(), None);
    assert!(pending.is_empty());
    let mut partial = b"{\"ConfigLoaded\":{\"failed\":false}".to_vec();
    assert_eq!(config_loaded(&mut partial).unwrap(), None);
    receive(&mut partial, b"}\n").unwrap();
    assert_eq!(config_loaded(&mut partial).unwrap(), Some(true));
    let mut bad = b"not json\n".to_vec();
    assert!(config_loaded(&mut bad).is_err());
    let mut big = vec![b' '; 2 * 1024 * 1024 - 1];
    assert_eq!(receive(&mut big, b"x").unwrap_err(), "Niri event buffer exceeded bound");
}

fn browser_list() -> Vec<Candidate> {
    vec![
        shell("a", "Alpha Bar", Kind::Shell, "Quickshell", &["qs"]),
        shell("b", "Beta Dock", Kind::Component, "Eww", &["eww"]),
        shell("c", "Gamma", Kind::Shell, "AGS", &["ags"]),
    ]
}

#[test]
fn browser_filters_by_query_and_tab() {
    let cs = browser_list();
    let mut a = App::default();
    assert_eq!(filtered(&cs, &a), vec![0, 1, 2]);
    a.tab = 1;
    assert_eq!(filtered(&cs, &a), vec![0, 2]);
    a.tab = 0;
    a.query = "DOCK".into();
    assert_eq!(filtered(&cs, &a), vec![1]);
    let mut unicode = browser_list();
    unicode[2].name = "Ärger Panel".into();
    a.query = "äRGER".into();
    assert_eq!(filtered(&unicode, &a), vec![2]);
}

#[test]
fn browser_keys_move_search_and_confirm() {
    let cs = browser_list();
    let mut a = App::default();
    let mut p = Confirming::Switch;
    assert_eq!(a.message, "Discovery is read-only. Enter previews the exact switch plan.");
    assert_eq!(key(&mut a, &mut p, Key::Down, &cs), UiAction::Nothing);
    assert_eq!(a.selected, 1);
    key(&mut a, &mut p, Key::Down, &cs);
    key(&mut a, &mut p, Key::Down, &cs);
    assert_eq!(a.selected, 2);
    assert_eq!(key(&mut a, &mut p, Key::Enter, &cs), UiAction::Plan(2));
    key(&mut a, &mut p, Key::Up, &cs);
    assert_eq!(a.selected, 1);
    key(&mut a, &mut p, Key::BackTab, &cs);
    assert_eq!((a.tab, a.selected), (4, 0));
    key(&mut a, &mut p, Key::Tab, &cs);
    assert_eq!(a.tab, 0);
    key(&mut a, &mut p, Key::Char('/'), &cs);
    key(&mut a, &mut p, Key::Char('g'), &cs);
    key(&mut a, &mut p, Key::Char('x'), &cs);
    key(&mut a, &mut p, Key::Backspace, &cs);
    assert_eq!(key(&mut a, &mut p, Key::Char('q'), &cs), UiAction::Nothing);
    assert_eq!(a.query, "gq");
    key(&mut a, &mut p, Key::Backspace, &cs);
    key(&mut a, &mut p, Key::Enter, &cs);
    assert!(!a.searching);
    assert_eq!(filtered(&cs, &a), vec![2]);
    assert_eq!(key(&mut a, &mut p, Key::Char('x'), &cs), UiAction::Nothing);
    assert_eq!(p, Confirming::Disable);
    assert!(a.confirm.as_ref().unwrap().starts_with("Stop Gamma and keep it disabled?"));
    assert_eq!(key(&mut a, &mut p, Key::Char('k'), &cs), UiAction::Nothing);
    assert_eq!(key(&mut a, &mut p, Key::Char('y'), &cs), UiAction::Disable(2));
    assert!(a.confirm.is_none());
    key(&mut a, &mut p, Key::Char('f'), &cs);
    assert_eq!(key(&mut a, &mut p, Key::Esc, &cs), UiAction::Nothing);
    assert!(a.confirm.is_none());
    assert_eq!(key(&mut a, &mut p, Key::Char('k'), &cs), UiAction::Keep);
    assert_eq!(key(&mut a, &mut p, Key::Char('u'), &cs), UiAction::Revert);
    assert_eq!(key(&mut a, &mut p, Key::Char('r'), &cs), UiAction::Rescan);
    assert_eq!(key(&mut a, &mut p, Key::Char('d'), &cs), UiAction::Diagnose);
    assert_eq!(key(&mut a, &mut p, Key::Esc, &cs), UiAction::Quit);
}

#[test]
fn browser_adopt_prompt_and_scroll() {
    let mut cs = browser_list();
    cs[0].running_pids = vec![42, 43];
    let mut a = App::default();
    let mut p = Confirming::Switch;
    key(&mut a, &mut p, Key::Char('a'), &cs);
    assert_eq!(p, Confirming::Adopt);
    assert!(a
        .confirm
        .as_ref()
        .unwrap()
        .starts_with("Adopt Alpha Bar\nMatching PIDs: [42, 43]\n\ncwd: /\nargv: [\"qs\"]\n\nThis grants"));
    assert_eq!(key(&mut a, &mut p, Key::Char('y'), &cs), UiAction::Adopt(0));
    for _ in 0..3 {
        key(&mut a, &mut p, Key::PageDown, &cs);
    }
    assert_eq!(a.scroll, 18);
    key(&mut a, &mut p, Key::PageUp, &cs);
    assert_eq!(a.scroll, 12);
    a.scroll = u16::MAX - 2;
    key(&mut a, &mut p, Key::PageDown, &cs);
    assert_eq!(a.scroll, u16::MAX);
}

#[test]
fn browser_reports_outcomes() {
    let mut a = App::default();
    let mut p = Confirming::Adopt;
    plan_shown(&mut a, &mut p, Ok("1. Snapshot".into()));
    assert_eq!((p, a.confirm.as_deref()), (Confirming::Switch, Some("1. Snapshot")));
    a.confirm = None;
    plan_shown(&mut a, &mut p, Err("refused".into()));
    assert_eq!(a.message, "refused");
    diagnostics_shown(&mut a, &mut p, &vec![]);
    assert_eq!(a.confirm.as_deref(), Some("No detected ownership or lifecycle drift."));
    let ds = vec![
        Diagnostic { code: "a".into(), detail: "b".into(), repair: "c".into() },
        Diagnostic { code: "d".into(), detail: "e".into(), repair: "f".into() },
    ];
    diagnostics_shown(&mut a, &mut p, &ds);
    assert_eq!(a.confirm.as_deref(), Some("a: b\n→ c\n\nd: e\n→ f"));
    assert_eq!(p, Confirming::Diagnostics);
    action_done(&mut a, Ok(()));
    assert_eq!(a.message, "Action complete. Trial switches require k to keep.");
    action_done(&mut a, Err("boom".into()));
    assert_eq!(a.message, "Action failed; diagnostic opened.");
    assert_eq!(a.confirm.as_deref(), Some("Action failed:\n\nboom\n\nPress Esc to close this diagnostic."));
    kept(&mut a, Ok(()));
    assert_eq!(a.message, "Trial kept");
    reverted(&mut a, Err("No pending transaction".into()));
    assert_eq!(a.message, "No pending transaction");
    reverted(&mut a, Ok(()));
    assert_eq!(a.message, "Previous shell restored");
    scanned(&mut a, &vec!["w1".into(), "w2".into()]);
    assert_eq!(a.message, "Scan complete. w1; w2");
    assert!(!refresh_due(&a, true, false));
    a.confirm = None;
    assert!(refresh_due(&a, true, false));
    assert!(!refresh_due(&a, true, true));
    assert!(!refresh_due(&a, false, false));
}
