use shellswitch::control::{begin, Phase, Running, State};
use shellswitch::diagnostics::diagnostics;
use shellswitch::holds::{mutation_ready, recover_journaled, release_hold};
use shellswitch::handoff::{
    advance, commit_checks_due, handoff_complete, split_changes, SwitchAction, SwitchEvent,
};
use shellswitch::model::{Backend, Candidate, Kind, Session};
use shellswitch::ownership::{text, Change, Config, Disk, FileRead, Lifecycle, OwnedFile, Policy, Snapshot};
use shellswitch::process::Identity;
use shellswitch::rollback::{roll_back, RollbackAction, RollbackEvent};
use shellswitch::text::trim_chars;
use shellswitch::ui::{mark, Mark};

fn file(s: &str) -> Snapshot {
    text(s, 0o644)
}

fn shell(id: &str) -> Candidate {
    Candidate {
        id: id.into(),
        name: format!("Shell {id}"),
        kind: Kind::Shell,
        framework: "Quickshell".into(),
        source: format!("/shells/{id}/shell.qml"),
        evidence: vec![],
        protocols: vec![],
        compositors: vec![],
        backend: Backend::Process {
            argv: vec!["/usr/bin/qs".into(), "-p".into(), format!("/shells/{id}")],
            cwd: "/".into(),
        },
        required_globals: vec![],
        lifecycle: Some(Lifecycle::empty("fixture".into())),
        declared: true,
        running_pids: vec![],
    }
}

fn instance(c: Candidate, lease: &str) -> Running {
    Running {
        candidate: c,
        process: None,
        owned_group: true,
        lease: lease.into(),
    }
}

fn config(target: &str, content: &str) -> Config {
    Config {
        target: target.into(),
        live_reload: false,
        original: file("old"),
        expected: file(content),
        user_root: "/u".into(),
        user_files: vec![],
        policy: Policy::PreserveUser,
        owner: None,
        dependencies: vec![],
    }
}

fn change(p: &str, before: &str, after: &str) -> Change {
    Change {
        path: p.into(),
        before: file(before),
        after: file(after),
    }
}

fn gate_file(p: &str) -> OwnedFile {
    OwnedFile {
        path: p.into(),
        original: Snapshot::Absent,
        expected: file("gate"),
        owner: "test".into(),
    }
}

fn session() -> Session {
    Session {
        protocol: "wayland".into(),
        compositor: "niri".into(),
        globals: None,
        evidence: vec![],
    }
}

fn codes(s: &State, files_pending: bool, active_healthy: bool, disk: &Disk) -> Vec<String> {
    let running: Vec<Vec<u32>> = s.installed.iter().map(|_| vec![]).collect();
    diagnostics(s, files_pending, active_healthy, disk, &running)
        .into_iter()
        .map(|d| d.code)
        .collect()
}

/// A state with `old` selected and running, a configuration owned at `/cfg`,
/// and a switch towards `new` opened.
fn opened() -> State {
    let mut s = State::new();
    s.installed.push(shell("old"));
    s.selected = Some("old".into());
    s.active = Some(instance(shell("old"), "l0"));
    s.commands.push(instance(shell("old"), "c0"));
    s.config = Some(config("/cfg", "old"));
    begin(
        &mut s,
        shell("new"),
        "tok".into(),
        1000,
        vec![change("/gate", "a", "gate"), change("/cfg", "old", "new")],
        vec![gate_file("/gate")],
        Some(config("/cfg", "new")),
    );
    s
}

#[test]
fn switch_steps_follow_the_transaction_order() {
    let mut s = opened();
    assert_eq!(advance(&mut s, SwitchEvent::Begun), SwitchAction::PublishGates);
    assert_eq!(s.pending.as_ref().unwrap().phase, Phase::Protected);
    assert_eq!(advance(&mut s, SwitchEvent::GatesPublished), SwitchAction::StopPrevious);
    assert!(s.commands.is_empty());
    assert!(s.active.is_some());
    assert_eq!(advance(&mut s, SwitchEvent::PreviousStopped), SwitchAction::CheckHandoff);
    assert!(s.active.is_none());
    assert_eq!(s.pending.as_ref().unwrap().phase, Phase::Stopped);
    assert_eq!(
        advance(&mut s, SwitchEvent::HandoffChecked { still_running: false }),
        SwitchAction::WriteConfig
    );
    assert_eq!(format!("{:?}", s.config.as_ref().unwrap().expected), format!("{:?}", file("old")));
    assert_eq!(advance(&mut s, SwitchEvent::ConfigWritten), SwitchAction::ValidateConfig);
    assert_eq!(format!("{:?}", s.config.as_ref().unwrap().expected), format!("{:?}", file("new")));
    assert_eq!(s.protections.len(), 1);
    assert_eq!(s.pending.as_ref().unwrap().phase, Phase::ConfigApplied);
    assert_eq!(advance(&mut s, SwitchEvent::ConfigValidated), SwitchAction::Launch);
    assert_eq!(s.pending.as_ref().unwrap().phase, Phase::Starting);
    assert_eq!(
        advance(&mut s, SwitchEvent::Ticketed { ticket: "/t/1".into() }),
        SwitchAction::Spawn
    );
    assert_eq!(s.pending.as_ref().unwrap().ticket.as_deref(), Some("/t/1"));
    let id = Identity { pid: 42, start: 7, boot: "b".into() };
    assert_eq!(
        advance(&mut s, SwitchEvent::Launched { process: Some(id) }),
        SwitchAction::Start
    );
    let r = s.active.as_ref().unwrap();
    assert_eq!((r.candidate.id.as_str(), r.lease.as_str()), ("new", "tok"));
    assert_eq!(
        r.process.as_ref().map(|p| (p.pid, p.start, p.boot.clone())),
        Some((42, 7, "b".to_string()))
    );
    assert!(r.owned_group);
    assert_eq!(advance(&mut s, SwitchEvent::Started), SwitchAction::Verify);
    assert_eq!(advance(&mut s, SwitchEvent::Verified { now: 1010 }), SwitchAction::Trial);
    let p = s.pending.as_ref().unwrap();
    assert_eq!((p.phase, p.deadline), (Phase::Trial, 1030));
    assert_eq!(s.selected.as_deref(), Some("old"));
    assert_eq!(p.previous_selected.as_deref(), Some("old"));
}

#[test]
fn switch_steps_refuse_failures_and_reports_out_of_phase() {
    let mut s = opened();
    let before = format!("{s:?}");
    assert_eq!(advance(&mut s, SwitchEvent::Failed), SwitchAction::Revert);
    assert_eq!(advance(&mut s, SwitchEvent::ConfigWritten), SwitchAction::Revert);
    assert_eq!(advance(&mut s, SwitchEvent::Started), SwitchAction::Revert);
    assert_eq!(format!("{s:?}"), before);
    advance(&mut s, SwitchEvent::Begun);
    advance(&mut s, SwitchEvent::GatesPublished);
    advance(&mut s, SwitchEvent::PreviousStopped);
    let stopped = format!("{s:?}");
    assert_eq!(
        advance(&mut s, SwitchEvent::HandoffChecked { still_running: true }),
        SwitchAction::Revert
    );
    assert_eq!(format!("{s:?}"), stopped);
    let mut idle = State::new();
    assert_eq!(advance(&mut idle, SwitchEvent::Begun), SwitchAction::Revert);
    assert!(idle.pending.is_none());
}

#[test]
fn unit_launch_needs_no_ticket_and_clock_must_fit() {
    let mut s = opened();
    for e in [
        SwitchEvent::Begun,
        SwitchEvent::GatesPublished,
        SwitchEvent::PreviousStopped,
        SwitchEvent::HandoffChecked { still_running: false },
        SwitchEvent::ConfigWritten,
        SwitchEvent::ConfigValidated,
    ] {
        assert_ne!(advance(&mut s, e), SwitchAction::Revert);
    }
    assert_eq!(advance(&mut s, SwitchEvent::Launched { process: None }), SwitchAction::Start);
    assert!(s.pending.as_ref().unwrap().ticket.is_none());
    assert!(!s.active.as_ref().unwrap().owned_group);
    assert_eq!(
        advance(&mut s, SwitchEvent::Ticketed { ticket: "/late".into() }),
        SwitchAction::Revert
    );
    assert_eq!(advance(&mut s, SwitchEvent::Started), SwitchAction::Verify);
    assert_eq!(
        advance(&mut s, SwitchEvent::Verified { now: u64::MAX - 19 }),
        SwitchAction::Revert
    );
    assert_eq!(s.pending.as_ref().unwrap().phase, Phase::Starting);
}

#[test]
fn journaled_changes_split_by_configuration_target() {
    let cs = vec![
        change("/gate/a", "x", "y"),
        change("/cfg", "old", "new"),
        change("/gate/b", "x", "y"),
    ];
    let (config_part, gates) = split_changes(&cs, &Some("/cfg".to_string()));
    let paths = |v: &Vec<Change>| v.iter().map(|c| c.path.clone()).collect::<Vec<_>>();
    assert_eq!(paths(&config_part), vec!["/cfg"]);
    assert_eq!(paths(&gates), vec!["/gate/a", "/gate/b"]);
    let (config_part, gates) = split_changes(&cs, &None);
    assert!(config_part.is_empty());
    assert_eq!(gates.len(), 3);
}

#[test]
fn handoff_is_complete_only_when_nothing_runs() {
    let quiet = vec![shell("a"), shell("b")];
    assert!(handoff_complete(&quiet));
    assert!(handoff_complete(&vec![]));
    let mut loud = quiet.clone();
    loud[1].running_pids = vec![77];
    assert!(!handoff_complete(&loud));
}

#[test]
fn commit_checks_are_due_only_for_a_live_clean_trial() {
    let mut s = State::new();
    s.config = Some(config("/cfg", "old"));
    let disk = Disk { reads: vec![FileRead { path: "/cfg".into(), result: Ok(file("old")) }] };
    assert!(!commit_checks_due(&s, 10, true, &disk));
    begin(&mut s, shell("new"), "tok".into(), 10, vec![], vec![], None);
    s.active = Some(instance(shell("new"), "tok"));
    assert!(!commit_checks_due(&s, 10, true, &disk));
    shellswitch::control::start_trial(&mut s, 10);
    assert!(commit_checks_due(&s, 29, true, &disk));
    assert!(!commit_checks_due(&s, 30, true, &disk));
    assert!(!commit_checks_due(&s, 12, false, &disk));
    let drifted = Disk { reads: vec![FileRead { path: "/cfg".into(), result: Ok(file("edited")) }] };
    assert!(!commit_checks_due(&s, 12, true, &drifted));
}

#[test]
fn catalog_marks_follow_their_precedence() {
    let mut s = State::new();
    let mut c = shell("a");
    assert_eq!(mark(&s, &session(), &c), Mark::Compatible);
    c.kind = Kind::Session;
    assert_eq!(mark(&s, &session(), &c), Mark::Other);
    c.running_pids = vec![5];
    assert_eq!(mark(&s, &session(), &c), Mark::Running);
    s.selected = Some("a".into());
    assert_eq!(mark(&s, &session(), &c), Mark::Selected);
    s.disabled.push("a".into());
    assert_eq!(mark(&s, &session(), &c), Mark::Held);
}

#[test]
fn diagnostics_report_pending_and_selected_not_running() {
    let mut s = State::new();
    s.installed.push(shell("old"));
    s.selected = Some("old".into());
    let disk = Disk { reads: vec![] };
    let c = codes(&s, false, false, &disk);
    assert!(c.iter().any(|x| x == "selected-not-running"));
    assert!(!c.iter().any(|x| x == "pending"));
    s.active = Some(instance(shell("old"), "l0"));
    let c = codes(&s, false, true, &disk);
    assert!(!c.iter().any(|x| x == "selected-not-running"));
    let c = codes(&s, false, false, &disk);
    assert!(c.iter().any(|x| x == "selected-not-running"));
    begin(&mut s, shell("new"), "tok".into(), 5, vec![], vec![], None);
    let c = codes(&s, false, false, &disk);
    assert!(c.iter().any(|x| x == "pending"));
    assert!(!c.iter().any(|x| x == "selected-not-running"));
    assert!(!c.iter().any(|x| x == "owner-mismatch" || x == "unexpected-managed-process"));
}

#[test]
fn release_hold_needs_a_clear_journal_and_a_hold() {
    let mut s = State::new();
    s.installed.push(shell("a"));
    s.selected = Some("b".into());
    s.disabled = vec!["a".into(), "c".into()];
    assert!(mutation_ready(false).is_ok());
    assert_eq!(
        release_hold(&mut s, "a", true).unwrap_err(),
        "Interrupted file operation; run recover --yes first"
    );
    assert_eq!(s.disabled.len(), 2);
    assert_eq!(release_hold(&mut s, "x", false).unwrap_err(), "Shell has no emergency hold");
    release_hold(&mut s, "a", false).unwrap();
    assert_eq!(s.disabled, vec!["c".to_string()]);
    assert_eq!(s.selected.as_deref(), Some("b"));
    assert!(s.active.is_none());
    assert_eq!(s.last_event, "Hold released for a; still inactive until explicitly selected");
    begin(&mut s, shell("a"), "tok".into(), 1, vec![], vec![], None);
    assert_eq!(release_hold(&mut s, "c", false).unwrap_err(), "Recover the transaction first");
    assert_eq!(s.disabled, vec!["c".to_string()]);
}

#[test]
fn trimming_drops_exactly_unicode_white_space() {
    let s: Vec<char> = "\u{3000}\t a\u{a0}b \u{2028}".chars().collect();
    assert_eq!(trim_chars(&s), vec!['a', '\u{a0}', 'b']);
    let keep: Vec<char> = "\u{200b}x\u{180e}".chars().collect();
    assert_eq!(trim_chars(&keep), keep);
}

#[test]
fn recovery_puts_back_the_journaled_protections_and_configuration() {
    let mut s = State::new();
    s.selected = Some("a".into());
    s.protections = vec![gate_file("/new-gate")];
    s.config = Some(config("/cfg", "new"));
    recover_journaled(&mut s, vec![gate_file("/old-gate")], None);
    assert_eq!(s.protections.len(), 1);
    assert_eq!(s.protections[0].path, "/old-gate");
    assert_eq!(s.config.as_ref().map(|c| c.target.as_str()), Some("/cfg"));
    recover_journaled(&mut s, vec![], Some(Some(config("/cfg", "old"))));
    assert!(s.protections.is_empty());
    assert_eq!(
        format!("{:?}", s.config.as_ref().unwrap().expected),
        format!("{:?}", file("old"))
    );
    recover_journaled(&mut s, vec![], Some(None));
    assert!(s.config.is_none());
    assert_eq!(s.selected.as_deref(), Some("a"));
}

fn in_trial() -> State {
    let mut s = opened();
    for e in [
        SwitchEvent::Begun,
        SwitchEvent::GatesPublished,
        SwitchEvent::PreviousStopped,
        SwitchEvent::HandoffChecked { still_running: false },
        SwitchEvent::ConfigWritten,
        SwitchEvent::ConfigValidated,
        SwitchEvent::Ticketed { ticket: "/t/1".into() },
        SwitchEvent::Launched { process: None },
        SwitchEvent::Started,
        SwitchEvent::Verified { now: 1010 },
    ] {
        assert_ne!(advance(&mut s, e), SwitchAction::Revert);
    }
    s
}

#[test]
fn rollback_steps_restore_and_relaunch_the_previous_shell() {
    let mut s = in_trial();
    s.commands.push(instance(shell("new"), "c1"));
    assert_eq!(roll_back(&mut s, RollbackEvent::Requested), RollbackAction::StopAll);
    assert_eq!(s.pending.as_ref().unwrap().phase, Phase::Restoring);
    assert!(s.active.is_some());
    assert_eq!(roll_back(&mut s, RollbackEvent::Stopped), RollbackAction::RestoreFiles);
    assert!(s.active.is_none() && s.commands.is_empty());
    assert_eq!(format!("{:?}", s.config.as_ref().unwrap().expected), format!("{:?}", file("new")));
    assert_eq!(roll_back(&mut s, RollbackEvent::FilesRestored), RollbackAction::Reload);
    assert_eq!(format!("{:?}", s.config.as_ref().unwrap().expected), format!("{:?}", file("old")));
    assert!(s.protections.is_empty());
    assert_eq!(s.selected.as_deref(), Some("old"));
    assert_eq!(roll_back(&mut s, RollbackEvent::Reloaded), RollbackAction::Lease);
    assert_eq!(
        roll_back(&mut s, RollbackEvent::Leased { lease: "l9".into() }),
        RollbackAction::Relaunch
    );
    let p = s.pending.as_ref().unwrap();
    assert_eq!((p.target.id.as_str(), p.token.as_str(), p.phase), ("old", "l9", Phase::Starting));
    assert_eq!(roll_back(&mut s, RollbackEvent::ConfigChecked), RollbackAction::Abort);
    assert_eq!(
        advance(&mut s, SwitchEvent::Ticketed { ticket: "/t/2".into() }),
        SwitchAction::Spawn
    );
    let id = Identity { pid: 9, start: 3, boot: "b".into() };
    assert_eq!(advance(&mut s, SwitchEvent::Launched { process: Some(id) }), SwitchAction::Start);
    assert_eq!(advance(&mut s, SwitchEvent::Started), SwitchAction::Verify);
    assert_eq!(roll_back(&mut s, RollbackEvent::Relaunched), RollbackAction::CheckConfig);
    assert_eq!(roll_back(&mut s, RollbackEvent::ConfigChecked), RollbackAction::Done);
    assert!(s.pending.is_none());
    let r = s.active.as_ref().unwrap();
    assert_eq!((r.candidate.id.as_str(), r.lease.as_str()), ("old", "l9"));
    assert_eq!(r.process.as_ref().map(|p| p.pid), Some(9));
    assert_eq!(
        s.last_event,
        "Previous configuration and shell restored; external edits, if any, were archived under recovery/"
    );
}

#[test]
fn rollback_of_a_held_shell_relaunches_nothing() {
    let mut s = in_trial();
    s.disabled.push("old".into());
    assert_eq!(roll_back(&mut s, RollbackEvent::Requested), RollbackAction::StopAll);
    assert_eq!(roll_back(&mut s, RollbackEvent::Stopped), RollbackAction::RestoreFiles);
    assert_eq!(roll_back(&mut s, RollbackEvent::FilesRestored), RollbackAction::Reload);
    assert!(s.selected.is_none());
    assert_eq!(
        roll_back(&mut s, RollbackEvent::Leased { lease: "l".into() }),
        RollbackAction::Abort
    );
    assert_eq!(roll_back(&mut s, RollbackEvent::Reloaded), RollbackAction::CheckConfig);
    assert_eq!(roll_back(&mut s, RollbackEvent::ConfigChecked), RollbackAction::Done);
    assert!(s.pending.is_none() && s.active.is_none());
    assert_eq!(s.disabled, vec!["old".to_string()]);
    let mut idle = State::new();
    assert_eq!(roll_back(&mut idle, RollbackEvent::Requested), RollbackAction::Abort);
    assert_eq!(roll_back(&mut s, RollbackEvent::Failed), RollbackAction::Abort);
}
