//! Recovery diagnostics: what drifted from the saved ownership, and the
//! command that repairs each finding.
use crate::control::{Phase, State, StateView};
use crate::model::{Candidate, CandidateView};
use crate::ownership::{observed, Disk, FileReadView, OwnedFile, OwnedFileView, SnapshotView};
use crate::text::{append, ascii_lowered, concat, debug_quoted, debug_str, decimal, decimal_of, same, to_ascii_lowercase};
use crate::dup::Duplicate;
use vstd::prelude::*;

verus! {

/// One finding: its code, what was found, and the repair command.
#[derive(Debug, Clone)]
pub struct Diagnostic {
    pub code: String,
    pub detail: String,
    pub repair: String,
}

pub struct DiagnosticView {
    pub code: Seq<char>,
    pub detail: Seq<char>,
    pub repair: Seq<char>,
}

impl View for Diagnostic {
    type V = DiagnosticView;

    open spec fn view(&self) -> DiagnosticView {
        DiagnosticView { code: self.code@, detail: self.detail@, repair: self.repair@ }
    }
}

impl DeepView for Diagnostic {
    type V = DiagnosticView;

    open spec fn deep_view(&self) -> DiagnosticView {
        self@
    }
}

pub open spec fn finding(code: Seq<char>, detail: Seq<char>, repair: Seq<char>) -> DiagnosticView {
    DiagnosticView { code, detail, repair }
}

/// `x` when `b` holds.
pub open spec fn only_if(b: bool, x: DiagnosticView) -> Seq<DiagnosticView> {
    if b {
        seq![x]
    } else {
        Seq::empty()
    }
}

/// The `Debug` name of a phase.
pub open spec fn phase_name(p: Phase) -> Seq<char> {
    match p {
        Phase::Prepared => "Prepared"@,
        Phase::Protected => "Protected"@,
        Phase::Stopped => "Stopped"@,
        Phase::ConfigApplied => "ConfigApplied"@,
        Phase::Starting => "Starting"@,
        Phase::Trial => "Trial"@,
        Phase::Restoring => "Restoring"@,
    }
}

/// The `Debug` form of an optional string.
pub open spec fn debug_option(o: Option<Seq<char>>) -> Seq<char> {
    match o {
        Some(x) => "Some("@ + debug_quoted(x) + ")"@,
        None => "None"@,
    }
}

/// The saved content of `path` is still on disk.
pub open spec fn intact(d: Seq<FileReadView>, path: Seq<char>, expected: SnapshotView) -> bool {
    observed(d, path) == Ok::<SnapshotView, Seq<char>>(expected)
}

/// One finding per owned file that drifted, made by `f`.
pub open spec fn drifted(
    d: Seq<FileReadView>,
    files: Seq<OwnedFileView>,
    code: Seq<char>,
    with_owner: bool,
) -> Seq<DiagnosticView>
    decreases files.len(),
{
    if files.len() == 0 {
        Seq::empty()
    } else {
        let f = files.last();
        drifted(d, files.drop_last(), code, with_owner) + only_if(
            !intact(d, f.path, f.expected),
            finding(
                code,
                if with_owner {
                    f.owner + ": "@ + f.path
                } else {
                    f.path
                },
                "repair --yes"@,
            ),
        )
    }
}

/// Findings about one registration: drifted staged configuration and live
/// inactive instances, or the absence of a startup-source adapter.
pub open spec fn registration_findings(
    s: StateView,
    c: CandidateView,
    d: Seq<FileReadView>,
    pids: Seq<u32>,
) -> Seq<DiagnosticView> {
    match c.lifecycle {
        Some(l) => drifted(d, l.frozen, "staged-config-drift"@, false) + if s.selected != Some(c.id)
            && !(s.pending matches Some(p) && p.target.id == c.id) {
            pids.map_values(
                |pid: u32|
                    finding(
                        "inactive-running"@,
                        c.name + " PID "@ + decimal(pid as nat),
                        "disable "@ + c.id + " --yes"@,
                    ),
            )
        } else {
            Seq::empty()
        },
        None => seq![
            finding(
                "integration-gap"@,
                c.name + " has no startup-source adapter"@,
                "install a lifecycle manifest; inspect inventory"@,
            ),
        ],
    }
}

pub open spec fn registrations_findings(
    s: StateView,
    inst: Seq<CandidateView>,
    d: Seq<FileReadView>,
    running: Seq<Seq<u32>>,
) -> Seq<DiagnosticView>
    decreases inst.len(),
{
    if inst.len() == 0 || running.len() < inst.len() {
        Seq::empty()
    } else {
        registrations_findings(s, inst.drop_last(), d, running.take(inst.len() - 1))
            + registration_findings(s, inst.last(), d, running[inst.len() - 1])
    }
}

/// Findings about the enrolled configuration.
pub open spec fn config_findings(s: StateView, d: Seq<FileReadView>) -> Seq<DiagnosticView> {
    match s.config {
        None => Seq::empty(),
        Some(c) => only_if(
            !intact(d, c.target, c.expected),
            finding(
                "config-overwrite"@,
                "Selected "@ + debug_option(s.selected)
                    + ", Niri entrypoint no longer matches saved ownership"@,
                "repair --yes"@,
            ),
        ) + drifted(d, c.user_files + c.dependencies, "include-drift"@, false) + only_if(
            s.selected is Some && c.owner != s.selected && s.pending is None,
            finding(
                "owner-mismatch"@,
                "Selected "@ + debug_option(s.selected) + ", config owner "@ + debug_option(c.owner),
                "switch <selected-id> --yes"@,
            ),
        ),
    }
}

/// Findings about the selected and the running shell outside a transaction.
pub open spec fn liveness_findings(s: StateView, active_healthy: bool) -> Seq<DiagnosticView> {
    if s.pending is Some {
        Seq::empty()
    } else {
        only_if(
            s.selected is Some && !(s.active is Some && s.active->0.candidate.id == s.selected->0
                && active_healthy),
            finding("selected-not-running"@, s.selected->0, "resume"@),
        ) + only_if(
            s.active is Some && active_healthy && s.selected != Some(s.active->0.candidate.id),
            finding("unexpected-managed-process"@, s.active->0.candidate.id, "disable <id> --yes"@),
        )
    }
}

/// Every finding, in report order. `files_pending` tells whether a file
/// operation journal is outstanding, `active_healthy` whether the active
/// instance is healthy, `d` what the owned paths hold, and `running[k]` the
/// live declared processes of the `k`-th registration.
pub open spec fn diagnostics_of(
    s: StateView,
    files_pending: bool,
    active_healthy: bool,
    d: Seq<FileReadView>,
    running: Seq<Seq<u32>>,
) -> Seq<DiagnosticView> {
    only_if(
        s.config is None && s.selected is Some,
        finding(
            "unowned-config"@,
            "A shell is selected while the Niri entrypoint is outside Shellswitch ownership"@,
            "enroll --config ~/.config/niri/config.kdl --user-config REVIEWED_BASELINE --policy preserve-user --yes"@,
        ),
    ) + only_if(
        s.active is Some && s.active->0.candidate.lifecycle is None,
        finding(
            "unmanaged-active-shell"@,
            s.active->0.candidate.name + " is running without a lifecycle adapter"@,
            "adapter "@ + ascii_lowered(s.active->0.candidate.name) + " --shell-root "@
                + s.active->0.candidate.source + " > shellswitch.toml, review it, then install it"@,
        ),
    ) + only_if(
        s.pending is Some,
        finding(
            "pending"@,
            phase_name(s.pending->0.phase) + ": "@ + s.pending->0.target.name,
            "recover (or keep/revert a healthy trial)"@,
        ),
    ) + only_if(
        files_pending,
        finding("interrupted-protection"@, "A file operation was interrupted"@, "recover"@),
    ) + drifted(d, s.protections, "startup-drift"@, true) + config_findings(s, d)
        + liveness_findings(s, active_healthy) + registrations_findings(s, s.installed, d, running)
}

// ------------------------------------------------------------ exec

fn make(code: &str, detail: String, repair: &str) -> (r: Diagnostic)
    ensures
        r@ == finding(code@, detail@, repair@),
{
    Diagnostic { code: code.to_string(), detail, repair: repair.to_string() }
}

fn push_if(out: &mut Vec<Diagnostic>, b: bool, x: Diagnostic)
    ensures
        final(out).deep_view() == old(out).deep_view() + only_if(b, x@),
{
    let ghost before = out.deep_view();
    if b {
        out.push(x);
    }
    assert(out.deep_view() =~= before + only_if(b, x@));
}

fn is_intact(disk: &Disk, path: &String, expected: &crate::ownership::Snapshot) -> (r: bool)
    ensures
        r == intact(disk@, path@, expected@),
{
    match disk.lookup(path) {
        Ok(s) => crate::ownership::snapshot_eq(&s, expected),
        Err(_) => false,
    }
}

fn add_drifted(out: &mut Vec<Diagnostic>, disk: &Disk, files: &Vec<OwnedFile>, code: &str, with_owner: bool)
    ensures
        final(out).deep_view() == old(out).deep_view() + drifted(disk@, files.deep_view(), code@, with_owner),
{
    proof {
        reveal_strlit(": ");
        reveal_strlit("repair --yes");
    }
    let ghost o0 = out.deep_view();
    let ghost fv = files.deep_view();
    let mut i: usize = 0;
    assert(fv.take(0) =~= Seq::<OwnedFileView>::empty());
    assert(out.deep_view() =~= o0 + drifted(disk@, fv.take(0), code@, with_owner));
    while i < files.len()
        invariant
            i <= files.len(),
            fv == files.deep_view(),
            out.deep_view() == o0 + drifted(disk@, fv.take(i as int), code@, with_owner),
        decreases files.len() - i,
    {
        let f = &files[i];
        proof {
            let w = fv.take(i + 1);
            assert(w.drop_last() =~= fv.take(i as int));
            assert(w.last() == f@);
        }
        let ok = is_intact(disk, &f.path, &f.expected);
        let detail = if with_owner {
            let t = concat(f.owner.as_str(), ": ");
            concat(t.as_str(), f.path.as_str())
        } else {
            f.path.clone()
        };
        let ghost before = out.deep_view();
        push_if(out, !ok, make(code, detail, "repair --yes"));
        assert(out.deep_view() =~= o0 + drifted(disk@, fv.take(i + 1), code@, with_owner));
        i += 1;
    }
    assert(fv.take(i as int) =~= fv);
}

fn phase_text(p: Phase) -> (r: String)
    ensures
        r@ == phase_name(p),
{
    proof {
        reveal_strlit("Prepared");
        reveal_strlit("Protected");
        reveal_strlit("Stopped");
        reveal_strlit("ConfigApplied");
        reveal_strlit("Starting");
        reveal_strlit("Trial");
        reveal_strlit("Restoring");
    }
    match p {
        Phase::Prepared => "Prepared".to_string(),
        Phase::Protected => "Protected".to_string(),
        Phase::Stopped => "Stopped".to_string(),
        Phase::ConfigApplied => "ConfigApplied".to_string(),
        Phase::Starting => "Starting".to_string(),
        Phase::Trial => "Trial".to_string(),
        Phase::Restoring => "Restoring".to_string(),
    }
}

fn debug_option_of(o: &Option<String>) -> (r: String)
    ensures
        r@ == debug_option(o.deep_view()),
{
    proof {
        reveal_strlit("Some(");
        reveal_strlit(")");
        reveal_strlit("None");
    }
    match o {
        Some(x) => {
            let t = concat("Some(", debug_str(x.as_str()).as_str());
            concat(t.as_str(), ")")
        },
        None => "None".to_string(),
    }
}

fn add_registration(out: &mut Vec<Diagnostic>, s: &State, c: &Candidate, disk: &Disk, pids: &Vec<u32>)
    ensures
        final(out).deep_view() == old(out).deep_view() + registration_findings(s@, c@, disk@, pids@),
{
    proof {
        reveal_strlit(" PID ");
        reveal_strlit("disable ");
        reveal_strlit(" --yes");
        reveal_strlit(" has no startup-source adapter");
        reveal_strlit("install a lifecycle manifest; inspect inventory");
    }
    match &c.lifecycle {
        None => {
            let ghost before = out.deep_view();
            out.push(
                make(
                    "integration-gap",
                    concat(c.name.as_str(), " has no startup-source adapter"),
                    "install a lifecycle manifest; inspect inventory",
                ),
            );
            assert(out.deep_view() =~= before + registration_findings(s@, c@, disk@, pids@));
        },
        Some(l) => {
            let ghost o0 = out.deep_view();
            add_drifted(out, disk, &l.frozen, "staged-config-drift", false);
            let inactive = match &s.selected {
                Some(x) => !same(x.as_str(), c.id.as_str()),
                None => true,
            } && !match &s.pending {
                Some(p) => same(p.target.id.as_str(), c.id.as_str()),
                None => false,
            };
            let ghost o1 = out.deep_view();
            if inactive {
                let mut k: usize = 0;
                while k < pids.len()
                    invariant
                        k <= pids@.len(),
                        out.deep_view() == o1 + pids@.take(k as int).map_values(
                            |pid: u32|
                                finding(
                                    "inactive-running"@,
                                    c@.name + " PID "@ + decimal(pid as nat),
                                    "disable "@ + c@.id + " --yes"@,
                                ),
                        ),
                    decreases pids.len() - k,
                {
                    let t = concat(c.name.as_str(), " PID ");
                    let detail = concat(t.as_str(), decimal_of(pids[k] as u64).as_str());
                    let r = concat("disable ", c.id.as_str());
                    let r = concat(r.as_str(), " --yes");
                    let ghost before = out.deep_view();
                    out.push(Diagnostic { code: "inactive-running".to_string(), detail, repair: r });
                    proof {
                        reveal_strlit("inactive-running");
                    }
                    let ghost item = finding(
                        "inactive-running"@,
                        c@.name + " PID "@ + decimal(pids@[k as int] as nat),
                        "disable "@ + c@.id + " --yes"@,
                    );
                    assert(out.deep_view() =~= before.push(item));
                    assert(pids@.take(k + 1).map_values(
                        |pid: u32|
                            finding(
                                "inactive-running"@,
                                c@.name + " PID "@ + decimal(pid as nat),
                                "disable "@ + c@.id + " --yes"@,
                            ),
                    ) =~= pids@.take(k as int).map_values(
                        |pid: u32|
                            finding(
                                "inactive-running"@,
                                c@.name + " PID "@ + decimal(pid as nat),
                                "disable "@ + c@.id + " --yes"@,
                            ),
                    ).push(item));
                    assert(out.deep_view() =~= o1 + pids@.take(k + 1).map_values(
                        |pid: u32|
                            finding(
                                "inactive-running"@,
                                c@.name + " PID "@ + decimal(pid as nat),
                                "disable "@ + c@.id + " --yes"@,
                            ),
                    ));
                    k += 1;
                }
                assert(pids@.take(k as int) =~= pids@);
            } else {
                assert(out.deep_view() =~= o1 + Seq::<DiagnosticView>::empty());
            }
        },
    }
}

/// Reports drift from the saved ownership and the command that repairs each
/// finding. `running[k]` lists the live declared processes of the `k`-th
/// registration.
pub fn diagnostics(
    s: &State,
    files_pending: bool,
    active_healthy: bool,
    disk: &Disk,
    running: &Vec<Vec<u32>>,
) -> (r: Vec<Diagnostic>)
    requires
        running@.len() == s@.installed.len(),
    ensures
        r.deep_view() == diagnostics_of(s@, files_pending, active_healthy, disk@, running.deep_view()),
{
    proof {
        reveal_strlit("A shell is selected while the Niri entrypoint is outside Shellswitch ownership");
        reveal_strlit(
            "enroll --config ~/.config/niri/config.kdl --user-config REVIEWED_BASELINE --policy preserve-user --yes",
        );
        reveal_strlit(" is running without a lifecycle adapter");
        reveal_strlit("adapter ");
        reveal_strlit(" --shell-root ");
        reveal_strlit(" > shellswitch.toml, review it, then install it");
        reveal_strlit(": ");
        reveal_strlit("recover (or keep/revert a healthy trial)");
        reveal_strlit("A file operation was interrupted");
        reveal_strlit("recover");
        reveal_strlit("Selected ");
        reveal_strlit(", Niri entrypoint no longer matches saved ownership");
        reveal_strlit("repair --yes");
        reveal_strlit(", config owner ");
        reveal_strlit("switch <selected-id> --yes");
        reveal_strlit("resume");
        reveal_strlit("disable <id> --yes");
    }
    let mut out: Vec<Diagnostic> = Vec::new();
    assert(out.deep_view() =~= Seq::<DiagnosticView>::empty());
    push_if(
        &mut out,
        s.config.is_none() && s.selected.is_some(),
        make(
            "unowned-config",
            "A shell is selected while the Niri entrypoint is outside Shellswitch ownership".to_string(),
            "enroll --config ~/.config/niri/config.kdl --user-config REVIEWED_BASELINE --policy preserve-user --yes",
        ),
    );
    match &s.active {
        Some(a) => {
            let unmanaged = a.candidate.lifecycle.is_none();
            let detail = concat(a.candidate.name.as_str(), " is running without a lifecycle adapter");
            let mut repair = concat("adapter ", to_ascii_lowercase(a.candidate.name.as_str()).as_str());
            append(&mut repair, " --shell-root ");
            append(&mut repair, a.candidate.source.as_str());
            append(&mut repair, " > shellswitch.toml, review it, then install it");
            push_if(&mut out, unmanaged, make("unmanaged-active-shell", detail, repair.as_str()));
        },
        None => {
            push_if(&mut out, false, make("unmanaged-active-shell", String::new(), ""));
        },
    }
    match &s.pending {
        Some(p) => {
            let d = concat(phase_text(p.phase).as_str(), ": ");
            let d = concat(d.as_str(), p.target.name.as_str());
            push_if(&mut out, true, make("pending", d, "recover (or keep/revert a healthy trial)"));
        },
        None => {
            push_if(&mut out, false, make("pending", String::new(), ""));
        },
    }
    push_if(
        &mut out,
        files_pending,
        make("interrupted-protection", "A file operation was interrupted".to_string(), "recover"),
    );
    add_drifted(&mut out, disk, &s.protections, "startup-drift", true);
    let ghost before_config = out.deep_view();
    if let Some(c) = &s.config {
        let sel = debug_option_of(&s.selected);
        let d = concat("Selected ", sel.as_str());
        let d = concat(d.as_str(), ", Niri entrypoint no longer matches saved ownership");
        push_if(&mut out, !is_intact(disk, &c.target, &c.expected), make("config-overwrite", d, "repair --yes"));
        let mut both = crate::dup::duplicate_vec(&c.user_files);
        let mut deps = crate::dup::duplicate_vec(&c.dependencies);
        let ghost bv = both.deep_view();
        both.append(&mut deps);
        assert(both.deep_view() =~= bv + c@.dependencies);
        add_drifted(&mut out, disk, &both, "include-drift", false);
        let owner_differs = match (&c.owner, &s.selected) {
            (Some(a), Some(b)) => !same(a.as_str(), b.as_str()),
            (None, None) => false,
            _ => true,
        };
        let d = concat("Selected ", sel.as_str());
        let d = concat(d.as_str(), ", config owner ");
        let d = concat(d.as_str(), debug_option_of(&c.owner).as_str());
        push_if(
            &mut out,
            s.selected.is_some() && owner_differs && s.pending.is_none(),
            make("owner-mismatch", d, "switch <selected-id> --yes"),
        );
    }
    assert(out.deep_view() =~= before_config + config_findings(s@, disk@));
    let ghost before_live = out.deep_view();
    if s.pending.is_none() {
        match &s.selected {
            Some(id) => {
                let running_it = match &s.active {
                    Some(a) => same(a.candidate.id.as_str(), id.as_str()) && active_healthy,
                    None => false,
                };
                push_if(&mut out, !running_it, make("selected-not-running", id.clone(), "resume"));
            },
            None => {
                push_if(&mut out, false, make("selected-not-running", String::new(), "resume"));
            },
        }
        match &s.active {
            Some(a) => {
                let elsewhere = match &s.selected {
                    Some(x) => !same(x.as_str(), a.candidate.id.as_str()),
                    None => true,
                };
                push_if(
                    &mut out,
                    active_healthy && elsewhere,
                    make("unexpected-managed-process", a.candidate.id.clone(), "disable <id> --yes"),
                );
            },
            None => {
                push_if(&mut out, false, make("unexpected-managed-process", String::new(), ""));
            },
        }
    }
    assert(out.deep_view() =~= before_live + liveness_findings(s@, active_healthy));
    let ghost before_reg = out.deep_view();
    let ghost iv = s@.installed;
    let ghost rv = running.deep_view();
    let mut k: usize = 0;
    assert(iv.take(0) =~= Seq::<CandidateView>::empty());
    while k < s.installed.len()
        invariant
            k <= s.installed.len(),
            iv == s@.installed,
            rv == running.deep_view(),
            running@.len() == iv.len(),
            out.deep_view() == before_reg + registrations_findings(s@, iv.take(k as int), disk@, rv.take(k as int)),
        decreases s.installed.len() - k,
    {
        let c = &s.installed[k];
        proof {
            let w = iv.take(k + 1);
            assert(w.drop_last() =~= iv.take(k as int));
            assert(rv.take(k + 1).take(k as int) =~= rv.take(k as int));
            assert(w.last() == c@);
            assert(rv.take(k + 1)[k as int] == running@[k as int]@);
        }
        let ghost before = out.deep_view();
        add_registration(&mut out, s, c, disk, &running[k]);
        k += 1;
    }
    assert(iv.take(k as int) =~= iv);
    assert(rv.take(k as int) =~= rv);
    out
}

} // verus!

