//! Keeping the owned configuration in shape outside a switch: enrolling the
//! compositor entrypoint, importing user settings, repairing drift and
//! retiring supervised commands.
use crate::control::{registered, well_formed, Running, RunningView, State, StateView};
use crate::dup::{duplicate_option, duplicate_vec, Duplicate};
use crate::model::{Candidate, CandidateView};
use crate::ownership::{
    observed, snapshot_eq, Change, ChangeView, Config, ConfigView, Disk, FileReadView, OwnedFile,
    OwnedFileView, Policy, Snapshot, SnapshotView, not_regular_message,
};
use crate::changes::{applied_steps, current, FileStepView};
use crate::text::same;
use vstd::prelude::*;

verus! {

// ------------------------------------------------------------ enrolment

pub open spec fn enroll_pending_message() -> Seq<char> {
    "Recover or finish the pending transaction first"@
}

pub open spec fn already_enrolled_message() -> Seq<char> {
    "Configuration already enrolled; use repair or config-update"@
}

pub open spec fn enrolled_message() -> Seq<char> {
    "Niri config enrolled and snapshotted; no entrypoint or shell was changed"@
}

/// Why the compositor configuration cannot be enrolled now.
pub open spec fn enroll_refusal(s: StateView) -> Option<Seq<char>> {
    if s.pending is Some {
        Some(enroll_pending_message())
    } else if s.config is Some {
        Some(already_enrolled_message())
    } else {
        None
    }
}

/// Checks that enrolment may start, before anything is read or frozen.
pub fn enrollable(s: &State) -> (r: Result<(), String>)
    ensures
        match r {
            Ok(()) => enroll_refusal(s@) is None,
            Err(e) => enroll_refusal(s@) == Some(e@),
        },
{
    proof {
        reveal_strlit("Recover or finish the pending transaction first");
        reveal_strlit("Configuration already enrolled; use repair or config-update");
    }
    if s.pending.is_some() {
        return Err("Recover or finish the pending transaction first".to_string());
    }
    if s.config.is_some() {
        return Err("Configuration already enrolled; use repair or config-update".to_string());
    }
    Ok(())
}

/// The enrolled configuration: the entrypoint's current content is both its
/// original and its expected content, and the selection owns it.
pub open spec fn enrolled_config(
    s: StateView,
    target: Seq<char>,
    current: SnapshotView,
    user_root: Seq<char>,
    user_files: Seq<OwnedFileView>,
    policy: Policy,
    live_reload: bool,
) -> ConfigView {
    ConfigView {
        target,
        live_reload,
        original: current,
        expected: current,
        user_root,
        user_files,
        policy,
        owner: s.selected,
        dependencies: seq![],
    }
}

/// Enrols the compositor entrypoint `target`, whose content is `current`, with
/// the frozen user settings; no file is changed and no shell is started.
pub fn enroll(
    s: &mut State,
    target: String,
    current: Snapshot,
    user_root: String,
    user_files: Vec<OwnedFile>,
    policy: Policy,
    live_reload: bool,
) -> (r: Result<(), String>)
    ensures
        enroll_refusal(old(s)@) is Some ==> (r matches Err(e) && Some(e@) == enroll_refusal(
            old(s)@,
        ) && final(s)@ == old(s)@),
        enroll_refusal(old(s)@) is None && !(current@ is File) ==> (r matches Err(e) && e@
            == not_regular_message() && final(s)@ == old(s)@),
        enroll_refusal(old(s)@) is None && current@ is File ==> (r is Ok && final(s)@
            == (StateView {
            config: Some(
                enrolled_config(
                    old(s)@,
                    target@,
                    current@,
                    user_root@,
                    user_files.deep_view(),
                    policy,
                    live_reload,
                ),
            ),
            last_event: enrolled_message(),
            ..old(s)@
        })),
{
    enrollable(s)?;
    if let Err(e) = crate::ownership::bytes(&current) {
        return Err(e);
    }
    let cfg = Config {
        target,
        live_reload,
        original: current.duplicate(),
        expected: current,
        user_root,
        user_files,
        policy,
        owner: duplicate_option(&s.selected),
        dependencies: Vec::new(),
    };
    s.config = Some(cfg);
    proof {
        reveal_strlit("Niri config enrolled and snapshotted; no entrypoint or shell was changed");
    }
    s.last_event = "Niri config enrolled and snapshotted; no entrypoint or shell was changed".to_string();
    assert(s@.config->0.dependencies =~= Seq::<OwnedFileView>::empty());
    Ok(())
}

// ------------------------------------------------------------ user settings

pub open spec fn update_pending_message() -> Seq<char> {
    "Finish the switch before changing user settings"@
}

pub open spec fn not_enrolled_message() -> Seq<char> {
    "Enroll a configuration first"@
}

pub open spec fn settings_imported_message() -> Seq<char> {
    "User settings imported with explicit precedence; shell selection unchanged"@
}

/// Why user settings cannot be imported now.
pub open spec fn update_refusal(s: StateView, d: Seq<FileReadView>) -> Option<Seq<char>> {
    if s.pending is Some {
        Some(update_pending_message())
    } else if crate::control::config_failure(s, d) is Some {
        crate::control::config_failure(s, d)
    } else if s.config is None {
        Some(not_enrolled_message())
    } else {
        None
    }
}

/// Checks that user settings may be imported and hands out the enrolled
/// configuration they will be imported into.
pub fn update_config(s: &State, disk: &Disk) -> (r: Result<Config, String>)
    ensures
        match r {
            Ok(c) => update_refusal(s@, disk@) is None && Some(c@) == s@.config,
            Err(e) => update_refusal(s@, disk@) == Some(e@),
        },
{
    proof {
        reveal_strlit("Finish the switch before changing user settings");
        reveal_strlit("Enroll a configuration first");
    }
    if s.pending.is_some() {
        return Err("Finish the switch before changing user settings".to_string());
    }
    crate::control::check_config(s, disk)?;
    match &s.config {
        Some(c) => Ok(c.duplicate()),
        None => Err("Enroll a configuration first".to_string()),
    }
}

/// The configuration with newly frozen user settings and precedence.
pub open spec fn with_user_settings(
    c: ConfigView,
    user_root: Seq<char>,
    user_files: Seq<OwnedFileView>,
    policy: Policy,
) -> ConfigView {
    ConfigView { user_root, user_files, policy, ..c }
}

/// Takes over the frozen user settings and their precedence.
pub fn set_user_settings(
    c: &mut Config,
    user_root: String,
    user_files: Vec<OwnedFile>,
    policy: Policy,
)
    ensures
        final(c)@ == with_user_settings(old(c)@, user_root@, user_files.deep_view(), policy),
{
    c.user_root = user_root;
    c.user_files = user_files;
    c.policy = policy;
}

/// The shell whose fragment the configuration composes: the running instance
/// when it is the selected one, otherwise the selected registration.
pub open spec fn composing_shell(s: StateView) -> Option<CandidateView> {
    if s.active is Some && s.selected == Some(s.active->0.candidate.id) {
        Some(s.active->0.candidate)
    } else if s.selected is Some {
        registered(s, s.selected->0)
    } else {
        None
    }
}

/// Picks the shell whose fragment the configuration composes.
pub fn config_candidate(s: &State) -> (r: Option<&Candidate>)
    ensures
        r.deep_view() == composing_shell(s@),
{
    if let Some(a) = &s.active {
        if let Some(sel) = &s.selected {
            if same(sel.as_str(), a.candidate.id.as_str()) {
                return Some(&a.candidate);
            }
        }
    }
    match &s.selected {
        Some(id) => s.registration(id.as_str()),
        None => None,
    }
}

/// The configuration after composition: its new expected content and
/// dependencies, owned by the selection.
pub open spec fn composed_config(
    c: ConfigView,
    expected: SnapshotView,
    dependencies: Seq<OwnedFileView>,
    owner: Option<Seq<char>>,
) -> ConfigView {
    ConfigView { expected, dependencies, owner, ..c }
}

/// Records the composed entrypoint and returns the change that writes it over
/// `before`, what the entrypoint holds now.
pub fn compose_into(
    c: &mut Config,
    expected: Snapshot,
    dependencies: Vec<OwnedFile>,
    owner: Option<String>,
    before: Snapshot,
) -> (r: Change)
    ensures
        final(c)@ == composed_config(old(c)@, expected@, dependencies.deep_view(), owner.deep_view()),
        r@ == (ChangeView { path: old(c)@.target, before: before@, after: expected@ }),
{
    let change = Change { path: c.target.clone(), before, after: expected.duplicate() };
    c.expected = expected;
    c.dependencies = dependencies;
    c.owner = owner;
    change
}

// ------------------------------------------------------------ repair

pub open spec fn repair_pending_message() -> Seq<char> {
    "Recover the pending switch before repairing drift"@
}

pub open spec fn entrypoint_owner() -> Seq<char> {
    "niri-entrypoint"@
}

/// The frozen files that the registrations declare, in registry order.
pub open spec fn frozen_of(inst: Seq<CandidateView>) -> Seq<OwnedFileView>
    decreases inst.len(),
{
    if inst.len() == 0 {
        seq![]
    } else {
        frozen_of(inst.drop_last()) + match inst.last().lifecycle {
            Some(l) => l.frozen,
            None => seq![],
        }
    }
}

/// Every file in the saved ownership scope: protections, the enrolled user
/// settings, dependencies and entrypoint, and each registration's frozen files.
pub open spec fn repair_scope(s: StateView) -> Seq<OwnedFileView> {
    s.protections + match s.config {
        Some(c) => c.user_files + c.dependencies + seq![
            OwnedFileView {
                path: c.target,
                original: c.original,
                expected: c.expected,
                owner: entrypoint_owner(),
            },
        ],
        None => seq![],
    } + frozen_of(s.installed)
}

/// Index of the first file for `p` in `fs`, or -1.
pub open spec fn path_index(fs: Seq<OwnedFileView>, p: Seq<char>) -> int
    decreases fs.len(),
{
    if fs.len() == 0 {
        -1
    } else {
        let r = path_index(fs.drop_last(), p);
        if r >= 0 {
            r
        } else if fs.last().path == p {
            fs.len() - 1
        } else {
            -1
        }
    }
}

proof fn lemma_path_index(fs: Seq<OwnedFileView>, p: Seq<char>)
    ensures
        -1 <= path_index(fs, p) < fs.len(),
        path_index(fs, p) >= 0 ==> fs[path_index(fs, p)].path == p,
        forall|j: int|
            0 <= j < fs.len() && (path_index(fs, p) < 0 || j < path_index(fs, p)) ==> fs[j].path
                != p,
    decreases fs.len(),
{
    if fs.len() > 0 {
        lemma_path_index(fs.drop_last(), p);
        assert forall|j: int| 0 <= j < fs.len() - 1 implies fs.drop_last()[j] == fs[j] by {}
    }
}

/// One entry per path, where the path first occurs, holding the last entry
/// given for it: later declarations of a path override earlier ones.
pub open spec fn by_path(fs: Seq<OwnedFileView>) -> Seq<OwnedFileView>
    decreases fs.len(),
{
    if fs.len() == 0 {
        fs
    } else {
        let r = by_path(fs.drop_last());
        let i = path_index(r, fs.last().path);
        if i < 0 {
            r.push(fs.last())
        } else {
            r.update(i, fs.last())
        }
    }
}

/// The files whose content differs from what they must hold, as changes back
/// to it, in order; the first failed read stops it.
pub open spec fn drift(d: Seq<FileReadView>, fs: Seq<OwnedFileView>) -> Result<
    Seq<ChangeView>,
    Seq<char>,
>
    decreases fs.len(),
{
    if fs.len() == 0 {
        Ok(seq![])
    } else {
        match drift(d, fs.drop_last()) {
            Err(e) => Err(e),
            Ok(cs) => {
                let f = fs.last();
                match observed(d, f.path) {
                    Err(e) => Err(e),
                    Ok(a) => if a == f.expected {
                        Ok(cs)
                    } else {
                        Ok(cs.push(ChangeView { path: f.path, before: a, after: f.expected }))
                    },
                }
            },
        }
    }
}

/// What repairing drift changes in the saved ownership scope.
pub open spec fn repair_plan(s: StateView, d: Seq<FileReadView>) -> Result<
    Seq<ChangeView>,
    Seq<char>,
> {
    if s.pending is Some {
        Err(repair_pending_message())
    } else {
        drift(d, by_path(repair_scope(s)))
    }
}

/// Appends the frozen files of every registration.
fn push_frozen(out: &mut Vec<OwnedFile>, inst: &Vec<Candidate>)
    ensures
        final(out).deep_view() == old(out).deep_view() + frozen_of(inst.deep_view()),
{
    let mut i: usize = 0;
    while i < inst.len()
        invariant
            i <= inst.len(),
            out.deep_view() == old(out).deep_view() + frozen_of(inst.deep_view().take(i as int)),
        decreases inst.len() - i,
    {
        let ghost t = inst.deep_view().take(i + 1);
        assert(t.drop_last() =~= inst.deep_view().take(i as int));
        assert(t.last() == inst@[i as int]@);
        let ghost before = out.deep_view();
        let ghost x = match inst@[i as int]@.lifecycle {
            Some(l) => l.frozen,
            None => seq![],
        };
        if let Some(l) = &inst[i].lifecycle {
            let mut j: usize = 0;
            while j < l.frozen.len()
                invariant
                    j <= l.frozen.len(),
                    out.deep_view() == before + l.frozen.deep_view().take(j as int),
                decreases l.frozen.len() - j,
            {
                let ghost b = out.deep_view();
                out.push(l.frozen[j].duplicate());
                assert(out.deep_view() =~= b.push(l.frozen@[j as int]@));
                assert(l.frozen.deep_view().take(j + 1) =~= l.frozen.deep_view().take(
                    j as int,
                ).push(l.frozen@[j as int]@));
                j += 1;
            }
            assert(l.frozen.deep_view().take(j as int) =~= l.frozen.deep_view());
            assert(out.deep_view() =~= before + x);
        } else {
            assert(out.deep_view() =~= before + x);
        }
        assert(frozen_of(t) == frozen_of(inst.deep_view().take(i as int)) + x);
        assert(old(out).deep_view() + frozen_of(inst.deep_view().take(i as int)) + x
            =~= old(out).deep_view() + frozen_of(t));
        i += 1;
    }
    assert(inst.deep_view().take(i as int) =~= inst.deep_view());
}

/// Gathers the saved ownership scope, one entry per path.
pub fn repair_files(s: &State) -> (r: Vec<OwnedFile>)
    ensures
        r.deep_view() == by_path(repair_scope(s@)),
{
    let mut all = duplicate_vec(&s.protections);
    if let Some(c) = &s.config {
        let ghost b0 = all.deep_view();
        let mut u = duplicate_vec(&c.user_files);
        all.append(&mut u);
        let mut dd = duplicate_vec(&c.dependencies);
        all.append(&mut dd);
        all.push(
            OwnedFile {
                path: c.target.clone(),
                original: c.original.duplicate(),
                expected: c.expected.duplicate(),
                owner: "niri-entrypoint".to_string(),
            },
        );
        proof {
            reveal_strlit("niri-entrypoint");
        }
        assert(all.deep_view() =~= b0 + (c@.user_files + c@.dependencies + seq![
            OwnedFileView {
                path: c@.target,
                original: c@.original,
                expected: c@.expected,
                owner: entrypoint_owner(),
            },
        ]));
    } else {
        assert(all.deep_view() =~= s@.protections + Seq::<OwnedFileView>::empty());
    }
    push_frozen(&mut all, &s.installed);
    assert(all.deep_view() =~= repair_scope(s@));
    dedup_by_path(&all)
}

/// One entry per path, the last given for it, where the path first occurs.
pub fn dedup_by_path(fs: &Vec<OwnedFile>) -> (r: Vec<OwnedFile>)
    ensures
        r.deep_view() == by_path(fs.deep_view()),
{
    let mut out: Vec<OwnedFile> = Vec::new();
    let mut i: usize = 0;
    while i < fs.len()
        invariant
            i <= fs.len(),
            out.deep_view() == by_path(fs.deep_view().take(i as int)),
        decreases fs.len() - i,
    {
        let ghost t = fs.deep_view().take(i + 1);
        assert(t.drop_last() =~= fs.deep_view().take(i as int));
        assert(t.last() == fs@[i as int]@);
        let f = &fs[i];
        proof {
            lemma_path_index(out.deep_view(), f@.path);
        }
        let mut j: usize = 0;
        while j < out.len()
            invariant_except_break
                j <= out.len(),
                forall|k: int| 0 <= k < j ==> out.deep_view()[k].path != f@.path,
            ensures
                j <= out.len(),
                forall|k: int| 0 <= k < j ==> out.deep_view()[k].path != f@.path,
                j < out.len() ==> out.deep_view()[j as int].path == f@.path,
            decreases out.len() - j,
        {
            if same(out[j].path.as_str(), f.path.as_str()) {
                break;
            }
            j += 1;
        }
        let ghost before = out.deep_view();
        if j < out.len() {
            assert(out.deep_view()[j as int].path == f@.path);
            assert(path_index(before, f@.path) == j);
            out.set(j, f.duplicate());
            assert(out.deep_view() =~= before.update(j as int, f@));
        } else {
            assert(path_index(before, f@.path) < 0);
            out.push(f.duplicate());
            assert(out.deep_view() =~= before.push(f@));
        }
        i += 1;
    }
    assert(fs.deep_view().take(i as int) =~= fs.deep_view());
    out
}

/// The changes that put every drifted file back to what it must hold.
pub fn drift_changes(fs: &Vec<OwnedFile>, disk: &Disk) -> (r: Result<Vec<Change>, String>)
    ensures
        match (r, drift(disk@, fs.deep_view())) {
            (Ok(a), Ok(b)) => a.deep_view() == b,
            (Err(a), Err(b)) => a@ == b,
            _ => false,
        },
{
    let mut out: Vec<Change> = Vec::new();
    let mut err: Option<String> = None;
    let mut i: usize = 0;
    while i < fs.len()
        invariant
            i <= fs.len(),
            match (err, drift(disk@, fs.deep_view().take(i as int))) {
                (None, Ok(b)) => out.deep_view() == b,
                (Some(a), Err(b)) => a@ == b,
                _ => false,
            },
        decreases fs.len() - i,
    {
        let ghost t = fs.deep_view().take(i + 1);
        assert(t.drop_last() =~= fs.deep_view().take(i as int));
        assert(t.last() == fs@[i as int]@);
        if err.is_none() {
            let f = &fs[i];
            match disk.lookup(&f.path) {
                Err(e) => {
                    err = Some(e);
                },
                Ok(a) => {
                    if !snapshot_eq(&a, &f.expected) {
                        let ghost before = out.deep_view();
                        out.push(Change { path: f.path.clone(), before: a, after: f.expected.duplicate() });
                        assert(out.deep_view() =~= before.push(
                            ChangeView { path: f@.path, before: a@, after: f@.expected },
                        ));
                    }
                },
            }
        }
        i += 1;
    }
    assert(fs.deep_view().take(i as int) =~= fs.deep_view());
    match err {
        None => Ok(out),
        Some(e) => Err(e),
    }
}

/// What repairing drift must change: every file of the saved ownership scope
/// whose content differs, back to what it must hold. Refused while a switch is
/// pending.
pub fn repair(s: &State, disk: &Disk) -> (r: Result<Vec<Change>, String>)
    ensures
        match (r, repair_plan(s@, disk@)) {
            (Ok(a), Ok(b)) => a.deep_view() == b,
            (Err(a), Err(b)) => a@ == b,
            _ => false,
        },
{
    if s.pending.is_some() {
        proof {
            reveal_strlit("Recover the pending switch before repairing drift");
        }
        return Err("Recover the pending switch before repairing drift".to_string());
    }
    let files = repair_files(s);
    drift_changes(&files, disk)
}

// ------------------------------------------------------------ supervised commands

/// Retires the supervised gated commands once each was stopped.
pub fn stop_commands(s: &mut State) -> (r: Vec<Running>)
    ensures
        r.deep_view() == old(s)@.commands,
        final(s)@ == (StateView { commands: seq![], ..old(s)@ }),
{
    let mut out: Vec<Running> = Vec::new();
    std::mem::swap(&mut out, &mut s.commands);
    assert(s.commands.deep_view() =~= Seq::<RunningView>::empty());
    out
}

/// The paths of `by_path(fs)` are distinct.
proof fn lemma_by_path_distinct(fs: Seq<OwnedFileView>)
    ensures
        forall|i: int, j: int|
            0 <= i < j < by_path(fs).len() ==> by_path(fs)[i].path != by_path(fs)[j].path,
    decreases fs.len(),
{
    if fs.len() > 0 {
        let r = by_path(fs.drop_last());
        lemma_by_path_distinct(fs.drop_last());
        lemma_path_index(r, fs.last().path);
    }
}

/// Putting back the drift of files with distinct paths succeeds, leaves each of
/// them with what it must hold, and touches no other path.
proof fn lemma_drift_repairs(d: Seq<FileReadView>, fs: Seq<OwnedFileView>)
    requires
        forall|i: int, j: int| 0 <= i < j < fs.len() ==> fs[i].path != fs[j].path,
        drift(d, fs) is Ok,
    ensures
        applied_steps(d, drift(d, fs)->Ok_0).1 is None,
        forall|k: int|
            0 <= k < fs.len() ==> current(d, applied_steps(d, drift(d, fs)->Ok_0).0, #[trigger] fs[k].path)
                == Ok::<SnapshotView, Seq<char>>(fs[k].expected),
        forall|q: Seq<char>|
            (forall|k: int| 0 <= k < fs.len() ==> #[trigger] fs[k].path != q) ==> current(
                d,
                applied_steps(d, drift(d, fs)->Ok_0).0,
                q,
            ) == observed(d, q),
    decreases fs.len(),
{
    if fs.len() > 0 {
        let fs0 = fs.drop_last();
        let f = fs.last();
        lemma_drift_repairs(d, fs0);
        let cs0 = drift(d, fs0)->Ok_0;
        let w0 = applied_steps(d, cs0).0;
        assert forall|k: int| 0 <= k < fs0.len() implies #[trigger] fs0[k].path != f.path by {
            assert(fs0[k] == fs[k]);
        }
        assert(current(d, w0, f.path) == observed(d, f.path));
        let cs = drift(d, fs)->Ok_0;
        let w = applied_steps(d, cs).0;
        let a = observed(d, f.path)->Ok_0;
        if a != f.expected {
            let c = ChangeView { path: f.path, before: a, after: f.expected };
            assert(cs == cs0.push(c));
            assert(cs.drop_last() =~= cs0);
            assert(w == w0.push(FileStepView::Write { path: f.path, content: f.expected }));
            assert forall|q: Seq<char>| #[trigger] current(d, w, q) == (if q == f.path {
                Ok::<SnapshotView, Seq<char>>(f.expected)
            } else {
                current(d, w0, q)
            }) by {
                assert(w.drop_last() =~= w0);
            }
        }
        assert forall|k: int|
            0 <= k < fs.len() implies current(d, w, #[trigger] fs[k].path) == Ok::<
                SnapshotView,
                Seq<char>,
            >(fs[k].expected) by {
            if k < fs.len() - 1 {
                assert(fs0[k] == fs[k]);
            }
        }
        assert forall|q: Seq<char>|
            (forall|k: int| 0 <= k < fs.len() ==> #[trigger] fs[k].path != q) implies current(
                d,
                w,
                q,
            ) == observed(d, q) by {
            assert forall|k: int| 0 <= k < fs0.len() implies #[trigger] fs0[k].path != q by {
                assert(fs0[k] == fs[k]);
            }
            assert(fs[fs.len() - 1].path != q);
        }
    }
}

/// Repairing drift restores saved ownership: the repair changes apply cleanly
/// to what was observed, and afterwards every path of the saved scope holds
/// what it must hold.
pub proof fn law_repair_clears_drift(s: StateView, d: Seq<FileReadView>)
    requires
        repair_plan(s, d) is Ok,
    ensures
        applied_steps(d, repair_plan(s, d)->Ok_0).1 is None,
        forall|k: int|
            0 <= k < by_path(repair_scope(s)).len() ==> current(
                d,
                applied_steps(d, repair_plan(s, d)->Ok_0).0,
                #[trigger] by_path(repair_scope(s))[k].path,
            ) == Ok::<SnapshotView, Seq<char>>(by_path(repair_scope(s))[k].expected),
{
    lemma_by_path_distinct(repair_scope(s));
    lemma_drift_repairs(d, by_path(repair_scope(s)));
}

// ------------------------------------------------------------ protection

pub open spec fn protect_pending_message() -> Seq<char> {
    "Pending transaction; recover first"@
}

pub open spec fn protected_message() -> Seq<char> {
    "CLI/autostart/service protections installed; no shell was started"@
}

/// Why the startup protections cannot be (re)installed now: a pending switch,
/// or drift of the protections already installed.
pub open spec fn protect_refusal(s: StateView, d: Seq<FileReadView>) -> Option<Seq<char>> {
    if s.pending is Some {
        Some(protect_pending_message())
    } else {
        crate::control::first_failure(d, s.protections)
    }
}

/// Checks that the startup protections may be installed; the plan comes from
/// `protection_plan` and is applied as a file transaction.
pub fn protect(s: &State, disk: &Disk) -> (r: Result<(), String>)
    ensures
        match r {
            Ok(()) => protect_refusal(s@, disk@) is None,
            Err(e) => protect_refusal(s@, disk@) == Some(e@),
        },
{
    if s.pending.is_some() {
        proof {
            reveal_strlit("Pending transaction; recover first");
        }
        return Err("Pending transaction; recover first".to_string());
    }
    crate::control::verify_all(&s.protections, disk)
}

/// Records the installed protections; no shell is started.
pub fn protections_installed(s: &mut State, files: Vec<OwnedFile>)
    ensures
        final(s)@ == (StateView {
            protections: files.deep_view(),
            last_event: protected_message(),
            ..old(s)@
        }),
{
    s.protections = files;
    proof {
        reveal_strlit("CLI/autostart/service protections installed; no shell was started");
    }
    s.last_event = "CLI/autostart/service protections installed; no shell was started".to_string();
}

} // verus!

verus! {

// ------------------------------------------------------------ imported settings

/// The state once imported user settings are in place.
pub open spec fn settings_imported(s: StateView, c: ConfigView) -> StateView {
    StateView { config: Some(c), last_event: settings_imported_message(), ..s }
}

/// Puts the configuration with imported user settings in place; nothing else changes.
pub fn import_settings(s: &mut State, c: Config)
    ensures
        final(s)@ == settings_imported(old(s)@, c@),
{
    s.config = Some(c);
    proof {
        reveal_strlit("User settings imported with explicit precedence; shell selection unchanged");
    }
    s.last_event = "User settings imported with explicit precedence; shell selection unchanged".to_string();
}

/// Importing user settings replaces only the configuration: the enrolled
/// entrypoint keeps its target, takes the new user tree, files and policy,
/// the composed entrypoint and its dependencies, and is owned by the current
/// selection; selection, running instance, protections, registry, holds and
/// any journal are unchanged.
pub proof fn law_settings_update(
    s0: StateView,
    d: Seq<FileReadView>,
    user_root: Seq<char>,
    user_files: Seq<OwnedFileView>,
    policy: Policy,
    expected: SnapshotView,
    dependencies: Seq<OwnedFileView>,
)
    requires
        update_refusal(s0, d) is None,
    ensures
        ({
            let c0 = s0.config->0;
            let c = composed_config(
                with_user_settings(c0, user_root, user_files, policy),
                expected,
                dependencies,
                s0.selected,
            );
            let t = settings_imported(s0, c);
            &&& s0.config is Some
            &&& t.config matches Some(n)
            &&& n.target == c0.target
            &&& n.policy == policy
            &&& n.user_root == user_root
            &&& n.user_files == user_files
            &&& n.expected == expected
            &&& n.dependencies == dependencies
            &&& n.owner == s0.selected
            &&& t.selected == s0.selected
            &&& t.active == s0.active
            &&& t.protections == s0.protections
            &&& t.installed == s0.installed
            &&& t.disabled == s0.disabled
            &&& t.pending == s0.pending
        }),
{
}

} // verus!
