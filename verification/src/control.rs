//! The durable transaction state and its transitions: plan, switch, trial,
//! commit (keep), rollback (revert), adoption and resumption.
use crate::dup::{duplicate_option, duplicate_vec, Duplicate};
use crate::model::{
    command_text, compatibility_of, Backend, BackendView, Candidate, CandidateView, Session,
    SessionView,
};
use crate::ownership::{
    snapshot_eq, verify, verify_failure, Change, ChangeView, Config, ConfigView, Disk,
    FileReadView, OwnedFile, OwnedFileView, SnapshotView, observed,
};
use crate::process::{Identity, IdentityView};
use crate::text::{append, concat, debug_numbers, debug_numbers_of, same};
use vstd::prelude::*;

verus! {

/// The shell instance this library launched or adopted.
#[derive(Debug, Clone)]
pub struct Running {
    pub candidate: Candidate,
    pub process: Option<Identity>,
    pub owned_group: bool,
    pub lease: String,
}

pub struct RunningView {
    pub candidate: CandidateView,
    pub process: Option<IdentityView>,
    pub owned_group: bool,
    pub lease: Seq<char>,
}

impl View for Running {
    type V = RunningView;

    open spec fn view(&self) -> RunningView {
        RunningView {
            candidate: self.candidate@,
            process: self.process.deep_view(),
            owned_group: self.owned_group,
            lease: self.lease@,
        }
    }
}

impl DeepView for Running {
    type V = RunningView;

    open spec fn deep_view(&self) -> RunningView {
        self@
    }
}

impl Duplicate for Running {
    fn duplicate(&self) -> (r: Self) {
        Running {
            candidate: self.candidate.duplicate(),
            process: duplicate_option(&self.process),
            owned_group: self.owned_group,
            lease: self.lease.clone(),
        }
    }
}

/// Where a switch transaction stands. Each phase is persisted before its side effects.
#[derive(Debug, Clone, Copy, PartialEq, Eq, Structural)]
pub enum Phase {
    Prepared,
    Protected,
    Stopped,
    ConfigApplied,
    Starting,
    Trial,
    Restoring,
}

/// The journal of a switch in progress: everything needed to undo it.
#[derive(Debug, Clone)]
pub struct Pending {
    pub previous: Option<Running>,
    pub target: Candidate,
    pub deadline: u64,
    pub token: String,
    pub phase: Phase,
    pub previous_selected: Option<String>,
    pub previous_config: Option<Config>,
    pub next_config: Option<Config>,
    pub previous_protections: Vec<OwnedFile>,
    pub next_protections: Vec<OwnedFile>,
    pub changes: Vec<Change>,
    pub ticket: Option<String>,
}

pub struct PendingView {
    pub previous: Option<RunningView>,
    pub target: CandidateView,
    pub deadline: u64,
    pub token: Seq<char>,
    pub phase: Phase,
    pub previous_selected: Option<Seq<char>>,
    pub previous_config: Option<ConfigView>,
    pub next_config: Option<ConfigView>,
    pub previous_protections: Seq<OwnedFileView>,
    pub next_protections: Seq<OwnedFileView>,
    pub changes: Seq<ChangeView>,
    pub ticket: Option<Seq<char>>,
}

impl View for Pending {
    type V = PendingView;

    open spec fn view(&self) -> PendingView {
        PendingView {
            previous: self.previous.deep_view(),
            target: self.target@,
            deadline: self.deadline,
            token: self.token@,
            phase: self.phase,
            previous_selected: self.previous_selected.deep_view(),
            previous_config: self.previous_config.deep_view(),
            next_config: self.next_config.deep_view(),
            previous_protections: self.previous_protections.deep_view(),
            next_protections: self.next_protections.deep_view(),
            changes: self.changes.deep_view(),
            ticket: self.ticket.deep_view(),
        }
    }
}

impl DeepView for Pending {
    type V = PendingView;

    open spec fn deep_view(&self) -> PendingView {
        self@
    }
}

impl Duplicate for Pending {
    fn duplicate(&self) -> (r: Self) {
        Pending {
            previous: duplicate_option(&self.previous),
            target: self.target.duplicate(),
            deadline: self.deadline,
            token: self.token.clone(),
            phase: self.phase,
            previous_selected: duplicate_option(&self.previous_selected),
            previous_config: duplicate_option(&self.previous_config),
            next_config: duplicate_option(&self.next_config),
            previous_protections: duplicate_vec(&self.previous_protections),
            next_protections: duplicate_vec(&self.next_protections),
            changes: duplicate_vec(&self.changes),
            ticket: duplicate_option(&self.ticket),
        }
    }
}

/// The persisted state of one ownership domain.
#[derive(Debug)]
pub struct State {
    pub schema: u32,
    pub active: Option<Running>,
    pub pending: Option<Pending>,
    pub last_event: String,
    pub selected: Option<String>,
    pub installed: Vec<Candidate>,
    pub disabled: Vec<String>,
    pub config: Option<Config>,
    pub protections: Vec<OwnedFile>,
    pub commands: Vec<Running>,
    pub generation: u64,
}

pub struct StateView {
    pub schema: u32,
    pub active: Option<RunningView>,
    pub pending: Option<PendingView>,
    pub last_event: Seq<char>,
    pub selected: Option<Seq<char>>,
    pub installed: Seq<CandidateView>,
    pub disabled: Seq<Seq<char>>,
    pub config: Option<ConfigView>,
    pub protections: Seq<OwnedFileView>,
    pub commands: Seq<RunningView>,
    pub generation: u64,
}

impl View for State {
    type V = StateView;

    open spec fn view(&self) -> StateView {
        StateView {
            schema: self.schema,
            active: self.active.deep_view(),
            pending: self.pending.deep_view(),
            last_event: self.last_event@,
            selected: self.selected.deep_view(),
            installed: self.installed.deep_view(),
            disabled: self.disabled.deep_view(),
            config: self.config.deep_view(),
            protections: self.protections.deep_view(),
            commands: self.commands.deep_view(),
            generation: self.generation,
        }
    }
}

/// Index of the first installed candidate with `id`, or -1.
pub open spec fn find_id(inst: Seq<CandidateView>, id: Seq<char>) -> int
    decreases inst.len(),
{
    if inst.len() == 0 {
        -1
    } else if inst[0].id == id {
        0
    } else {
        let r = find_id(inst.drop_first(), id);
        if r < 0 {
            -1
        } else {
            r + 1
        }
    }
}

pub proof fn lemma_find_id(inst: Seq<CandidateView>, id: Seq<char>)
    ensures
        -1 <= find_id(inst, id) < inst.len(),
        find_id(inst, id) >= 0 ==> inst[find_id(inst, id)].id == id,
        forall|j: int|
            0 <= j < inst.len() && (find_id(inst, id) < 0 || j < find_id(inst, id))
                ==> inst[j].id != id,
    decreases inst.len(),
{
    if inst.len() > 0 && inst[0].id != id {
        lemma_find_id(inst.drop_first(), id);
        assert forall|j: int| 1 <= j < inst.len() implies inst[j] == inst.drop_first()[j - 1] by {}
    }
}

/// The installed registration for `id`.
pub open spec fn registered(s: StateView, id: Seq<char>) -> Option<CandidateView> {
    let i = find_id(s.installed, id);
    if i < 0 {
        None
    } else {
        Some(s.installed[i])
    }
}

/// Registry ids are distinct and each emergency hold is recorded once.
pub open spec fn well_formed(s: StateView) -> bool {
    &&& forall|i: int, j: int|
        0 <= i < j < s.installed.len() ==> s.installed[i].id != s.installed[j].id
    &&& s.disabled.no_duplicates()
}

impl State {
    /// A fresh domain: schema 2, nothing selected, installed or held.
    pub fn new() -> (s: State)
        ensures
            s@.schema == 2,
            s@.active is None,
            s@.pending is None,
            s@.last_event.len() == 0,
            s@.selected is None,
            s@.installed.len() == 0,
            s@.disabled.len() == 0,
            s@.config is None,
            s@.protections.len() == 0,
            s@.commands.len() == 0,
            s@.generation == 0,
            well_formed(s@),
    {
        State {
            schema: 2,
            active: None,
            pending: None,
            last_event: String::new(),
            selected: None,
            installed: Vec::new(),
            disabled: Vec::new(),
            config: None,
            protections: Vec::new(),
            commands: Vec::new(),
            generation: 0,
        }
    }

    /// The installed registration for `id`.
    pub fn registration(&self, id: &str) -> (r: Option<&Candidate>)
        ensures
            match r {
                None => registered(self@, id@) is None,
                Some(c) => registered(self@, id@) == Some(c@),
            },
    {
        proof {
            lemma_find_id(self@.installed, id@);
        }
        let mut i: usize = 0;
        while i < self.installed.len()
            invariant
                i <= self.installed.len(),
                self@.installed.len() == self.installed.len(),
                forall|j: int| 0 <= j < i ==> self@.installed[j].id != id@,
                -1 <= find_id(self@.installed, id@) < self@.installed.len(),
                find_id(self@.installed, id@) >= 0 ==> self@.installed[find_id(
                    self@.installed,
                    id@,
                )].id == id@,
                forall|j: int|
                    0 <= j < self@.installed.len() && (find_id(self@.installed, id@) < 0 || j
                        < find_id(self@.installed, id@)) ==> self@.installed[j].id != id@,
            decreases self.installed.len() - i,
        {
            assert(self@.installed[i as int] == self.installed@[i as int]@);
            if same(self.installed[i].id.as_str(), id) {
                assert(find_id(self@.installed, id@) == i);
                return Some(&self.installed[i]);
            }
            i += 1;
        }
        None
    }

    /// Does `id` carry an emergency hold?
    pub fn is_held(&self, id: &str) -> (r: bool)
        ensures
            r == self@.disabled.contains(id@),
    {
        crate::text::contains_string(&self.disabled, id)
    }
}

// ------------------------------------------------------------ health

/// Health of a recorded shell instance, given what was observed: whether its
/// exact process is still alive, and whether its user unit reports active.
pub open spec fn healthy_from(r: RunningView, process_alive: bool, unit_active: bool) -> bool {
    match r.candidate.backend {
        BackendView::Process { .. } => r.process is Some && process_alive,
        BackendView::Systemd { .. } => unit_active,
        BackendView::Review { .. } => false,
    }
}

/// Is the recorded instance healthy? `process_alive` is whether its recorded
/// process identity is alive; `unit_active` whether `systemctl --user is-active`
/// succeeded for its unit.
pub fn healthy(r: &Running, process_alive: bool, unit_active: bool) -> (h: bool)
    ensures
        h == healthy_from(r@, process_alive, unit_active),
{
    match &r.candidate.backend {
        Backend::Process { .. } => r.process.is_some() && process_alive,
        Backend::Systemd { .. } => unit_active,
        Backend::Review { .. } => false,
    }
}

/// Seconds since the Unix epoch; `SystemTime::now`.
#[verifier::external_body]
fn clock_seconds() -> u64 {
    std::time::SystemTime::now()
        .duration_since(std::time::UNIX_EPOCH)
        .unwrap_or_default()
        .as_secs()
}

/// The current time in whole seconds since the Unix epoch (0 before the epoch).
/// The value comes from the system clock; nothing is stated of it.
pub fn now() -> u64 {
    clock_seconds()
}

// ------------------------------------------------------------ config checks

pub open spec fn config_drift_message(p: Seq<char>) -> Seq<char> {
    "Niri configuration ownership drift at "@ + p + "; run doctor, then repair --yes"@
}

/// The first verification failure among `files`.
pub open spec fn first_failure(d: Seq<FileReadView>, files: Seq<OwnedFileView>) -> Option<
    Seq<char>,
>
    decreases files.len(),
{
    if files.len() == 0 {
        None
    } else {
        match verify_failure(d, files[0]) {
            Some(e) => Some(e),
            None => first_failure(d, files.drop_first()),
        }
    }
}

pub proof fn lemma_first_failure(d: Seq<FileReadView>, files: Seq<OwnedFileView>, k: int)
    requires
        0 <= k <= files.len(),
        forall|j: int| 0 <= j < k ==> verify_failure(d, #[trigger] files[j]) is None,
    ensures
        k < files.len() ==> first_failure(d, files) == (match verify_failure(d, files[k]) {
            Some(e) => Some(e),
            None => first_failure(d, files.skip(k + 1)),
        }),
        k == files.len() ==> first_failure(d, files) is None,
    decreases k,
{
    if k > 0 {
        assert(verify_failure(d, files[0]) is None);
        let t = files.drop_first();
        assert forall|j: int| 0 <= j < k - 1 implies verify_failure(d, #[trigger] t[j]) is None by {
            assert(t[j] == files[j + 1]);
        }
        lemma_first_failure(d, t, k - 1);
        if k < files.len() {
            assert(t[k - 1] == files[k]);
            assert(t.skip(k) =~= files.skip(k + 1));
        }
    }
}

/// `verify` as a value: the first failure, or none.
pub fn verify_all(files: &Vec<OwnedFile>, disk: &Disk) -> (r: Result<(), String>)
    ensures
        match r {
            Ok(()) => first_failure(disk@, files.deep_view()) is None,
            Err(e) => first_failure(disk@, files.deep_view()) == Some(e@),
        },
{
    let r = verify(files, disk);
    proof {
        let fs = files.deep_view();
        match &r {
            Ok(()) => {
                assert forall|j: int| 0 <= j < fs.len() implies verify_failure(
                    disk@,
                    #[trigger] fs[j],
                ) is None by {
                    assert(fs[j] == files@[j]@);
                }
                lemma_first_failure(disk@, fs, fs.len() as int);
            },
            Err(e) => {
                let k = choose|k: int|
                    0 <= k < files@.len() && verify_failure(disk@, #[trigger] files@[k]@) == Some(
                        e@,
                    ) && forall|j: int|
                        0 <= j < k ==> verify_failure(disk@, #[trigger] files@[j]@) is None;
                assert forall|j: int| 0 <= j < k implies verify_failure(
                    disk@,
                    #[trigger] fs[j],
                ) is None by {
                    assert(fs[j] == files@[j]@);
                }
                assert(fs[k] == files@[k]@);
                lemma_first_failure(disk@, fs, k);
            },
        }
    }
    r
}

/// Why the saved ownership no longer matches the disk, if it does not.
pub open spec fn config_failure(s: StateView, d: Seq<FileReadView>) -> Option<Seq<char>> {
    match first_failure(d, s.protections) {
        Some(e) => Some(e),
        None => match s.config {
            None => None,
            Some(c) => match observed(d, c.target) {
                Err(e) => Some(e),
                Ok(actual) => if actual != c.expected {
                    Some(config_drift_message(c.target))
                } else {
                    match first_failure(d, c.user_files) {
                        Some(e) => Some(e),
                        None => first_failure(d, c.dependencies),
                    }
                },
            },
        },
    }
}

/// Protections, the composed entrypoint, user files and dependencies all hold
/// their saved content.
pub fn check_config(s: &State, disk: &Disk) -> (r: Result<(), String>)
    ensures
        match r {
            Ok(()) => config_failure(s@, disk@) is None,
            Err(e) => config_failure(s@, disk@) == Some(e@),
        },
{
    verify_all(&s.protections, disk)?;
    if let Some(c) = &s.config {
        let actual = disk.lookup(&c.target)?;
        if !snapshot_eq(&actual, &c.expected) {
            let m = concat("Niri configuration ownership drift at ", c.target.as_str());
            proof {
                reveal_strlit("Niri configuration ownership drift at ");
                reveal_strlit("; run doctor, then repair --yes");
            }
            return Err(concat(m.as_str(), "; run doctor, then repair --yes"));
        }
        verify_all(&c.user_files, disk)?;
        verify_all(&c.dependencies, disk)?;
    }
    Ok(())
}

// ------------------------------------------------------------ plan

pub open spec fn pending_message() -> Seq<char> {
    "A transaction is pending: keep, revert, or recover it first"@
}

pub open spec fn held_message(c: CandidateView) -> Seq<char> {
    c.name + " is emergency-disabled. Run release "@ + c.id + " --yes before selecting it"@
}

pub open spec fn unenrolled_message() -> Seq<char> {
    "Configuration ownership is not enrolled. Enroll the current Niri config first; otherwise its existing spawn-at-startup entries can resurrect the previous shell"@
}

pub open spec fn unmanaged_active_message() -> Seq<char> {
    "The currently running shell is unmanaged. Register its lifecycle adapter before switching so its supervisor and respawn paths can be stopped"@
}

pub open spec fn already_active_message() -> Seq<char> {
    "Already active; stage an update before switching to a new revision"@
}

/// The switch sequence shown before a trial.
pub open spec fn plan_text(s: StateView, c: CandidateView) -> Seq<char> {
    "1. Snapshot configuration, ownership and selected shell: "@ + (match s.selected {
        Some(x) => x,
        None => "none"@,
    }) + "\n2. Stage destination; validate Niri and explicit conflict policy\n3. Gate inactive CLI/autostart/service sources\n4. Stop only owned processes; apply validated configuration\n5. Start "@
        + c.name
        + " and verify process/adapter health\n6. Keep within 20 seconds or restore prior configuration and shell\n\n"@
        + command_text(c.backend) + "\nVisual usability still needs your confirmation."@
}

/// Why a switch to `c` is refused, in the order the checks run. `guard` is the
/// outcome of the launch guard (executable, working directory and unit checks),
/// `active_healthy` whether the active instance is healthy.
pub open spec fn plan_refusal(
    c: CandidateView,
    session: SessionView,
    s: StateView,
    guard: Result<(), Seq<char>>,
    active_healthy: bool,
    d: Seq<FileReadView>,
) -> Option<Seq<char>> {
    if compatibility_of(session, c) is Err {
        Some(compatibility_of(session, c)->Err_0)
    } else if guard is Err {
        Some(guard->Err_0)
    } else if s.pending is Some {
        Some(pending_message())
    } else if s.disabled.contains(c.id) {
        Some(held_message(c))
    } else if s.config is None {
        Some(unenrolled_message())
    } else if s.active is Some && s.active->0.candidate.id != c.id
        && s.active->0.candidate.lifecycle is None {
        Some(unmanaged_active_message())
    } else if s.active is Some && s.active->0.candidate.id == c.id && s.active->0.candidate.source
        == c.source && active_healthy {
        Some(already_active_message())
    } else {
        config_failure(s, d)
    }
}

/// Checks that switching to `c` may start and describes the sequence.
pub fn plan(
    c: &Candidate,
    session: &Session,
    s: &State,
    guard: Result<(), String>,
    active_healthy: bool,
    disk: &Disk,
) -> (r: Result<String, String>)
    ensures
        match r {
            Ok(t) => plan_refusal(
                c@,
                session@,
                s@,
                match guard {
                    Ok(()) => Ok(()),
                    Err(e) => Err(e@),
                },
                active_healthy,
                disk@,
            ) is None && t@ == plan_text(s@, c@),
            Err(e) => plan_refusal(
                c@,
                session@,
                s@,
                match guard {
                    Ok(()) => Ok(()),
                    Err(e) => Err(e@),
                },
                active_healthy,
                disk@,
            ) == Some(e@),
        },
{
    proof {
        reveal_strlit("A transaction is pending: keep, revert, or recover it first");
        reveal_strlit(" is emergency-disabled. Run release ");
        reveal_strlit(" --yes before selecting it");
        reveal_strlit("Configuration ownership is not enrolled. Enroll the current Niri config first; otherwise its existing spawn-at-startup entries can resurrect the previous shell");
        reveal_strlit("The currently running shell is unmanaged. Register its lifecycle adapter before switching so its supervisor and respawn paths can be stopped");
        reveal_strlit("Already active; stage an update before switching to a new revision");
    }
    session.compatibility(c)?;
    guard?;
    if s.pending.is_some() {
        return Err("A transaction is pending: keep, revert, or recover it first".to_string());
    }
    if s.is_held(c.id.as_str()) {
        let mut m = concat(c.name.as_str(), " is emergency-disabled. Run release ");
        append(&mut m, c.id.as_str());
        append(&mut m, " --yes before selecting it");
        return Err(m);
    }
    if s.config.is_none() {
        return Err(
            "Configuration ownership is not enrolled. Enroll the current Niri config first; otherwise its existing spawn-at-startup entries can resurrect the previous shell".to_string(),
        );
    }
    if let Some(active) = &s.active {
        if !same(active.candidate.id.as_str(), c.id.as_str()) && active.candidate.lifecycle.is_none() {
            return Err(
                "The currently running shell is unmanaged. Register its lifecycle adapter before switching so its supervisor and respawn paths can be stopped".to_string(),
            );
        }
        if same(active.candidate.id.as_str(), c.id.as_str()) && same(
            active.candidate.source.as_str(),
            c.source.as_str(),
        ) && active_healthy {
            return Err("Already active; stage an update before switching to a new revision".to_string());
        }
    }
    check_config(s, disk)?;
    Ok(plan_description(s, c))
}

fn plan_description(s: &State, c: &Candidate) -> (r: String)
    ensures
        r@ == plan_text(s@, c@),
{
    proof {
        reveal_strlit("1. Snapshot configuration, ownership and selected shell: ");
        reveal_strlit("none");
        reveal_strlit("\n2. Stage destination; validate Niri and explicit conflict policy\n3. Gate inactive CLI/autostart/service sources\n4. Stop only owned processes; apply validated configuration\n5. Start ");
        reveal_strlit(" and verify process/adapter health\n6. Keep within 20 seconds or restore prior configuration and shell\n\n");
        reveal_strlit("\nVisual usability still needs your confirmation.");
    }
    let mut t = "1. Snapshot configuration, ownership and selected shell: ".to_string();
    match &s.selected {
        Some(x) => append(&mut t, x.as_str()),
        None => append(&mut t, "none"),
    }
    append(
        &mut t,
        "\n2. Stage destination; validate Niri and explicit conflict policy\n3. Gate inactive CLI/autostart/service sources\n4. Stop only owned processes; apply validated configuration\n5. Start ",
    );
    append(&mut t, c.name.as_str());
    append(
        &mut t,
        " and verify process/adapter health\n6. Keep within 20 seconds or restore prior configuration and shell\n\n",
    );
    let cmd = c.command();
    append(&mut t, cmd.as_str());
    append(&mut t, "\nVisual usability still needs your confirmation.");
    t
}

} // verus!

verus! {

// ------------------------------------------------------------ switch

pub open spec fn unmanaged_message(x: CandidateView) -> Seq<char> {
    "Unmanaged shell "@ + x.name + " "@ + debug_numbers(x.running_pids)
        + "; adopt its exact PID or register a lifecycle adapter first"@
}

/// `id` is registered with exact process matchers or service units to quiesce.
pub open spec fn quiescible(s: StateView, id: Seq<char>) -> bool {
    registered(s, id) matches Some(c) && c.lifecycle matches Some(l) && (l.processes.len() > 0
        || l.services.len() > 0)
}

/// A running discovered shell may be stopped by a switch only if it is the
/// active instance or its registration declares how to quiesce it.
pub open spec fn tolerated(s: StateView, x: CandidateView) -> bool {
    x.running_pids.len() == 0 || (s.active is Some && s.active->0.candidate.id == x.id)
        || quiescible(s, x.id)
}

/// Refuses a switch while an unmanaged shell runs: the first such finding.
pub fn unmanaged_running(s: &State, observed: &Vec<Candidate>) -> (r: Result<(), String>)
    ensures
        match r {
            Ok(()) => forall|k: int|
                0 <= k < observed@.len() ==> tolerated(s@, #[trigger] observed@[k]@),
            Err(e) => exists|k: int|
                0 <= k < observed@.len() && !tolerated(s@, #[trigger] observed@[k]@) && e@
                    == unmanaged_message(observed@[k]@) && forall|j: int|
                    0 <= j < k ==> tolerated(s@, #[trigger] observed@[j]@),
        },
{
    let mut i: usize = 0;
    while i < observed.len()
        invariant
            i <= observed.len(),
            forall|j: int| 0 <= j < i ==> tolerated(s@, #[trigger] observed@[j]@),
        decreases observed.len() - i,
    {
        let x = &observed[i];
        if x.running_pids.len() > 0 {
            let is_active = match &s.active {
                Some(r) => same(r.candidate.id.as_str(), x.id.as_str()),
                None => false,
            };
            let managed = match s.registration(x.id.as_str()) {
                Some(c) => match &c.lifecycle {
                    Some(l) => l.processes.len() > 0 || l.services.len() > 0,
                    None => false,
                },
                None => false,
            };
            if !is_active && !managed {
                let mut m = concat("Unmanaged shell ", x.name.as_str());
                append(&mut m, " ");
                let pids = debug_numbers_of(&x.running_pids);
                append(&mut m, pids.as_str());
                append(&mut m, "; adopt its exact PID or register a lifecycle adapter first");
                proof {
                    reveal_strlit("Unmanaged shell ");
                    reveal_strlit(" ");
                    reveal_strlit("; adopt its exact PID or register a lifecycle adapter first");
                }
                assert(!tolerated(s@, observed@[i as int]@));
                assert(m@ == unmanaged_message(observed@[i as int]@));
                return Err(m);
            }
            assert(tolerated(s@, observed@[i as int]@));
        }
        i += 1;
    }
    Ok(())
}

/// `s` with `c` registered when its id is not yet installed.
pub open spec fn with_target(s: StateView, c: CandidateView) -> StateView {
    if registered(s, c.id) is None {
        StateView { installed: s.installed.push(c), ..s }
    } else {
        s
    }
}

/// Registers the switch destination unless its id is already installed.
pub fn register_target(s: &mut State, c: &Candidate)
    requires
        well_formed(old(s)@),
    ensures
        final(s)@ == with_target(old(s)@, c@),
        well_formed(final(s)@),
{
    if s.registration(c.id.as_str()).is_none() {
        proof {
            lemma_find_id(s@.installed, c@.id);
        }
        let ghost before = s@.installed;
        s.installed.push(c.duplicate());
        assert(s@.installed =~= before.push(c@));
    }
}

/// Why a switch to `c` does not begin: the plan's refusal, or the first
/// running discovered shell that it could not stop.
pub open spec fn switch_refusal(
    c: CandidateView,
    session: SessionView,
    s: StateView,
    guard: Result<(), Seq<char>>,
    active_healthy: bool,
    d: Seq<FileReadView>,
    observed: Seq<CandidateView>,
) -> bool {
    plan_refusal(c, session, s, guard, active_healthy, d) is Some || exists|k: int|
        0 <= k < observed.len() && !tolerated(s, #[trigger] observed[k])
}

/// The checks that open a switch to `c`: the plan, then the shells found
/// running (`observed`, annotated with their processes), which must each be
/// the active instance or declare how to be quiesced. On success `c` is
/// registered and the plan's description is returned; the journal is written
/// next, with `begin`.
pub fn switch(
    s: &mut State,
    c: &Candidate,
    session: &Session,
    guard: Result<(), String>,
    active_healthy: bool,
    disk: &Disk,
    observed: &Vec<Candidate>,
) -> (r: Result<String, String>)
    requires
        well_formed(old(s)@),
    ensures
        well_formed(final(s)@),
        match r {
            Ok(t) => !switch_refusal(
                c@,
                session@,
                old(s)@,
                match guard {
                    Ok(()) => Ok(()),
                    Err(e) => Err(e@),
                },
                active_healthy,
                disk@,
                observed.deep_view(),
            ) && t@ == plan_text(old(s)@, c@) && final(s)@ == with_target(old(s)@, c@),
            Err(e) => final(s)@ == old(s)@ && (plan_refusal(
                c@,
                session@,
                old(s)@,
                match guard {
                    Ok(()) => Ok(()),
                    Err(e) => Err(e@),
                },
                active_healthy,
                disk@,
            ) == Some(e@) || (plan_refusal(
                c@,
                session@,
                old(s)@,
                match guard {
                    Ok(()) => Ok(()),
                    Err(e) => Err(e@),
                },
                active_healthy,
                disk@,
            ) is None && exists|k: int|
                0 <= k < observed@.len() && !tolerated(old(s)@, #[trigger] observed@[k]@) && e@
                    == unmanaged_message(observed@[k]@) && forall|j: int|
                    0 <= j < k ==> tolerated(old(s)@, #[trigger] observed@[j]@))),
        },
{
    let t = plan(c, session, s, guard, active_healthy, disk)?;
    unmanaged_running(s, observed)?;
    proof {
        assert forall|k: int| 0 <= k < observed.deep_view().len() implies tolerated(
            s@,
            #[trigger] observed.deep_view()[k],
        ) by {
            assert(observed.deep_view()[k] == observed@[k]@);
        }
    }
    register_target(s, c);
    Ok(t)
}

pub open spec fn prepared_message() -> Seq<char> {
    "Prepared switch; all ordinary shell entrypoints are gated during handoff"@
}

/// The journal a switch writes before any side effect: the prior active
/// instance, selection, configuration and protections, and what replaces them.
pub open spec fn begun(
    s: StateView,
    c: CandidateView,
    token: Seq<char>,
    now: u64,
    changes: Seq<ChangeView>,
    next_protections: Seq<OwnedFileView>,
    next_config: Option<ConfigView>,
) -> StateView {
    StateView {
        pending: Some(
            PendingView {
                previous: s.active,
                target: c,
                deadline: (now + 60) as u64,
                token,
                phase: Phase::Prepared,
                previous_selected: s.selected,
                previous_config: s.config,
                next_config,
                previous_protections: s.protections,
                next_protections,
                changes,
                ticket: None,
            },
        ),
        last_event: prepared_message(),
        ..s
    }
}

/// Opens a switch transaction towards `c`.
pub fn begin(
    s: &mut State,
    c: Candidate,
    token: String,
    now: u64,
    changes: Vec<Change>,
    next_protections: Vec<OwnedFile>,
    next_config: Option<Config>,
)
    requires
        now <= u64::MAX - 60,
    ensures
        final(s)@ == begun(
            old(s)@,
            c@,
            token@,
            now,
            changes.deep_view(),
            next_protections.deep_view(),
            next_config.deep_view(),
        ),
{
    let p = Pending {
        previous: duplicate_option(&s.active),
        target: c,
        deadline: now + 60,
        token,
        phase: Phase::Prepared,
        previous_selected: duplicate_option(&s.selected),
        previous_config: duplicate_option(&s.config),
        next_config,
        previous_protections: duplicate_vec(&s.protections),
        next_protections,
        changes,
        ticket: None,
    };
    s.pending = Some(p);
    proof {
        reveal_strlit("Prepared switch; all ordinary shell entrypoints are gated during handoff");
    }
    s.last_event = "Prepared switch; all ordinary shell entrypoints are gated during handoff".to_string();
}

/// Drops a transaction that never left preparation (its watchdog could not start).
pub fn abandon(s: &mut State)
    ensures
        final(s)@ == (StateView { pending: None, ..old(s)@ }),
{
    s.pending = None;
}

/// `t`'s journal still records the pre-switch values of `s0`.
pub open spec fn journal_of(t: StateView, s0: StateView) -> bool {
    t.pending matches Some(p) && p.previous == s0.active && p.previous_selected == s0.selected
        && p.previous_config == s0.config && p.previous_protections == s0.protections
}

/// Only the journal's phase changes.
pub open spec fn phased(s: StateView, next: Phase) -> StateView {
    StateView { pending: Some(PendingView { phase: next, ..s.pending->0 }), ..s }
}

pub open spec fn no_transaction_message() -> Seq<char> {
    "No transaction"@
}

/// Records the next phase of the open transaction.
pub fn set_phase(s: &mut State, next: Phase) -> (r: Result<(), String>)
    ensures
        old(s)@.pending is None ==> (r matches Err(e) && e@ == no_transaction_message() && final(s)@ == old(s)@),
        old(s)@.pending is Some ==> r is Ok && final(s)@ == phased(old(s)@, next),
{
    match &mut s.pending {
        None => {
            proof {
                reveal_strlit("No transaction");
            }
            Err("No transaction".to_string())
        },
        Some(p) => {
            p.phase = next;
            Ok(())
        },
    }
}

/// The validated configuration and protections take effect.
pub open spec fn applied(s: StateView) -> StateView {
    StateView {
        config: s.pending->0.next_config,
        protections: s.pending->0.next_protections,
        ..s
    }
}

/// Makes the journal's next configuration and protections current.
pub fn apply_pending(s: &mut State)
    requires
        old(s)@.pending is Some,
    ensures
        final(s)@ == applied(old(s)@),
{
    let (c, p) = match &s.pending {
        Some(p) => (duplicate_option(&p.next_config), duplicate_vec(&p.next_protections)),
        None => (None, Vec::new()),
    };
    s.config = c;
    s.protections = p;
}

/// The launched instance is recorded as active.
pub open spec fn launched(s: StateView, r: RunningView) -> StateView {
    StateView { active: Some(r), ..s }
}

/// Records a launched (or relaunched) instance before it may run shell code.
pub fn record_launch(s: &mut State, r: Running)
    ensures
        final(s)@ == launched(old(s)@, r@),
{
    s.active = Some(r);
}

/// The instance was stopped.
pub open spec fn stopped(s: StateView) -> StateView {
    StateView { active: None, ..s }
}

/// Forgets the active instance after it was stopped.
pub fn clear_active(s: &mut State) -> (r: Option<Running>)
    ensures
        final(s)@ == stopped(old(s)@),
        r.deep_view() == old(s)@.active,
{
    s.active.take()
}

/// The launch barrier's ticket is journaled.
pub open spec fn ticketed(s: StateView, ticket: Seq<char>) -> StateView {
    StateView { pending: Some(PendingView { ticket: Some(ticket), ..s.pending->0 }), ..s }
}

/// Journals the launch ticket of the open transaction, if any.
pub fn record_ticket(s: &mut State, ticket: String)
    ensures
        old(s)@.pending is Some ==> final(s)@ == ticketed(old(s)@, ticket@),
        old(s)@.pending is None ==> final(s)@ == old(s)@,
{
    if let Some(p) = &mut s.pending {
        p.ticket = Some(ticket);
    }
}

pub open spec fn trial_message() -> Seq<char> {
    "Trial verified. Keep within 20 seconds; otherwise configuration and shell are restored"@
}

/// The trial starts: twenty seconds from `now` to keep it.
pub open spec fn trialled(s: StateView, now: u64) -> StateView {
    StateView {
        pending: Some(
            PendingView { deadline: (now + 20) as u64, phase: Phase::Trial, ..s.pending->0 },
        ),
        last_event: trial_message(),
        ..s
    }
}

/// Opens the confirmation window of a verified trial.
pub fn start_trial(s: &mut State, now: u64)
    requires
        old(s)@.pending is Some,
        now <= u64::MAX - 20,
    ensures
        final(s)@ == trialled(old(s)@, now),
{
    if let Some(p) = &mut s.pending {
        p.deadline = now + 20;
        p.phase = Phase::Trial;
    }
    proof {
        reveal_strlit("Trial verified. Keep within 20 seconds; otherwise configuration and shell are restored");
    }
    s.last_event = "Trial verified. Keep within 20 seconds; otherwise configuration and shell are restored".to_string();
}

// ------------------------------------------------------------ watchdog

/// The watchdog rolls an open transaction back unless it is a live trial: any
/// other phase means the switching process was interrupted, and a trial ends
/// at its deadline or when its shell is no longer healthy.
pub open spec fn rollback_due(s: StateView, now: u64, active_healthy: bool) -> bool {
    match s.pending {
        Some(p) => p.phase != Phase::Trial || now >= p.deadline || !(s.active is Some
            && active_healthy),
        None => false,
    }
}

/// Whether the watchdog must roll back now; never without an open transaction.
pub fn must_roll_back(s: &State, now: u64, active_healthy: bool) -> (r: bool)
    ensures
        r == rollback_due(s@, now, active_healthy),
{
    match &s.pending {
        Some(p) => p.phase != Phase::Trial || now >= p.deadline || !(s.active.is_some()
            && active_healthy),
        None => false,
    }
}

// ------------------------------------------------------------ keep

pub open spec fn no_trial_message() -> Seq<char> {
    "No pending trial"@
}

pub open spec fn not_ready_message() -> Seq<char> {
    "Transaction is not ready to commit; recover it first"@
}

pub open spec fn expired_message() -> Seq<char> {
    "Trial expired"@
}

pub open spec fn died_message() -> Seq<char> {
    "Trial shell died"@
}

pub open spec fn committed_message() -> Seq<char> {
    "Switch committed"@
}

/// Why a trial cannot be committed. `external` is the outcome of the checks
/// that run programs (compositor validation, readiness, inactive shells).
pub open spec fn keep_refusal(
    s: StateView,
    now: u64,
    active_healthy: bool,
    d: Seq<FileReadView>,
    external: Result<(), Seq<char>>,
) -> Option<Seq<char>> {
    if s.pending is None {
        Some(no_trial_message())
    } else if s.pending->0.phase != Phase::Trial {
        Some(not_ready_message())
    } else if now >= s.pending->0.deadline {
        Some(expired_message())
    } else if !(s.active is Some && active_healthy) {
        Some(died_message())
    } else if config_failure(s, d) is Some {
        config_failure(s, d)
    } else if external is Err {
        Some(external->Err_0)
    } else {
        None
    }
}

/// The committed state: the trial's target becomes the selection.
pub open spec fn committed(s: StateView) -> StateView {
    StateView {
        selected: Some(s.pending->0.target.id),
        pending: None,
        generation: (s.generation + 1) as u64,
        last_event: committed_message(),
        ..s
    }
}

/// Commits a healthy, unexpired trial; a refused commit leaves the state for rollback.
pub fn keep(
    s: &mut State,
    now: u64,
    active_healthy: bool,
    disk: &Disk,
    external: Result<(), String>,
) -> (r: Result<(), String>)
    requires
        old(s)@.generation < u64::MAX,
    ensures
        match r {
            Ok(()) => keep_refusal(
                old(s)@,
                now,
                active_healthy,
                disk@,
                match external {
                    Ok(()) => Ok(()),
                    Err(e) => Err(e@),
                },
            ) is None && final(s)@ == committed(old(s)@),
            Err(e) => keep_refusal(
                old(s)@,
                now,
                active_healthy,
                disk@,
                match external {
                    Ok(()) => Ok(()),
                    Err(e) => Err(e@),
                },
            ) == Some(e@) && final(s)@ == old(s)@,
        },
{
    proof {
        reveal_strlit("No pending trial");
        reveal_strlit("Transaction is not ready to commit; recover it first");
        reveal_strlit("Trial expired");
        reveal_strlit("Trial shell died");
        reveal_strlit("Switch committed");
    }
    let target = match &s.pending {
        None => {
            return Err("No pending trial".to_string());
        },
        Some(p) => {
            if p.phase != Phase::Trial {
                return Err("Transaction is not ready to commit; recover it first".to_string());
            }
            if now >= p.deadline {
                return Err("Trial expired".to_string());
            }
            p.target.id.clone()
        },
    };
    if !(s.active.is_some() && active_healthy) {
        return Err("Trial shell died".to_string());
    }
    check_config(s, disk)?;
    external?;
    s.selected = Some(target);
    s.pending = None;
    s.generation = s.generation + 1;
    s.last_event = "Switch committed".to_string();
    Ok(())
}

// ------------------------------------------------------------ revert

/// What a rollback has to undo: the journal, the instance and gated commands
/// to stop, and the previous shell to relaunch, if it is still selected.
#[derive(Debug)]
pub struct Rollback {
    pub pending: Pending,
    pub stopped: Option<Running>,
    pub commands: Vec<Running>,
    pub relaunch: Option<Candidate>,
}

pub open spec fn no_pending_message() -> Seq<char> {
    "No pending transaction"@
}

/// The selection a rollback restores: the previous one, unless it is held.
pub open spec fn restored_selection(s: StateView, p: PendingView) -> Option<Seq<char>> {
    match p.previous_selected {
        Some(id) => if s.disabled.contains(id) {
            None
        } else {
            Some(id)
        },
        None => None,
    }
}

/// The state during rollback: journal in Restoring, nothing running, and the
/// previous configuration, protections and selection back in place.
pub open spec fn reverted(s: StateView) -> StateView {
    let p = s.pending->0;
    StateView {
        pending: Some(PendingView { phase: Phase::Restoring, ..p }),
        active: None,
        commands: Seq::empty(),
        config: p.previous_config,
        protections: p.previous_protections,
        selected: restored_selection(s, p),
        ..s
    }
}

/// The shell a rollback restarts: the previous instance, if it is the restored selection.
pub open spec fn relaunch_of(s: StateView) -> Option<CandidateView> {
    let p = s.pending->0;
    match p.previous {
        Some(prev) => if restored_selection(s, p) == Some(prev.candidate.id) {
            Some(prev.candidate)
        } else {
            None
        },
        None => None,
    }
}

/// Rolls the state back to the journal of the open transaction.
pub fn revert(s: &mut State) -> (r: Result<Rollback, String>)
    ensures
        old(s)@.pending is None ==> (r matches Err(e) && e@ == no_pending_message() && final(s)@ == old(s)@),
        old(s)@.pending is Some ==> (r matches Ok(b) && final(s)@ == reverted(old(s)@)
            && b.pending@ == old(s)@.pending->0 && b.stopped.deep_view() == old(s)@.active
            && b.commands.deep_view() == old(s)@.commands && b.relaunch.deep_view()
            == relaunch_of(old(s)@)),
{
    let p = match &s.pending {
        None => {
            proof {
                reveal_strlit("No pending transaction");
            }
            return Err("No pending transaction".to_string());
        },
        Some(p) => p.duplicate(),
    };
    let selected = match &p.previous_selected {
        Some(id) => if s.is_held(id.as_str()) {
            None
        } else {
            Some(id.clone())
        },
        None => None,
    };
    let relaunch = match &p.previous {
        Some(prev) => {
            let same_id = match &selected {
                Some(id) => same(id.as_str(), prev.candidate.id.as_str()),
                None => false,
            };
            if same_id {
                Some(prev.candidate.duplicate())
            } else {
                None
            }
        },
        None => None,
    };
    if let Some(q) = &mut s.pending {
        q.phase = Phase::Restoring;
    }
    let stopped = s.active.take();
    let mut commands: Vec<Running> = Vec::new();
    std::mem::swap(&mut commands, &mut s.commands);
    s.config = duplicate_option(&p.previous_config);
    s.protections = duplicate_vec(&p.previous_protections);
    s.selected = selected;
    assert(s@.commands =~= Seq::<RunningView>::empty());
    Ok(Rollback { pending: p, stopped, commands, relaunch })
}

/// The journal now authorizes only the relaunched previous shell.
pub open spec fn relaunching(s: StateView, c: CandidateView, lease: Seq<char>) -> StateView {
    StateView {
        pending: Some(PendingView { target: c, token: lease, phase: Phase::Starting, ..s.pending->0 }),
        ..s
    }
}

/// During rollback the handoff contract authorizes only the saved shell.
pub fn start_relaunch(s: &mut State, c: Candidate, lease: String)
    requires
        old(s)@.pending is Some,
    ensures
        final(s)@ == relaunching(old(s)@, c@, lease@),
{
    if let Some(p) = &mut s.pending {
        p.target = c;
        p.token = lease;
        p.phase = Phase::Starting;
    }
}

pub open spec fn restored_message() -> Seq<char> {
    "Previous configuration and shell restored; external edits, if any, were archived under recovery/"@
}

/// Closes a completed rollback.
pub fn finish_revert(s: &mut State)
    ensures
        final(s)@ == (StateView { pending: None, last_event: restored_message(), ..old(s)@ }),
{
    s.pending = None;
    proof {
        reveal_strlit("Previous configuration and shell restored; external edits, if any, were archived under recovery/");
    }
    s.last_event = "Previous configuration and shell restored; external edits, if any, were archived under recovery/".to_string();
}

} // verus!

verus! {

// ------------------------------------------------------------ laws

/// Opening a switch journals the prior active instance, selection,
/// configuration and protections.
pub proof fn law_switch_journals_prior_state(
    s: StateView,
    c: CandidateView,
    token: Seq<char>,
    now: u64,
    changes: Seq<ChangeView>,
    next_protections: Seq<OwnedFileView>,
    next_config: Option<ConfigView>,
)
    ensures
        journal_of(begun(s, c, token, now, changes, next_protections, next_config), s),
{
}

/// Every step of a switch (phase records, applying the validated configuration,
/// recording or clearing the instance, the launch ticket, the trial window)
/// keeps the journal of the pre-switch state.
pub proof fn law_steps_keep_journal(
    t: StateView,
    s0: StateView,
    next: Phase,
    r: RunningView,
    ticket: Seq<char>,
    now: u64,
)
    requires
        journal_of(t, s0),
    ensures
        journal_of(phased(t, next), s0),
        journal_of(applied(t), s0),
        journal_of(launched(t, r), s0),
        journal_of(stopped(t), s0),
        journal_of(ticketed(t, ticket), s0),
        journal_of(trialled(t, now), s0),
{
}

/// Failure, interruption or expiry restores what was there before the switch:
/// the previous configuration and protections, and the previous selection
/// unless that shell is now held; the previous instance is relaunched exactly
/// when it is that selection. Holds survive the rollback.
pub proof fn law_rollback_restores(t: StateView, s0: StateView)
    requires
        journal_of(t, s0),
    ensures
        reverted(t).disabled == t.disabled,
        reverted(t).config == s0.config,
        reverted(t).protections == s0.protections,
        reverted(t).active is None,
        reverted(t).commands.len() == 0,
        s0.selected matches Some(id) ==> (t.disabled.contains(id) ==> reverted(t).selected is None)
            && (!t.disabled.contains(id) ==> reverted(t).selected == Some(id)),
        s0.selected is None ==> reverted(t).selected is None,
        relaunch_of(t) == (match s0.active {
            Some(prev) => if reverted(t).selected == Some(prev.candidate.id) {
                Some(prev.candidate)
            } else {
                None
            },
            None => None,
        }),
{
}

/// A kept trial selects its target, closes the transaction and counts a generation.
pub proof fn law_keep_commits(t: StateView)
    requires
        t.pending is Some,
        t.generation < u64::MAX,
    ensures
        committed(t).selected == Some(t.pending->0.target.id),
        committed(t).pending is None,
        committed(t).generation == t.generation + 1,
        committed(t).config == t.config,
        committed(t).active == t.active,
        committed(t).disabled == t.disabled,
{
}

} // verus!

verus! {

// ------------------------------------------------------------ adopt / resume / stop

pub open spec fn busy_message() -> Seq<char> {
    "Already managing a shell or pending transaction"@
}

pub open spec fn adopt_held_message() -> Seq<char> {
    "Release the emergency hold before adoption"@
}

pub open spec fn review_adopt_message() -> Seq<char> {
    "Cannot adopt review-only candidate"@
}

pub open spec fn pid_required_message() -> Seq<char> {
    "A PID is required"@
}

pub open spec fn adopted_message() -> Seq<char> {
    "Adopted exact process; install/protect its lifecycle adapter to gate external startup sources"@
}

/// Why adopting `c` is refused. `guard` is the launch guard's outcome and
/// `evidence` what checking the running instance gave: for a process backend
/// the matched identity, for a service backend that the unit is active.
pub open spec fn adopt_refusal(
    s: StateView,
    c: CandidateView,
    guard: Result<(), Seq<char>>,
    evidence: Result<Option<IdentityView>, Seq<char>>,
    active_healthy: bool,
) -> Option<Seq<char>> {
    if guard is Err {
        Some(guard->Err_0)
    } else if s.pending is Some || (s.active is Some && active_healthy) {
        Some(busy_message())
    } else if s.disabled.contains(c.id) {
        Some(adopt_held_message())
    } else if c.backend is Review {
        Some(review_adopt_message())
    } else if evidence is Err {
        Some(evidence->Err_0)
    } else if c.backend is Process && evidence->Ok_0 is None {
        Some(pid_required_message())
    } else {
        None
    }
}

/// The state after adopting `c`.
pub open spec fn adopted(
    s: StateView,
    c: CandidateView,
    process: Option<IdentityView>,
    lease: Seq<char>,
) -> StateView {
    let t = with_target(s, c);
    StateView {
        selected: Some(c.id),
        active: Some(
            RunningView {
                candidate: c,
                process: if c.backend is Process {
                    process
                } else {
                    None
                },
                owned_group: false,
                lease,
            },
        ),
        last_event: adopted_message(),
        ..t
    }
}

/// Takes over an already running instance of `c` as the selected shell.
pub fn adopt(
    s: &mut State,
    c: &Candidate,
    guard: Result<(), String>,
    evidence: Result<Option<Identity>, String>,
    lease: String,
    active_healthy: bool,
) -> (r: Result<(), String>)
    requires
        well_formed(old(s)@),
    ensures
        well_formed(final(s)@),
        match r {
            Ok(()) => adopt_refusal(
                old(s)@,
                c@,
                match guard {
                    Ok(()) => Ok(()),
                    Err(e) => Err(e@),
                },
                match evidence {
                    Ok(p) => Ok(p.deep_view()),
                    Err(e) => Err(e@),
                },
                active_healthy,
            ) is None && final(s)@ == adopted(
                old(s)@,
                c@,
                match evidence {
                    Ok(p) => p.deep_view(),
                    Err(_) => None,
                },
                lease@,
            ),
            Err(e) => adopt_refusal(
                old(s)@,
                c@,
                match guard {
                    Ok(()) => Ok(()),
                    Err(e) => Err(e@),
                },
                match evidence {
                    Ok(p) => Ok(p.deep_view()),
                    Err(e) => Err(e@),
                },
                active_healthy,
            ) == Some(e@) && final(s)@ == old(s)@,
        },
{
    proof {
        reveal_strlit("Already managing a shell or pending transaction");
        reveal_strlit("Release the emergency hold before adoption");
        reveal_strlit("Cannot adopt review-only candidate");
        reveal_strlit("A PID is required");
        reveal_strlit("Adopted exact process; install/protect its lifecycle adapter to gate external startup sources");
    }
    guard?;
    if s.pending.is_some() || (s.active.is_some() && active_healthy) {
        return Err("Already managing a shell or pending transaction".to_string());
    }
    if s.is_held(c.id.as_str()) {
        return Err("Release the emergency hold before adoption".to_string());
    }
    let process = match &c.backend {
        Backend::Review { .. } => {
            return Err("Cannot adopt review-only candidate".to_string());
        },
        Backend::Process { .. } => match evidence {
            Err(e) => {
                return Err(e);
            },
            Ok(None) => {
                return Err("A PID is required".to_string());
            },
            Ok(Some(id)) => Some(id),
        },
        Backend::Systemd { .. } => match evidence {
            Err(e) => {
                return Err(e);
            },
            Ok(_) => None,
        },
    };
    register_target(s, c);
    s.selected = Some(c.id.clone());
    s.active = Some(Running { candidate: c.duplicate(), process, owned_group: false, lease });
    s.last_event = "Adopted exact process; install/protect its lifecycle adapter to gate external startup sources".to_string();
    Ok(())
}

pub open spec fn gated_resume_message() -> Seq<char> {
    "Handoff/recovery in progress; resume is gated"@
}

pub open spec fn none_selected_message() -> Seq<char> {
    "No selected shell; choose one explicitly"@
}

pub open spec fn inactive_resume_message() -> Seq<char> {
    "This shell is inactive; only the selected shell may resume"@
}

pub open spec fn resume_held_message() -> Seq<char> {
    "Shell is emergency-disabled"@
}

pub open spec fn missing_registration_message() -> Seq<char> {
    "Selected shell missing from registry"@
}

/// What resuming decides: refuse with a reason, nothing to do (`Ok(None)`, the
/// selected shell is already healthy), or switch to the selected registration.
pub open spec fn resume_outcome(
    s: StateView,
    requested: Option<Seq<char>>,
    active_healthy: bool,
    d: Seq<FileReadView>,
    session: SessionView,
) -> Result<Option<CandidateView>, Seq<char>> {
    if s.pending is Some {
        Err(gated_resume_message())
    } else if s.selected is None {
        Err(none_selected_message())
    } else if requested is Some && requested != s.selected {
        Err(inactive_resume_message())
    } else if s.disabled.contains(s.selected->0) {
        Err(resume_held_message())
    } else if config_failure(s, d) is Some {
        Err(config_failure(s, d)->0)
    } else if s.active is Some && active_healthy {
        Ok(None)
    } else if registered(s, s.selected->0) is None {
        Err(missing_registration_message())
    } else if compatibility_of(session, registered(s, s.selected->0)->0) is Err {
        Err(compatibility_of(session, registered(s, s.selected->0)->0)->Err_0)
    } else {
        Ok(Some(registered(s, s.selected->0)->0))
    }
}

/// Resumes only the selected, non-held shell; never selects another one.
pub fn resume(
    s: &State,
    requested: Option<&str>,
    active_healthy: bool,
    disk: &Disk,
    session: &Session,
) -> (r: Result<Option<Candidate>, String>)
    ensures
        match (
            r,
            resume_outcome(
                s@,
                match requested {
                    Some(x) => Some(x@),
                    None => None,
                },
                active_healthy,
                disk@,
                session@,
            ),
        ) {
            (Ok(None), Ok(None)) => true,
            (Ok(Some(c)), Ok(Some(v))) => c@ == v,
            (Err(e), Err(v)) => e@ == v,
            _ => false,
        },
{
    proof {
        reveal_strlit("Handoff/recovery in progress; resume is gated");
        reveal_strlit("No selected shell; choose one explicitly");
        reveal_strlit("This shell is inactive; only the selected shell may resume");
        reveal_strlit("Shell is emergency-disabled");
        reveal_strlit("Selected shell missing from registry");
    }
    if s.pending.is_some() {
        return Err("Handoff/recovery in progress; resume is gated".to_string());
    }
    let id = match &s.selected {
        None => {
            return Err("No selected shell; choose one explicitly".to_string());
        },
        Some(id) => id,
    };
    if let Some(r) = requested {
        if !same(r, id.as_str()) {
            return Err("This shell is inactive; only the selected shell may resume".to_string());
        }
    }
    if s.is_held(id.as_str()) {
        return Err("Shell is emergency-disabled".to_string());
    }
    check_config(s, disk)?;
    if s.active.is_some() && active_healthy {
        return Ok(None);
    }
    let c = match s.registration(id.as_str()) {
        None => {
            return Err("Selected shell missing from registry".to_string());
        },
        Some(c) => c,
    };
    session.compatibility(c)?;
    Ok(Some(c.duplicate()))
}

pub open spec fn stop_nothing_message() -> Seq<char> {
    "No selected shell"@
}

/// The shell a stop request disables: the selection, else the active instance.
pub fn stop_active(s: &State) -> (r: Result<String, String>)
    ensures
        match (s@.selected, s@.active) {
            (Some(id), _) => r matches Ok(x) && x@ == id,
            (None, Some(a)) => r matches Ok(x) && x@ == a.candidate.id,
            (None, None) => r matches Err(e) && e@ == stop_nothing_message(),
        },
{
    match &s.selected {
        Some(id) => Ok(id.clone()),
        None => match &s.active {
            Some(a) => Ok(a.candidate.id.clone()),
            None => {
                proof {
                    reveal_strlit("No selected shell");
                }
                Err("No selected shell".to_string())
            },
        },
    }
}

} // verus!

verus! {

// ------------------------------------------------------------ launching the journaled shell

/// The record of the instance a transaction launches: its journaled target,
/// under the journal's token, owning its process group exactly when it is a
/// supervised process.
pub open spec fn launch_of(p: PendingView, process: Option<IdentityView>) -> RunningView {
    RunningView { candidate: p.target, process, owned_group: process is Some, lease: p.token }
}

/// The record of the instance the open transaction launches; none without one.
pub fn pending_launch(s: &State, process: Option<Identity>) -> (r: Option<Running>)
    ensures
        match s@.pending {
            None => r is None,
            Some(p) => r matches Some(x) && x@ == launch_of(p, process.deep_view()),
        },
{
    match &s.pending {
        None => None,
        Some(p) => {
            let owned = process.is_some();
            Some(
                Running {
                    candidate: p.target.duplicate(),
                    process,
                    owned_group: owned,
                    lease: p.token.duplicate(),
                },
            )
        },
    }
}

/// The state a successful switch from `s0` to `c` ends in, step by step:
/// the target registered, the journal opened, gates published (`Protected`),
/// supervised commands retired and the previous instance stopped
/// (`Stopped`), the validated configuration and protections applied
/// (`ConfigApplied`), the launch ticket of a supervised process journaled
/// (`Starting`), the target launched under the journal's token, and the trial
/// window opened.
pub open spec fn switched(
    s0: StateView,
    c: CandidateView,
    token: Seq<char>,
    begun_at: u64,
    changes: Seq<ChangeView>,
    next_protections: Seq<OwnedFileView>,
    next_config: Option<ConfigView>,
    ticket: Option<Seq<char>>,
    process: Option<IdentityView>,
    now: u64,
) -> StateView {
    let t1 = begun(with_target(s0, c), c, token, begun_at, changes, next_protections, next_config);
    let t2 = phased(t1, Phase::Protected);
    let t3 = stopped(StateView { commands: seq![], ..t2 });
    let t4 = phased(t3, Phase::Stopped);
    let t5 = phased(applied(t4), Phase::ConfigApplied);
    let t6 = match ticket {
        Some(k) => ticketed(phased(t5, Phase::Starting), k),
        None => phased(t5, Phase::Starting),
    };
    let t7 = launched(t6, launch_of(t6.pending->0, process));
    trialled(t7, now)
}

/// A successful switch ends in a trial of `c` that journals the prior
/// selection, instance, configuration and protections; `c` runs under the
/// journal's token, is registered, and the selection is unchanged until the
/// trial is kept; the new configuration and protections are current.
pub proof fn law_switch_ends_in_trial(
    s0: StateView,
    c: CandidateView,
    token: Seq<char>,
    begun_at: u64,
    changes: Seq<ChangeView>,
    next_protections: Seq<OwnedFileView>,
    next_config: Option<ConfigView>,
    ticket: Option<Seq<char>>,
    process: Option<IdentityView>,
    now: u64,
)
    requires
        now <= u64::MAX - 20,
    ensures
        ({
            let t = switched(s0, c, token, begun_at, changes, next_protections, next_config, ticket, process, now);
            &&& t.pending matches Some(p)
            &&& p.phase == Phase::Trial
            &&& p.target == c
            &&& p.token == token
            &&& p.deadline == now + 20
            &&& journal_of(t, s0)
            &&& t.active == Some(launch_of(p, process))
            &&& t.active->0.candidate == c
            &&& t.active->0.lease == token
            &&& t.selected == s0.selected
            &&& registered(t, c.id) is Some
            &&& t.config == next_config
            &&& t.protections == next_protections
            &&& t.disabled == s0.disabled
        }),
{
    let s1 = with_target(s0, c);
    lemma_find_id(s0.installed, c.id);
    lemma_find_id(s1.installed, c.id);
    if registered(s0, c.id) is None {
        assert(s1.installed.last().id == c.id);
    }
}

/// Switching and then rolling back, whenever the rollback comes (here from the
/// trial), restores the configuration and protections from before the
/// switch and the previous selection unless that shell is now held, keeps
/// every hold, and relaunches the previous instance exactly when it is that
/// selection.
pub proof fn law_switch_then_revert(
    s0: StateView,
    c: CandidateView,
    token: Seq<char>,
    begun_at: u64,
    changes: Seq<ChangeView>,
    next_protections: Seq<OwnedFileView>,
    next_config: Option<ConfigView>,
    ticket: Option<Seq<char>>,
    process: Option<IdentityView>,
    now: u64,
)
    requires
        now <= u64::MAX - 20,
    ensures
        ({
            let t = switched(s0, c, token, begun_at, changes, next_protections, next_config, ticket, process, now);
            let r = reverted(t);
            &&& r.config == s0.config
            &&& r.protections == s0.protections
            &&& r.disabled == s0.disabled
            &&& r.active is None
            &&& (s0.selected matches Some(id) ==> (s0.disabled.contains(id) ==> r.selected is None)
                && (!s0.disabled.contains(id) ==> r.selected == Some(id)))
            &&& (s0.selected is None ==> r.selected is None)
            &&& relaunch_of(t) == (match s0.active {
                Some(prev) => if r.selected == Some(prev.candidate.id) {
                    Some(prev.candidate)
                } else {
                    None
                },
                None => None,
            })
        }),
{
    let t = switched(s0, c, token, begun_at, changes, next_protections, next_config, ticket, process, now);
    law_switch_ends_in_trial(s0, c, token, begun_at, changes, next_protections, next_config, ticket, process, now);
    law_rollback_restores(t, s0);
}

} // verus!
