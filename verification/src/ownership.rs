//! Durable file ownership: snapshots, owned files, changes and their checks.
//! No path or name is treated as a security boundary.
use crate::dup::{duplicate_option, duplicate_vec, Duplicate};
use crate::text::{concat, same};
use vstd::string::StringSliceAdditionalSpecFns;
use vstd::prelude::*;

verus! {

/// What a path held: nothing, a regular file with its permission bits, or a symlink.
#[derive(Debug, Clone)]
pub enum Snapshot {
    Absent,
    File { data: Vec<u8>, mode: u32 },
    Symlink { target: String },
}

pub enum SnapshotView {
    Absent,
    File { data: Seq<u8>, mode: u32 },
    Symlink { target: Seq<char> },
}

impl View for Snapshot {
    type V = SnapshotView;

    open spec fn view(&self) -> SnapshotView {
        match self {
            Snapshot::Absent => SnapshotView::Absent,
            Snapshot::File { data, mode } => SnapshotView::File { data: data@, mode: *mode },
            Snapshot::Symlink { target } => SnapshotView::Symlink { target: target@ },
        }
    }
}

impl DeepView for Snapshot {
    type V = SnapshotView;

    open spec fn deep_view(&self) -> SnapshotView {
        self@
    }
}

impl Duplicate for Snapshot {
    fn duplicate(&self) -> (r: Self) {
        match self {
            Snapshot::Absent => Snapshot::Absent,
            Snapshot::File { data, mode } => {
                let d = data.clone();
                assert(d@ =~= data@);
                Snapshot::File { data: d, mode: *mode }
            },
            Snapshot::Symlink { target } => Snapshot::Symlink { target: target.clone() },
        }
    }
}

/// Compares two snapshots by content.
pub fn snapshot_eq(a: &Snapshot, b: &Snapshot) -> (r: bool)
    ensures
        r == (a@ == b@),
{
    match (a, b) {
        (Snapshot::Absent, Snapshot::Absent) => true,
        (Snapshot::File { data: x, mode: m }, Snapshot::File { data: y, mode: n }) => {
            if *m != *n || x.len() != y.len() {
                assert(x@.len() != y@.len() || *m != *n);
                return false;
            }
            let mut i: usize = 0;
            while i < x.len() && x[i] == y[i]
                invariant
                    i <= x.len(),
                    x.len() == y.len(),
                    forall|k: int| 0 <= k < i ==> x@[k] == y@[k],
                decreases x.len() - i,
            {
                i += 1;
            }
            if i < x.len() {
                assert(x@[i as int] != y@[i as int]);
                assert(x@ != y@);
                false
            } else {
                assert(x@ =~= y@);
                true
            }
        },
        (Snapshot::Symlink { target: x }, Snapshot::Symlink { target: y }) => same(
            x.as_str(),
            y.as_str(),
        ),
        _ => false,
    }
}

/// A path this library owns: what it held before and what it must hold now.
#[derive(Debug, Clone)]
pub struct OwnedFile {
    pub path: String,
    pub original: Snapshot,
    pub expected: Snapshot,
    pub owner: String,
}

pub struct OwnedFileView {
    pub path: Seq<char>,
    pub original: SnapshotView,
    pub expected: SnapshotView,
    pub owner: Seq<char>,
}

impl View for OwnedFile {
    type V = OwnedFileView;

    open spec fn view(&self) -> OwnedFileView {
        OwnedFileView {
            path: self.path@,
            original: self.original@,
            expected: self.expected@,
            owner: self.owner@,
        }
    }
}

impl DeepView for OwnedFile {
    type V = OwnedFileView;

    open spec fn deep_view(&self) -> OwnedFileView {
        self@
    }
}

impl Duplicate for OwnedFile {
    fn duplicate(&self) -> (r: Self) {
        OwnedFile {
            path: self.path.clone(),
            original: self.original.duplicate(),
            expected: self.expected.duplicate(),
            owner: self.owner.clone(),
        }
    }
}

/// One planned replacement of a path's content.
#[derive(Debug, Clone)]
pub struct Change {
    pub path: String,
    pub before: Snapshot,
    pub after: Snapshot,
}

pub struct ChangeView {
    pub path: Seq<char>,
    pub before: SnapshotView,
    pub after: SnapshotView,
}

impl View for Change {
    type V = ChangeView;

    open spec fn view(&self) -> ChangeView {
        ChangeView { path: self.path@, before: self.before@, after: self.after@ }
    }
}

impl DeepView for Change {
    type V = ChangeView;

    open spec fn deep_view(&self) -> ChangeView {
        self@
    }
}

impl Duplicate for Change {
    fn duplicate(&self) -> (r: Self) {
        Change {
            path: self.path.clone(),
            before: self.before.duplicate(),
            after: self.after.duplicate(),
        }
    }
}

/// Precedence between the user's baseline and a shell's configuration fragment.
#[derive(Debug, Clone, Copy, PartialEq, Eq, Structural)]
pub enum Policy {
    AbortConflicts,
    PreserveUser,
    ShellWins,
}

/// The enrolled compositor configuration entrypoint.
#[derive(Debug, Clone)]
pub struct Config {
    pub target: String,
    pub live_reload: bool,
    pub original: Snapshot,
    pub expected: Snapshot,
    pub user_root: String,
    pub user_files: Vec<OwnedFile>,
    pub policy: Policy,
    pub owner: Option<String>,
    pub dependencies: Vec<OwnedFile>,
}

pub struct ConfigView {
    pub target: Seq<char>,
    pub live_reload: bool,
    pub original: SnapshotView,
    pub expected: SnapshotView,
    pub user_root: Seq<char>,
    pub user_files: Seq<OwnedFileView>,
    pub policy: Policy,
    pub owner: Option<Seq<char>>,
    pub dependencies: Seq<OwnedFileView>,
}

impl View for Config {
    type V = ConfigView;

    open spec fn view(&self) -> ConfigView {
        ConfigView {
            target: self.target@,
            live_reload: self.live_reload,
            original: self.original@,
            expected: self.expected@,
            user_root: self.user_root@,
            user_files: self.user_files.deep_view(),
            policy: self.policy,
            owner: self.owner.deep_view(),
            dependencies: self.dependencies.deep_view(),
        }
    }
}

impl DeepView for Config {
    type V = ConfigView;

    open spec fn deep_view(&self) -> ConfigView {
        self@
    }
}

impl Duplicate for Config {
    fn duplicate(&self) -> (r: Self) {
        Config {
            target: self.target.clone(),
            live_reload: self.live_reload,
            original: self.original.duplicate(),
            expected: self.expected.duplicate(),
            user_root: self.user_root.clone(),
            user_files: duplicate_vec(&self.user_files),
            policy: self.policy,
            owner: duplicate_option(&self.owner),
            dependencies: duplicate_vec(&self.dependencies),
        }
    }
}

/// A declared public command path and the routes it forwards.
#[derive(Debug, Clone)]
pub struct CommandGate {
    pub path: String,
    pub inline_body: Option<String>,
    pub inline_original: Option<String>,
    pub native_argv: Vec<String>,
    pub blocked_prefixes: Vec<Vec<String>>,
    pub routes: Vec<Route>,
}

pub struct CommandGateView {
    pub path: Seq<char>,
    pub inline_body: Option<Seq<char>>,
    pub inline_original: Option<Seq<char>>,
    pub native_argv: Seq<Seq<char>>,
    pub blocked_prefixes: Seq<Seq<Seq<char>>>,
    pub routes: Seq<RouteView>,
}

impl View for CommandGate {
    type V = CommandGateView;

    open spec fn view(&self) -> CommandGateView {
        CommandGateView {
            path: self.path@,
            inline_body: self.inline_body.deep_view(),
            inline_original: self.inline_original.deep_view(),
            native_argv: self.native_argv.deep_view(),
            blocked_prefixes: self.blocked_prefixes.deep_view(),
            routes: self.routes.deep_view(),
        }
    }
}

impl DeepView for CommandGate {
    type V = CommandGateView;

    open spec fn deep_view(&self) -> CommandGateView {
        self@
    }
}

impl Duplicate for Vec<String> {
    fn duplicate(&self) -> (r: Self) {
        duplicate_vec(self)
    }
}

impl Duplicate for CommandGate {
    fn duplicate(&self) -> (r: Self) {
        CommandGate {
            path: self.path.clone(),
            inline_body: duplicate_option(&self.inline_body),
            inline_original: duplicate_option(&self.inline_original),
            native_argv: duplicate_vec(&self.native_argv),
            blocked_prefixes: duplicate_vec(&self.blocked_prefixes),
            routes: duplicate_vec(&self.routes),
        }
    }
}

/// A command prefix accepted by a gate and the exact argv it runs.
#[derive(Debug, Clone)]
pub struct Route {
    pub prefix: Vec<String>,
    pub argv: Vec<String>,
}

pub struct RouteView {
    pub prefix: Seq<Seq<char>>,
    pub argv: Seq<Seq<char>>,
}

impl View for Route {
    type V = RouteView;

    open spec fn view(&self) -> RouteView {
        RouteView { prefix: self.prefix.deep_view(), argv: self.argv.deep_view() }
    }
}

impl DeepView for Route {
    type V = RouteView;

    open spec fn deep_view(&self) -> RouteView {
        self@
    }
}

impl Duplicate for Route {
    fn duplicate(&self) -> (r: Self) {
        Route { prefix: duplicate_vec(&self.prefix), argv: duplicate_vec(&self.argv) }
    }
}

/// An exact process identity: executable plus identifying leading arguments.
#[derive(Debug, Clone)]
pub struct ProcessMatch {
    pub argv_prefix: Vec<String>,
    pub kill_without_cleanup: bool,
}

pub struct ProcessMatchView {
    pub argv_prefix: Seq<Seq<char>>,
    pub kill_without_cleanup: bool,
}

impl View for ProcessMatch {
    type V = ProcessMatchView;

    open spec fn view(&self) -> ProcessMatchView {
        ProcessMatchView {
            argv_prefix: self.argv_prefix.deep_view(),
            kill_without_cleanup: self.kill_without_cleanup,
        }
    }
}

impl DeepView for ProcessMatch {
    type V = ProcessMatchView;

    open spec fn deep_view(&self) -> ProcessMatchView {
        self@
    }
}

impl Duplicate for ProcessMatch {
    fn duplicate(&self) -> (r: Self) {
        ProcessMatch {
            argv_prefix: duplicate_vec(&self.argv_prefix),
            kill_without_cleanup: self.kill_without_cleanup,
        }
    }
}

/// The lifecycle declarations of a registered shell.
#[derive(Debug, Clone)]
pub struct Lifecycle {
    pub adapter: String,
    pub niri_fragment: Option<String>,
    pub commands: Vec<CommandGate>,
    pub autostart: Vec<String>,
    pub services: Vec<String>,
    pub processes: Vec<ProcessMatch>,
    pub verify_argv: Vec<String>,
    pub frozen: Vec<OwnedFile>,
}

pub struct LifecycleView {
    pub adapter: Seq<char>,
    pub niri_fragment: Option<Seq<char>>,
    pub commands: Seq<CommandGateView>,
    pub autostart: Seq<Seq<char>>,
    pub services: Seq<Seq<char>>,
    pub processes: Seq<ProcessMatchView>,
    pub verify_argv: Seq<Seq<char>>,
    pub frozen: Seq<OwnedFileView>,
}

impl View for Lifecycle {
    type V = LifecycleView;

    open spec fn view(&self) -> LifecycleView {
        LifecycleView {
            adapter: self.adapter@,
            niri_fragment: self.niri_fragment.deep_view(),
            commands: self.commands.deep_view(),
            autostart: self.autostart.deep_view(),
            services: self.services.deep_view(),
            processes: self.processes.deep_view(),
            verify_argv: self.verify_argv.deep_view(),
            frozen: self.frozen.deep_view(),
        }
    }
}

impl DeepView for Lifecycle {
    type V = LifecycleView;

    open spec fn deep_view(&self) -> LifecycleView {
        self@
    }
}

impl Duplicate for Lifecycle {
    fn duplicate(&self) -> (r: Self) {
        Lifecycle {
            adapter: self.adapter.clone(),
            niri_fragment: duplicate_option(&self.niri_fragment),
            commands: duplicate_vec(&self.commands),
            autostart: duplicate_vec(&self.autostart),
            services: duplicate_vec(&self.services),
            processes: duplicate_vec(&self.processes),
            verify_argv: duplicate_vec(&self.verify_argv),
            frozen: duplicate_vec(&self.frozen),
        }
    }
}

impl Lifecycle {
    /// An empty declaration with the given adapter name.
    pub fn empty(adapter: String) -> (r: Lifecycle)
        ensures
            r@.adapter == adapter@,
            r@.niri_fragment is None,
            r@.commands.len() == 0,
            r@.autostart.len() == 0,
            r@.services.len() == 0,
            r@.processes.len() == 0,
            r@.verify_argv.len() == 0,
            r@.frozen.len() == 0,
    {
        Lifecycle {
            adapter,
            niri_fragment: None,
            commands: Vec::new(),
            autostart: Vec::new(),
            services: Vec::new(),
            processes: Vec::new(),
            verify_argv: Vec::new(),
            frozen: Vec::new(),
        }
    }
}

// ------------------------------------------------------------ snapshots

/// A regular file with the bytes of `s`.
pub fn text(s: &str, mode: u32) -> (r: Snapshot)
    ensures
        r@ == (SnapshotView::File { data: s.spec_bytes(), mode }),
{
    let b = s.as_bytes();
    let mut data: Vec<u8> = Vec::new();
    let mut i: usize = 0;
    while i < b.len()
        invariant
            i <= b.len(),
            b@ == s.spec_bytes(),
            data@ == b@.take(i as int),
        decreases b.len() - i,
    {
        data.push(b[i]);
        i += 1;
        assert(data@ =~= b@.take(i as int));
    }
    assert(b@.take(i as int) =~= b@);
    Snapshot::File { data, mode }
}

/// The bytes of a regular-file snapshot.
pub fn bytes(s: &Snapshot) -> (r: Result<&Vec<u8>, String>)
    ensures
        match s@ {
            SnapshotView::File { data, .. } => r matches Ok(d) && d@ == data,
            _ => r matches Err(e) && e@ == not_regular_message(),
        },
{
    match s {
        Snapshot::File { data, .. } => Ok(data),
        _ => {
            let e = "Expected a regular configuration file, not a symlink or missing path".to_string();
            proof {
                reveal_strlit("Expected a regular configuration file, not a symlink or missing path");
            }
            Err(e)
        },
    }
}

pub open spec fn not_regular_message() -> Seq<char> {
    "Expected a regular configuration file, not a symlink or missing path"@
}

// ------------------------------------------------------------ observations

/// What reading one path gave: its snapshot, or the error reading it raised.
#[derive(Debug)]
pub struct FileRead {
    pub path: String,
    pub result: Result<Snapshot, String>,
}

pub struct FileReadView {
    pub path: Seq<char>,
    pub result: Result<SnapshotView, Seq<char>>,
}

impl View for FileRead {
    type V = FileReadView;

    open spec fn view(&self) -> FileReadView {
        FileReadView {
            path: self.path@,
            result: match &self.result {
                Ok(s) => Ok(s@),
                Err(e) => Err(e@),
            },
        }
    }
}

impl DeepView for FileRead {
    type V = FileReadView;

    open spec fn deep_view(&self) -> FileReadView {
        self@
    }
}

/// The current content of the paths a decision needs, read beforehand.
#[derive(Debug)]
pub struct Disk {
    pub reads: Vec<FileRead>,
}

impl View for Disk {
    type V = Seq<FileReadView>;

    open spec fn view(&self) -> Seq<FileReadView> {
        self.reads.deep_view()
    }
}

pub open spec fn unobserved_message(p: Seq<char>) -> Seq<char> {
    "Path was not observed: "@ + p
}

/// Index of the first read of `p` in `d`, or -1.
pub open spec fn read_index(d: Seq<FileReadView>, p: Seq<char>) -> int
    decreases d.len(),
{
    if d.len() == 0 {
        -1
    } else if d.last().path == p {
        let r = read_index(d.drop_last(), p);
        if r < 0 {
            d.len() - 1
        } else {
            r
        }
    } else {
        read_index(d.drop_last(), p)
    }
}

/// What the observation says `p` holds.
pub open spec fn observed(d: Seq<FileReadView>, p: Seq<char>) -> Result<SnapshotView, Seq<char>> {
    let i = read_index(d, p);
    if i < 0 {
        Err(unobserved_message(p))
    } else {
        d[i].result
    }
}

pub proof fn lemma_read_index(d: Seq<FileReadView>, p: Seq<char>)
    ensures
        -1 <= read_index(d, p) < d.len(),
        read_index(d, p) >= 0 ==> d[read_index(d, p)].path == p,
        forall|j: int| 0 <= j < d.len() && (read_index(d, p) < 0 || j < read_index(d, p))
            ==> d[j].path != p,
    decreases d.len(),
{
    if d.len() > 0 {
        lemma_read_index(d.drop_last(), p);
        assert forall|j: int| 0 <= j < d.len() - 1 implies d.drop_last()[j] == d[j] by {}
    }
}

impl Disk {
    /// What the observation says `path` holds.
    pub fn lookup(&self, path: &String) -> (r: Result<Snapshot, String>)
        ensures
            match (r, observed(self@, path@)) {
                (Ok(a), Ok(b)) => a@ == b,
                (Err(a), Err(b)) => a@ == b,
                _ => false,
            },
    {
        proof {
            lemma_read_index(self@, path@);
        }
        let mut i: usize = 0;
        while i < self.reads.len()
            invariant
                i <= self.reads.len(),
                self@.len() == self.reads.len(),
                forall|j: int| 0 <= j < i ==> self@[j].path != path@,
                -1 <= read_index(self@, path@) < self@.len(),
                read_index(self@, path@) >= 0 ==> self@[read_index(self@, path@)].path == path@,
                forall|j: int|
                    0 <= j < self@.len() && (read_index(self@, path@) < 0 || j < read_index(
                        self@,
                        path@,
                    )) ==> self@[j].path != path@,
            decreases self.reads.len() - i,
        {
            assert(self@[i as int] == self.reads@[i as int]@);
            if same(self.reads[i].path.as_str(), path.as_str()) {
                assert(read_index(self@, path@) == i);
                return match &self.reads[i].result {
                    Ok(s) => Ok(s.duplicate()),
                    Err(e) => Err(e.clone()),
                };
            }
            i += 1;
        }
        let prefix = "Path was not observed: ".to_string();
        proof {
            reveal_strlit("Path was not observed: ");
        }
        Err(concat(prefix.as_str(), path.as_str()))
    }
}

pub open spec fn drift_message(p: Seq<char>) -> Seq<char> {
    "Ownership drift at "@ + p + "; run doctor / repair"@
}

/// Why `f` fails verification against `d`, if it does.
pub open spec fn verify_failure(d: Seq<FileReadView>, f: OwnedFileView) -> Option<Seq<char>> {
    match observed(d, f.path) {
        Err(e) => Some(e),
        Ok(s) => if s == f.expected {
            None
        } else {
            Some(drift_message(f.path))
        },
    }
}

/// Every owned file still holds its expected content: the first failure, if any.
pub fn verify(files: &Vec<OwnedFile>, disk: &Disk) -> (r: Result<(), String>)
    ensures
        match r {
            Ok(()) => forall|k: int|
                0 <= k < files@.len() ==> verify_failure(disk@, #[trigger] files@[k]@) is None,
            Err(e) => exists|k: int|
                0 <= k < files@.len() && verify_failure(disk@, #[trigger] files@[k]@) == Some(e@)
                    && forall|j: int|
                    0 <= j < k ==> verify_failure(disk@, #[trigger] files@[j]@) is None,
        },
{
    let mut i: usize = 0;
    while i < files.len()
        invariant
            i <= files.len(),
            forall|j: int| 0 <= j < i ==> verify_failure(disk@, #[trigger] files@[j]@) is None,
        decreases files.len() - i,
    {
        let f = &files[i];
        match disk.lookup(&f.path) {
            Err(e) => {
                assert(verify_failure(disk@, files@[i as int]@) == Some(e@));
                return Err(e);
            },
            Ok(s) => {
                if !snapshot_eq(&s, &f.expected) {
                    let m = concat("Ownership drift at ", f.path.as_str());
                    let m = concat(m.as_str(), "; run doctor / repair");
                    proof {
                        reveal_strlit("Ownership drift at ");
                        reveal_strlit("; run doctor / repair");
                    }
                    assert(verify_failure(disk@, files@[i as int]@) == Some(m@));
                    return Err(m);
                }
            },
        }
        i += 1;
    }
    Ok(())
}

} // verus!
