//! Which running processes belong to which shell. What only the system can
//! tell (session membership, environment overrides, directories and file
//! identities) is observed beforehand and handed in; the rules are here.
use crate::dup::Duplicate;
use crate::model::{Backend, BackendView, Candidate, CandidateView};
use crate::control::State;
use crate::ownership::{ProcessMatch, ProcessMatchView};
use crate::path::{file_name, file_name_of, join, join_path};
use crate::process::{Identity, IdentityView, Process, ProcessView};
use crate::text::{
    append, chars_of, concat, decimal, decimal_of, ends_with_chars, same, split_chars, split_on,
    starts_with_chars, string_of, trim, trim_chars,
};
use vstd::prelude::*;

verus! {

// ------------------------------------------------------------ observations

/// What resolving `path` to its canonical file gave: the canonical path, or
/// nothing when resolution failed.
#[derive(Debug)]
pub struct FileId {
    pub path: String,
    pub id: Option<String>,
}

pub struct FileIdView {
    pub path: Seq<char>,
    pub id: Option<Seq<char>>,
}

impl View for FileId {
    type V = FileIdView;

    open spec fn view(&self) -> FileIdView {
        FileIdView { path: self.path@, id: self.id.deep_view() }
    }
}

impl DeepView for FileId {
    type V = FileIdView;

    open spec fn deep_view(&self) -> FileIdView {
        self@
    }
}

/// The canonical file of `p` according to the first entry for it; nothing when
/// no entry resolved it.
pub open spec fn file_id(ids: Seq<FileIdView>, p: Seq<char>) -> Option<Seq<char>>
    decreases ids.len(),
{
    if ids.len() == 0 {
        None
    } else if ids[0].path == p {
        ids[0].id
    } else {
        file_id(ids.drop_first(), p)
    }
}

/// Both paths resolve, to the same file.
pub open spec fn same_file(ids: Seq<FileIdView>, a: Seq<char>, b: Seq<char>) -> bool {
    file_id(ids, a) is Some && file_id(ids, a) == file_id(ids, b)
}

/// Looks up the canonical file of `p`.
pub fn lookup_id(ids: &Vec<FileId>, p: &str) -> (r: Option<String>)
    ensures
        r.deep_view() == file_id(ids.deep_view(), p@),
{
    let mut i: usize = 0;
    assert(ids.deep_view().skip(0) =~= ids.deep_view());
    while i < ids.len()
        invariant
            i <= ids.len(),
            file_id(ids.deep_view(), p@) == file_id(ids.deep_view().skip(i as int), p@),
        decreases ids.len() - i,
    {
        let ghost rest = ids.deep_view().skip(i as int);
        assert(rest[0] == ids@[i as int]@);
        assert(rest.drop_first() =~= ids.deep_view().skip(i + 1));
        if same(ids[i].path.as_str(), p) {
            return match &ids[i].id {
                Some(x) => Some(x.clone()),
                None => None,
            };
        }
        i += 1;
    }
    None
}

/// Whether two paths name the same existing file.
pub fn is_same_file(ids: &Vec<FileId>, a: &str, b: &str) -> (r: bool)
    ensures
        r == same_file(ids.deep_view(), a@, b@),
{
    match (lookup_id(ids, a), lookup_id(ids, b)) {
        (Some(x), Some(y)) => same(x.as_str(), y.as_str()),
        (Some(_), None) => false,
        (None, _) => false,
    }
}

/// What the system shows of one process beyond its command line: whether it
/// runs in this graphical session, whether its environment overrides
/// Quickshell's configuration, and whether its Quickshell configuration path
/// is a directory.
#[derive(Debug, Clone, Copy)]
pub struct ProcessFacts {
    pub in_session: bool,
    pub env_override: bool,
    pub config_is_dir: bool,
}

// ------------------------------------------------------------ Quickshell

pub open spec fn qs_name() -> Seq<char> {
    "qs"@
}

pub open spec fn quickshell_name() -> Seq<char> {
    "quickshell"@
}

/// Arguments that make a Quickshell process a client, not a shell instance.
pub open spec fn client_verb(a: Seq<char>) -> bool {
    a == "ipc"@ || a == "list"@ || a == "kill"@ || a == "log"@
}

/// The configuration chosen on the command line, from the first `-p`/`--path`
/// (relative to the working directory) or `-c`/`--config` (a name under the
/// Quickshell configuration directory) at or after position `i`.
pub open spec fn selection_from(
    argv: Seq<Seq<char>>,
    cwd: Seq<char>,
    config_home: Seq<char>,
    i: int,
) -> Option<Seq<char>>
    decreases argv.len() - i,
    when 0 <= i
{
    if i + 1 >= argv.len() {
        None
    } else if argv[i] == "-p"@ || argv[i] == "--path"@ {
        Some(join(cwd, argv[i + 1]))
    } else if argv[i] == "-c"@ || argv[i] == "--config"@ {
        Some(join(join(config_home, "quickshell"@), argv[i + 1]))
    } else {
        selection_from(argv, cwd, config_home, i + 1)
    }
}

/// The configuration path a Quickshell process runs, or nothing when it is
/// not a plain shell instance (another program, a client command, or an
/// environment or extra argument that is not guessed).
pub open spec fn quickshell_config(
    p: ProcessView,
    config_home: Seq<char>,
    env_override: bool,
) -> Option<Seq<char>> {
    if p.argv.len() == 0 {
        None
    } else if !(file_name(p.argv[0]) == Some(qs_name()) || file_name(p.argv[0]) == Some(
        quickshell_name(),
    )) {
        None
    } else if exists|k: int| 0 <= k < p.argv.len() && client_verb(#[trigger] p.argv[k]) {
        None
    } else {
        let sel = selection_from(p.argv, p.cwd, config_home, 0);
        if sel is None && (env_override || p.argv.len() > 1) {
            None
        } else {
            match sel {
                Some(x) => Some(x),
                None => Some(join(config_home, "quickshell"@)),
            }
        }
    }
}

/// The entry file a Quickshell process runs: `shell.qml` inside a configuration directory.
pub open spec fn quickshell_entry(
    p: ProcessView,
    config_home: Seq<char>,
    f: ProcessFacts,
) -> Option<Seq<char>> {
    match quickshell_config(p, config_home, f.env_override) {
        None => None,
        Some(x) => Some(if f.config_is_dir {
            join(x, "shell.qml"@)
        } else {
            x
        }),
    }
}

/// Computes the configuration chosen on the command line.
fn selection(argv: &Vec<String>, cwd: &str, config_home: &str) -> (r: Option<String>)
    ensures
        r.deep_view() == selection_from(argv.deep_view(), cwd@, config_home@, 0),
{
    proof {
        reveal_strlit("-p");
        reveal_strlit("--path");
        reveal_strlit("-c");
        reveal_strlit("--config");
        reveal_strlit("quickshell");
    }
    let mut i: usize = 0;
    while i < argv.len() && i + 1 < argv.len()
        invariant
            i <= argv.len(),
            selection_from(argv.deep_view(), cwd@, config_home@, 0) == selection_from(
                argv.deep_view(),
                cwd@,
                config_home@,
                i as int,
            ),
        decreases argv.len() - i,
    {
        let a = argv[i].as_str();
        assert(argv.deep_view()[i as int] == a@);
        assert(argv.deep_view()[i + 1] == argv@[i + 1]@);
        if same(a, "-p") || same(a, "--path") {
            return Some(join_path(cwd, argv[i + 1].as_str()));
        }
        if same(a, "-c") || same(a, "--config") {
            let base = join_path(config_home, "quickshell");
            return Some(join_path(base.as_str(), argv[i + 1].as_str()));
        }
        i += 1;
    }
    None
}

/// The configuration path a Quickshell process runs, if it is a plain shell
/// instance; the caller observes whether it is a directory.
pub fn quickshell_config_path(p: &Process, config_home: &str, env_override: bool) -> (r: Option<
    String,
>)
    ensures
        r.deep_view() == quickshell_config(p@, config_home@, env_override),
{
    proof {
        reveal_strlit("qs");
        reveal_strlit("quickshell");
        reveal_strlit("ipc");
        reveal_strlit("list");
        reveal_strlit("kill");
        reveal_strlit("log");
    }
    if p.argv.len() == 0 {
        return None;
    }
    assert(p@.argv[0] == p.argv@[0]@);
    let named = match file_name_of(p.argv[0].as_str()) {
        Some(n) => same(n.as_str(), "qs") || same(n.as_str(), "quickshell"),
        None => false,
    };
    if !named {
        return None;
    }
    let mut k: usize = 0;
    while k < p.argv.len()
        invariant
            k <= p.argv.len(),
            forall|j: int| 0 <= j < k ==> !client_verb(#[trigger] p@.argv[j]),
        decreases p.argv.len() - k,
    {
        let a = p.argv[k].as_str();
        assert(p@.argv[k as int] == a@);
        if same(a, "ipc") || same(a, "list") || same(a, "kill") || same(a, "log") {
            assert(client_verb(p@.argv[k as int]));
            return None;
        }
        k += 1;
    }
    let sel = selection(&p.argv, p.cwd.as_str(), config_home);
    match sel {
        Some(x) => Some(x),
        None => {
            if env_override || p.argv.len() > 1 {
                None
            } else {
                Some(join_path(config_home, "quickshell"))
            }
        },
    }
}

// ------------------------------------------------------------ matching

pub open spec fn quickshell_framework() -> Seq<char> {
    "Quickshell"@
}

/// A process runs shell `c`: it is in this session, and either runs the same
/// Quickshell entry file as `c`'s source, or has exactly `c`'s command line,
/// the program compared as a file when the names differ.
pub open spec fn process_matches(
    c: CandidateView,
    p: ProcessView,
    f: ProcessFacts,
    ids: Seq<FileIdView>,
    config_home: Seq<char>,
) -> bool {
    f.in_session && match c.backend {
        BackendView::Process { argv, .. } => argv.len() > 0 && p.argv.len() > 0 && if c.framework
            == quickshell_framework() {
            quickshell_entry(p, config_home, f) matches Some(e) && same_file(ids, e, c.source)
        } else {
            argv.len() == p.argv.len() && (argv[0] == p.argv[0] || same_file(
                ids,
                argv[0],
                p.argv[0],
            )) && argv.drop_first() == p.argv.drop_first()
        },
        _ => false,
    }
}

/// Compares two argument lists from position 1 on.
fn same_tail(a: &Vec<String>, b: &Vec<String>) -> (r: bool)
    requires
        a.len() > 0,
        a.len() == b.len(),
    ensures
        r == (a.deep_view().drop_first() == b.deep_view().drop_first()),
{
    let mut i: usize = 1;
    while i < a.len()
        invariant
            1 <= i <= a.len(),
            a.len() == b.len(),
            forall|j: int| 1 <= j < i ==> a.deep_view()[j] == b.deep_view()[j],
        decreases a.len() - i,
    {
        assert(a.deep_view()[i as int] == a@[i as int]@);
        assert(b.deep_view()[i as int] == b@[i as int]@);
        if !same(a[i].as_str(), b[i].as_str()) {
            assert(a.deep_view().drop_first()[i - 1] != b.deep_view().drop_first()[i - 1]);
            return false;
        }
        i += 1;
    }
    assert(a.deep_view().drop_first() =~= b.deep_view().drop_first());
    true
}

/// Does process `p` run shell `c`?
pub fn matches(
    c: &Candidate,
    p: &Process,
    f: ProcessFacts,
    ids: &Vec<FileId>,
    config_home: &str,
) -> (r: bool)
    ensures
        r == process_matches(c@, p@, f, ids.deep_view(), config_home@),
{
    if !f.in_session {
        return false;
    }
    match &c.backend {
        Backend::Process { argv, .. } => {
            if argv.len() == 0 || p.argv.len() == 0 {
                return false;
            }
            proof {
                reveal_strlit("Quickshell");
                reveal_strlit("shell.qml");
            }
            if same(c.framework.as_str(), "Quickshell") {
                match quickshell_config_path(p, config_home, f.env_override) {
                    None => false,
                    Some(x) => {
                        let e = if f.config_is_dir {
                            join_path(x.as_str(), "shell.qml")
                        } else {
                            x
                        };
                        is_same_file(ids, e.as_str(), c.source.as_str())
                    },
                }
            } else {
                if argv.len() != p.argv.len() {
                    return false;
                }
                assert(argv.deep_view()[0] == argv@[0]@);
                assert(p@.argv[0] == p.argv@[0]@);
                let first = same(argv[0].as_str(), p.argv[0].as_str()) || is_same_file(
                    ids,
                    argv[0].as_str(),
                    p.argv[0].as_str(),
                );
                first && same_tail(argv, &p.argv)
            }
        },
        _ => false,
    }
}

/// The PIDs of the processes, in order, that run shell `c`.
pub open spec fn matching_pids(
    c: CandidateView,
    ps: Seq<ProcessView>,
    facts: Seq<ProcessFacts>,
    ids: Seq<FileIdView>,
    config_home: Seq<char>,
) -> Seq<u32>
    decreases ps.len(),
{
    if ps.len() == 0 {
        seq![]
    } else {
        let r = matching_pids(c, ps.drop_last(), facts.drop_last(), ids, config_home);
        if process_matches(c, ps.last(), facts.last(), ids, config_home) {
            r.push(ps.last().identity.pid)
        } else {
            r
        }
    }
}

/// Some observed process carries `pid`.
pub open spec fn present(ps: Seq<ProcessView>, pid: u32) -> bool {
    exists|k: int| 0 <= k < ps.len() && (#[trigger] ps[k]).identity.pid == pid
}

/// The recorded PIDs that some observed process still carries, in order.
pub open spec fn retained(pids: Seq<u32>, ps: Seq<ProcessView>) -> Seq<u32>
    decreases pids.len(),
{
    if pids.len() == 0 {
        seq![]
    } else {
        let r = retained(pids.drop_last(), ps);
        if present(ps, pids.last()) {
            r.push(pids.last())
        } else {
            r
        }
    }
}

/// A candidate's running PIDs after a process scan: every matching process
/// for a launchable shell; for one under review, the recorded PIDs still present.
pub open spec fn annotated(
    c: CandidateView,
    ps: Seq<ProcessView>,
    facts: Seq<ProcessFacts>,
    ids: Seq<FileIdView>,
    config_home: Seq<char>,
) -> CandidateView {
    CandidateView {
        running_pids: if c.backend is Review {
            retained(c.running_pids, ps)
        } else {
            matching_pids(c, ps, facts, ids, config_home)
        },
        ..c
    }
}

/// Whether some process carries `pid`.
fn is_present(ps: &Vec<Process>, pid: u32) -> (r: bool)
    ensures
        r == present(ps.deep_view(), pid),
{
    let mut k: usize = 0;
    while k < ps.len()
        invariant
            k <= ps.len(),
            forall|j: int| 0 <= j < k ==> ps.deep_view()[j].identity.pid != pid,
        decreases ps.len() - k,
    {
        assert(ps.deep_view()[k as int] == ps@[k as int]@);
        if ps[k].identity.pid == pid {
            return true;
        }
        k += 1;
    }
    false
}

/// The running PIDs of one candidate after a process scan.
fn annotate_one(
    c: &Candidate,
    ps: &Vec<Process>,
    facts: &Vec<ProcessFacts>,
    ids: &Vec<FileId>,
    config_home: &str,
) -> (r: Vec<u32>)
    requires
        facts@.len() == ps@.len(),
    ensures
        r@ == annotated(c@, ps.deep_view(), facts@, ids.deep_view(), config_home@).running_pids,
{
    let mut out: Vec<u32> = Vec::new();
    if let Backend::Review { .. } = &c.backend {
        let mut i: usize = 0;
        while i < c.running_pids.len()
            invariant
                i <= c.running_pids.len(),
                out@ == retained(c.running_pids@.take(i as int), ps.deep_view()),
            decreases c.running_pids.len() - i,
        {
            let ghost t = c.running_pids@.take(i + 1);
            assert(t.drop_last() =~= c.running_pids@.take(i as int));
            let pid = c.running_pids[i];
            if is_present(ps, pid) {
                out.push(pid);
            }
            i += 1;
        }
        assert(c.running_pids@.take(i as int) =~= c.running_pids@);
    } else {
        let mut k: usize = 0;
        while k < ps.len()
            invariant
                k <= ps.len(),
                facts@.len() == ps@.len(),
                !(c@.backend is Review),
                out@ == matching_pids(
                    c@,
                    ps.deep_view().take(k as int),
                    facts@.take(k as int),
                    ids.deep_view(),
                    config_home@,
                ),
            decreases ps.len() - k,
        {
            let ghost t = ps.deep_view().take(k + 1);
            let ghost u = facts@.take(k + 1);
            assert(t.drop_last() =~= ps.deep_view().take(k as int));
            assert(u.drop_last() =~= facts@.take(k as int));
            assert(t.last() == ps@[k as int]@);
            if matches(c, &ps[k], facts[k], ids, config_home) {
                out.push(ps[k].identity.pid);
            }
            k += 1;
        }
        assert(ps.deep_view().take(k as int) =~= ps.deep_view());
        assert(facts@.take(k as int) =~= facts@);
    }
    out
}

/// Records, for every candidate, which of the observed processes run it.
/// `facts[k]` is what the system shows of `ps[k]`; `ids` resolves the paths
/// compared as files.
pub fn annotate(
    cands: &mut Vec<Candidate>,
    ps: &Vec<Process>,
    facts: &Vec<ProcessFacts>,
    ids: &Vec<FileId>,
    config_home: &str,
)
    requires
        facts@.len() == ps@.len(),
    ensures
        final(cands)@.len() == old(cands)@.len(),
        forall|i: int|
            0 <= i < old(cands)@.len() ==> #[trigger] final(cands)@[i]@ == annotated(
                old(cands)@[i]@,
                ps.deep_view(),
                facts@,
                ids.deep_view(),
                config_home@,
            ),
{
    let mut out: Vec<Candidate> = Vec::new();
    let mut i: usize = 0;
    while i < cands.len()
        invariant
            i <= cands.len(),
            cands@ == old(cands)@,
            facts@.len() == ps@.len(),
            out@.len() == i,
            forall|j: int|
                0 <= j < i ==> #[trigger] out@[j]@ == annotated(
                    cands@[j]@,
                    ps.deep_view(),
                    facts@,
                    ids.deep_view(),
                    config_home@,
                ),
        decreases cands.len() - i,
    {
        let mut c = cands[i].duplicate();
        c.running_pids = annotate_one(&cands[i], ps, facts, ids, config_home);
        assert(c@ == annotated(cands@[i as int]@, ps.deep_view(), facts@, ids.deep_view(), config_home@));
        out.push(c);
        i += 1;
    }
    *cands = out;
}

// ------------------------------------------------------------ declared processes

/// What resolving a command name to an executable file gave, if anything.
#[derive(Debug)]
pub struct Resolution {
    pub name: String,
    pub path: Option<String>,
}

pub struct ResolutionView {
    pub name: Seq<char>,
    pub path: Option<Seq<char>>,
}

impl View for Resolution {
    type V = ResolutionView;

    open spec fn view(&self) -> ResolutionView {
        ResolutionView { name: self.name@, path: self.path.deep_view() }
    }
}

impl DeepView for Resolution {
    type V = ResolutionView;

    open spec fn deep_view(&self) -> ResolutionView {
        self@
    }
}

/// The executable `name` resolves to, by the first entry for it.
pub open spec fn resolved(exes: Seq<ResolutionView>, name: Seq<char>) -> Option<Seq<char>>
    decreases exes.len(),
{
    if exes.len() == 0 {
        None
    } else if exes[0].name == name {
        exes[0].path
    } else {
        resolved(exes.drop_first(), name)
    }
}

fn lookup_resolution(exes: &Vec<Resolution>, name: &str) -> (r: Option<String>)
    ensures
        r.deep_view() == resolved(exes.deep_view(), name@),
{
    let mut i: usize = 0;
    assert(exes.deep_view().skip(0) =~= exes.deep_view());
    while i < exes.len()
        invariant
            i <= exes.len(),
            resolved(exes.deep_view(), name@) == resolved(exes.deep_view().skip(i as int), name@),
        decreases exes.len() - i,
    {
        let ghost rest = exes.deep_view().skip(i as int);
        assert(rest[0] == exes@[i as int]@);
        assert(rest.drop_first() =~= exes.deep_view().skip(i + 1));
        if same(exes[i].name.as_str(), name) {
            return match &exes[i].path {
                Some(x) => Some(x.clone()),
                None => None,
            };
        }
        i += 1;
    }
    None
}

/// Element `i` of a declared prefix accepts argument `b`: equal text, or for
/// the program, a command that resolves to the same file (or to a file that
/// resolves no more than the declared one does).
pub open spec fn prefix_accepts(
    ids: Seq<FileIdView>,
    exes: Seq<ResolutionView>,
    i: int,
    a: Seq<char>,
    b: Seq<char>,
) -> bool {
    a == b || (i == 0 && (resolved(exes, b) matches Some(e) && file_id(ids, a) == file_id(ids, e)))
}

/// A declared matcher covers the process's command line.
pub open spec fn covers(
    m: ProcessMatchView,
    p: ProcessView,
    ids: Seq<FileIdView>,
    exes: Seq<ResolutionView>,
) -> bool {
    m.argv_prefix.len() <= p.argv.len() && forall|i: int|
        0 <= i < m.argv_prefix.len() ==> prefix_accepts(
            ids,
            exes,
            i,
            #[trigger] m.argv_prefix[i],
            p.argv[i],
        )
}

/// Index of the first matcher covering `p`, or -1.
pub open spec fn first_cover(
    ms: Seq<ProcessMatchView>,
    p: ProcessView,
    ids: Seq<FileIdView>,
    exes: Seq<ResolutionView>,
) -> int
    decreases ms.len(),
{
    if ms.len() == 0 {
        -1
    } else {
        let r = first_cover(ms.drop_last(), p, ids, exes);
        if r >= 0 {
            r
        } else if covers(ms.last(), p, ids, exes) {
            ms.len() - 1
        } else {
            -1
        }
    }
}

proof fn lemma_first_cover(
    ms: Seq<ProcessMatchView>,
    p: ProcessView,
    ids: Seq<FileIdView>,
    exes: Seq<ResolutionView>,
)
    ensures
        -1 <= first_cover(ms, p, ids, exes) < ms.len(),
        first_cover(ms, p, ids, exes) >= 0 ==> covers(ms[first_cover(ms, p, ids, exes)], p, ids, exes),
        forall|j: int|
            0 <= j < ms.len() && (first_cover(ms, p, ids, exes) < 0 || j < first_cover(
                ms,
                p,
                ids,
                exes,
            )) ==> !covers(#[trigger] ms[j], p, ids, exes),
    decreases ms.len(),
{
    if ms.len() > 0 {
        lemma_first_cover(ms.drop_last(), p, ids, exes);
        assert forall|j: int| 0 <= j < ms.len() - 1 implies ms.drop_last()[j] == ms[j] by {}
    }
}

/// The matcher of `c`'s registration that declares process `p` as one of its
/// own, if `p` runs in this session.
pub open spec fn declared_by(
    c: CandidateView,
    p: ProcessView,
    in_session: bool,
    ids: Seq<FileIdView>,
    exes: Seq<ResolutionView>,
) -> Option<ProcessMatchView> {
    if !in_session {
        None
    } else {
        match c.lifecycle {
            None => None,
            Some(l) => {
                let i = first_cover(l.processes, p, ids, exes);
                if i < 0 {
                    None
                } else {
                    Some(l.processes[i])
                }
            },
        }
    }
}

/// Does matcher `m` cover process `p`?
fn covers_process(m: &ProcessMatch, p: &Process, ids: &Vec<FileId>, exes: &Vec<Resolution>) -> (r:
    bool)
    ensures
        r == covers(m@, p@, ids.deep_view(), exes.deep_view()),
{
    if m.argv_prefix.len() > p.argv.len() {
        return false;
    }
    let mut i: usize = 0;
    while i < m.argv_prefix.len()
        invariant
            i <= m.argv_prefix.len() <= p.argv.len(),
            forall|j: int|
                0 <= j < i ==> prefix_accepts(
                    ids.deep_view(),
                    exes.deep_view(),
                    j,
                    #[trigger] m@.argv_prefix[j],
                    p@.argv[j],
                ),
        decreases m.argv_prefix.len() - i,
    {
        let a = m.argv_prefix[i].as_str();
        let b = p.argv[i].as_str();
        assert(m@.argv_prefix[i as int] == a@);
        assert(p@.argv[i as int] == b@);
        let ok = if same(a, b) {
            true
        } else if i == 0 {
            match lookup_resolution(exes, b) {
                None => false,
                Some(e) => {
                    let x = lookup_id(ids, a);
                    let y = lookup_id(ids, e.as_str());
                    match (x, y) {
                        (None, None) => true,
                        (Some(u), Some(v)) => same(u.as_str(), v.as_str()),
                        _ => false,
                    }
                },
            }
        } else {
            false
        };
        if !ok {
            assert(!prefix_accepts(ids.deep_view(), exes.deep_view(), i as int, m@.argv_prefix[i as int], p@.argv[i as int]));
            return false;
        }
        i += 1;
    }
    true
}

/// The matcher of `c`'s registration that declares `p`, if any.
pub fn declared<'a>(
    c: &'a Candidate,
    p: &Process,
    in_session: bool,
    ids: &Vec<FileId>,
    exes: &Vec<Resolution>,
) -> (r: Option<&'a ProcessMatch>)
    ensures
        r.deep_view() == declared_by(c@, p@, in_session, ids.deep_view(), exes.deep_view()),
{
    if !in_session {
        return None;
    }
    match &c.lifecycle {
        None => None,
        Some(l) => {
            proof {
                lemma_first_cover(l@.processes, p@, ids.deep_view(), exes.deep_view());
            }
            let mut i: usize = 0;
            while i < l.processes.len()
                invariant
                    i <= l.processes.len(),
                    l@.processes == l.processes.deep_view(),
                    c@.lifecycle == Some(l@),
                    in_session,
                    forall|j: int|
                        0 <= j < i ==> !covers(
                            #[trigger] l@.processes[j],
                            p@,
                            ids.deep_view(),
                            exes.deep_view(),
                        ),
                decreases l.processes.len() - i,
            {
                assert(l@.processes[i as int] == l.processes@[i as int]@);
                if covers_process(&l.processes[i], p, ids, exes) {
                    proof {
                        lemma_first_cover(l@.processes, p@, ids.deep_view(), exes.deep_view());
                    }
                    assert(first_cover(l@.processes, p@, ids.deep_view(), exes.deep_view()) == i);
                    return Some(&l.processes[i]);
                }
                i += 1;
            }
            proof {
                lemma_first_cover(l@.processes, p@, ids.deep_view(), exes.deep_view());
            }
            assert(first_cover(l@.processes, p@, ids.deep_view(), exes.deep_view()) < 0);
            None
        },
    }
}

// ------------------------------------------------------------ quiescing

/// One owned process to stop: plainly (terminate, then kill the survivors) or,
/// when its matcher says so, killed at once without cleanup.
#[derive(Debug)]
pub struct Stop {
    pub identity: Identity,
    pub kill: bool,
}

pub struct StopView {
    pub identity: IdentityView,
    pub kill: bool,
}

impl View for Stop {
    type V = StopView;

    open spec fn view(&self) -> StopView {
        StopView { identity: self.identity@, kill: self.kill }
    }
}

impl DeepView for Stop {
    type V = StopView;

    open spec fn deep_view(&self) -> StopView {
        self@
    }
}

/// The service units the registrations declare, in registry order.
pub open spec fn units_of(inst: Seq<CandidateView>) -> Seq<Seq<char>>
    decreases inst.len(),
{
    if inst.len() == 0 {
        seq![]
    } else {
        units_of(inst.drop_last()) + match inst.last().lifecycle {
            Some(l) => l.services,
            None => seq![],
        }
    }
}

/// The processes that `c` declares, in scan order, each with how to stop it.
pub open spec fn stops_for(
    c: CandidateView,
    ps: Seq<ProcessView>,
    facts: Seq<ProcessFacts>,
    ids: Seq<FileIdView>,
    exes: Seq<ResolutionView>,
) -> Seq<StopView>
    decreases ps.len(),
{
    if ps.len() == 0 {
        seq![]
    } else {
        let r = stops_for(c, ps.drop_last(), facts.drop_last(), ids, exes);
        match declared_by(c, ps.last(), facts.last().in_session, ids, exes) {
            Some(m) => r.push(StopView { identity: ps.last().identity, kill: m.kill_without_cleanup }),
            None => r,
        }
    }
}

/// Every registration's declared processes, registration by registration.
pub open spec fn stops_of(
    inst: Seq<CandidateView>,
    ps: Seq<ProcessView>,
    facts: Seq<ProcessFacts>,
    ids: Seq<FileIdView>,
    exes: Seq<ResolutionView>,
) -> Seq<StopView>
    decreases inst.len(),
{
    if inst.len() == 0 {
        seq![]
    } else {
        stops_of(inst.drop_last(), ps, facts, ids, exes) + stops_for(inst.last(), ps, facts, ids, exes)
    }
}

/// Appends the processes that `c` declares.
fn push_stops(
    out: &mut Vec<Stop>,
    c: &Candidate,
    ps: &Vec<Process>,
    facts: &Vec<ProcessFacts>,
    ids: &Vec<FileId>,
    exes: &Vec<Resolution>,
)
    requires
        facts@.len() == ps@.len(),
    ensures
        final(out).deep_view() == old(out).deep_view() + stops_for(
            c@,
            ps.deep_view(),
            facts@,
            ids.deep_view(),
            exes.deep_view(),
        ),
{
    let ghost start = out.deep_view();
    let mut k: usize = 0;
    assert(start =~= start + Seq::<StopView>::empty());
    while k < ps.len()
        invariant
            k <= ps.len(),
            facts@.len() == ps@.len(),
            out.deep_view() == start + stops_for(
                c@,
                ps.deep_view().take(k as int),
                facts@.take(k as int),
                ids.deep_view(),
                exes.deep_view(),
            ),
        decreases ps.len() - k,
    {
        let ghost t = ps.deep_view().take(k + 1);
        let ghost u = facts@.take(k + 1);
        assert(t.drop_last() =~= ps.deep_view().take(k as int));
        assert(u.drop_last() =~= facts@.take(k as int));
        assert(t.last() == ps@[k as int]@);
        let p = &ps[k];
        let ghost before = out.deep_view();
        match declared(c, p, facts[k].in_session, ids, exes) {
            Some(m) => {
                out.push(Stop { identity: p.identity.duplicate(), kill: m.kill_without_cleanup });
                assert(out.deep_view() =~= before.push(StopView { identity: p@.identity, kill: m@.kill_without_cleanup }));
            },
            None => {},
        }
        k += 1;
    }
    assert(ps.deep_view().take(k as int) =~= ps.deep_view());
    assert(facts@.take(k as int) =~= facts@);
}

/// What quiescing the registered shells does, in order: stop every declared
/// service unit through its supervisor, then stop every process that a
/// registration declares as its own. Nothing else is a stop target.
pub fn quiesce(
    s: &State,
    ps: &Vec<Process>,
    facts: &Vec<ProcessFacts>,
    ids: &Vec<FileId>,
    exes: &Vec<Resolution>,
) -> (r: (Vec<String>, Vec<Stop>))
    requires
        facts@.len() == ps@.len(),
    ensures
        r.0.deep_view() == units_of(s@.installed),
        r.1.deep_view() == stops_of(s@.installed, ps.deep_view(), facts@, ids.deep_view(), exes.deep_view()),
{
    let mut units: Vec<String> = Vec::new();
    let mut stops: Vec<Stop> = Vec::new();
    let mut i: usize = 0;
    while i < s.installed.len()
        invariant
            i <= s.installed.len(),
            facts@.len() == ps@.len(),
            units.deep_view() == units_of(s@.installed.take(i as int)),
            stops.deep_view() == stops_of(
                s@.installed.take(i as int),
                ps.deep_view(),
                facts@,
                ids.deep_view(),
                exes.deep_view(),
            ),
        decreases s.installed.len() - i,
    {
        let ghost t = s@.installed.take(i + 1);
        assert(t.drop_last() =~= s@.installed.take(i as int));
        assert(t.last() == s.installed@[i as int]@);
        let c = &s.installed[i];
        let ghost ub = units.deep_view();
        let ghost x = match c@.lifecycle {
            Some(l) => l.services,
            None => seq![],
        };
        if let Some(l) = &c.lifecycle {
            let mut j: usize = 0;
            while j < l.services.len()
                invariant
                    j <= l.services.len(),
                    units.deep_view() == ub + l.services.deep_view().take(j as int),
                decreases l.services.len() - j,
            {
                let ghost b = units.deep_view();
                units.push(l.services[j].clone());
                assert(units.deep_view() =~= b.push(l.services@[j as int]@));
                assert(l.services.deep_view().take(j + 1) =~= l.services.deep_view().take(j as int).push(
                    l.services@[j as int]@,
                ));
                j += 1;
            }
            assert(l.services.deep_view().take(j as int) =~= l.services.deep_view());
            assert(units.deep_view() =~= ub + x);
        } else {
            assert(units.deep_view() =~= ub + x);
        }
        push_stops(&mut stops, c, ps, facts, ids, exes);
        i += 1;
    }
    assert(s@.installed.take(i as int) =~= s@.installed);
    (units, stops)
}

// ------------------------------------------------------------ inactive shells

/// A unit's `ActiveState` that counts as running.
pub open spec fn unit_running(status: Seq<char>) -> bool {
    status == "active"@ || status == "activating"@ || status == "reloading"@
}

/// What `systemctl --user show` reported as a unit's state.
#[derive(Debug)]
pub struct UnitState {
    pub unit: String,
    pub state: Result<String, String>,
}

pub struct UnitStateView {
    pub unit: Seq<char>,
    pub state: Result<Seq<char>, Seq<char>>,
}

impl View for UnitState {
    type V = UnitStateView;

    open spec fn view(&self) -> UnitStateView {
        UnitStateView {
            unit: self.unit@,
            state: match &self.state {
                Ok(x) => Ok(x@),
                Err(e) => Err(e@),
            },
        }
    }
}

impl DeepView for UnitState {
    type V = UnitStateView;

    open spec fn deep_view(&self) -> UnitStateView {
        self@
    }
}

/// The state reported for `unit`, by its first entry.
pub open spec fn unit_state(units: Seq<UnitStateView>, unit: Seq<char>) -> Result<Seq<char>, Seq<char>>
    decreases units.len(),
{
    if units.len() == 0 {
        Err(unreported_unit_message(unit))
    } else if units[0].unit == unit {
        units[0].state
    } else {
        unit_state(units.drop_first(), unit)
    }
}

pub open spec fn unreported_unit_message(unit: Seq<char>) -> Seq<char> {
    "No state was reported for unit "@ + unit
}

pub open spec fn service_running_message(unit: Seq<char>, id: Seq<char>) -> Seq<char> {
    "Inactive shell service "@ + unit + " is running; disable "@ + id + " --yes"@
}

pub open spec fn resurrected_message(name: Seq<char>, pid: u32) -> Seq<char> {
    "Inactive shell "@ + name + " resurrected as PID "@ + decimal(pid as nat)
        + "; disable it and inspect startup inventory"@
}

/// The first of `c`'s units, in order, that runs or whose state is unknown.
pub open spec fn unit_failure(c: CandidateView, units: Seq<UnitStateView>, us: Seq<Seq<char>>) -> Option<
    Seq<char>,
>
    decreases us.len(),
{
    if us.len() == 0 {
        None
    } else {
        match unit_failure(c, units, us.drop_last()) {
            Some(e) => Some(e),
            None => match unit_state(units, us.last()) {
                Err(e) => Some(e),
                Ok(st) => if unit_running(trim(st)) {
                    Some(service_running_message(us.last(), c.id))
                } else {
                    None
                },
            },
        }
    }
}

/// The first live process, in scan order, that `c` declares.
pub open spec fn process_failure(
    c: CandidateView,
    ps: Seq<ProcessView>,
    facts: Seq<ProcessFacts>,
    alive: Seq<bool>,
    ids: Seq<FileIdView>,
    exes: Seq<ResolutionView>,
) -> Option<Seq<char>>
    decreases ps.len(),
{
    if ps.len() == 0 {
        None
    } else {
        match process_failure(c, ps.drop_last(), facts.drop_last(), alive.drop_last(), ids, exes) {
            Some(e) => Some(e),
            None => if declared_by(c, ps.last(), facts.last().in_session, ids, exes) is Some
                && alive.last() {
                Some(resurrected_message(c.name, ps.last().identity.pid))
            } else {
                None
            },
        }
    }
}

/// The first sign that a shell other than `target` still runs: a running
/// service unit, then a live declared process, registration by registration.
pub open spec fn inactive_failure(
    inst: Seq<CandidateView>,
    target: Option<Seq<char>>,
    units: Seq<UnitStateView>,
    ps: Seq<ProcessView>,
    facts: Seq<ProcessFacts>,
    alive: Seq<bool>,
    ids: Seq<FileIdView>,
    exes: Seq<ResolutionView>,
) -> Option<Seq<char>>
    decreases inst.len(),
{
    if inst.len() == 0 {
        None
    } else {
        match inactive_failure(inst.drop_last(), target, units, ps, facts, alive, ids, exes) {
            Some(e) => Some(e),
            None => {
                let c = inst.last();
                if target == Some(c.id) {
                    None
                } else {
                    match unit_failure(
                        c,
                        units,
                        match c.lifecycle {
                            Some(l) => l.services,
                            None => seq![],
                        },
                    ) {
                        Some(e) => Some(e),
                        None => process_failure(c, ps, facts, alive, ids, exes),
                    }
                }
            },
        }
    }
}

fn lookup_unit(units: &Vec<UnitState>, unit: &str) -> (r: Result<String, String>)
    ensures
        match (r, unit_state(units.deep_view(), unit@)) {
            (Ok(a), Ok(b)) => a@ == b,
            (Err(a), Err(b)) => a@ == b,
            _ => false,
        },
{
    let mut i: usize = 0;
    assert(units.deep_view().skip(0) =~= units.deep_view());
    while i < units.len()
        invariant
            i <= units.len(),
            unit_state(units.deep_view(), unit@) == unit_state(units.deep_view().skip(i as int), unit@),
        decreases units.len() - i,
    {
        let ghost rest = units.deep_view().skip(i as int);
        assert(rest[0] == units@[i as int]@);
        assert(rest.drop_first() =~= units.deep_view().skip(i + 1));
        if same(units[i].unit.as_str(), unit) {
            return match &units[i].state {
                Ok(x) => Ok(x.clone()),
                Err(e) => Err(e.clone()),
            };
        }
        i += 1;
    }
    proof {
        reveal_strlit("No state was reported for unit ");
    }
    Err(concat("No state was reported for unit ", unit))
}

fn check_units(c: &Candidate, units: &Vec<UnitState>, us: &Vec<String>) -> (r: Result<(), String>)
    ensures
        match r {
            Ok(()) => unit_failure(c@, units.deep_view(), us.deep_view()) is None,
            Err(e) => unit_failure(c@, units.deep_view(), us.deep_view()) == Some(e@),
        },
{
    let mut err: Option<String> = None;
    let mut j: usize = 0;
    while j < us.len()
        invariant
            j <= us.len(),
            err.deep_view() == unit_failure(c@, units.deep_view(), us.deep_view().take(j as int)),
        decreases us.len() - j,
    {
        let ghost t = us.deep_view().take(j + 1);
        assert(t.drop_last() =~= us.deep_view().take(j as int));
        assert(t.last() == us@[j as int]@);
        if err.is_none() {
            match lookup_unit(units, us[j].as_str()) {
                Err(e) => {
                    err = Some(e);
                },
                Ok(st) => {
                    let v = chars_of(st.as_str());
                    let tv = trim_chars(v.as_slice());
                    let t = string_of(tv.as_slice());
                    proof {
                        reveal_strlit("active");
                        reveal_strlit("activating");
                        reveal_strlit("reloading");
                        reveal_strlit("Inactive shell service ");
                        reveal_strlit(" is running; disable ");
                        reveal_strlit(" --yes");
                    }
                    if same(t.as_str(), "active") || same(t.as_str(), "activating") || same(
                        t.as_str(),
                        "reloading",
                    ) {
                        let mut m = concat("Inactive shell service ", us[j].as_str());
                        append(&mut m, " is running; disable ");
                        append(&mut m, c.id.as_str());
                        append(&mut m, " --yes");
                        err = Some(m);
                    }
                },
            }
        }
        j += 1;
    }
    assert(us.deep_view().take(j as int) =~= us.deep_view());
    match err {
        None => Ok(()),
        Some(e) => Err(e),
    }
}

fn check_processes(
    c: &Candidate,
    ps: &Vec<Process>,
    facts: &Vec<ProcessFacts>,
    alive: &Vec<bool>,
    ids: &Vec<FileId>,
    exes: &Vec<Resolution>,
) -> (r: Result<(), String>)
    requires
        facts@.len() == ps@.len(),
        alive@.len() == ps@.len(),
    ensures
        match r {
            Ok(()) => process_failure(c@, ps.deep_view(), facts@, alive@, ids.deep_view(), exes.deep_view()) is None,
            Err(e) => process_failure(c@, ps.deep_view(), facts@, alive@, ids.deep_view(), exes.deep_view())
                == Some(e@),
        },
{
    let mut err: Option<String> = None;
    let mut k: usize = 0;
    while k < ps.len()
        invariant
            k <= ps.len(),
            facts@.len() == ps@.len(),
            alive@.len() == ps@.len(),
            err.deep_view() == process_failure(
                c@,
                ps.deep_view().take(k as int),
                facts@.take(k as int),
                alive@.take(k as int),
                ids.deep_view(),
                exes.deep_view(),
            ),
        decreases ps.len() - k,
    {
        let ghost t = ps.deep_view().take(k + 1);
        assert(t.drop_last() =~= ps.deep_view().take(k as int));
        assert(facts@.take(k + 1).drop_last() =~= facts@.take(k as int));
        assert(alive@.take(k + 1).drop_last() =~= alive@.take(k as int));
        assert(t.last() == ps@[k as int]@);
        if err.is_none() {
            if declared(c, &ps[k], facts[k].in_session, ids, exes).is_some() && alive[k] {
                proof {
                    reveal_strlit("Inactive shell ");
                    reveal_strlit(" resurrected as PID ");
                    reveal_strlit("; disable it and inspect startup inventory");
                }
                let mut m = concat("Inactive shell ", c.name.as_str());
                append(&mut m, " resurrected as PID ");
                let n = decimal_of(ps[k].identity.pid as u64);
                append(&mut m, n.as_str());
                append(&mut m, "; disable it and inspect startup inventory");
                err = Some(m);
            }
        }
        k += 1;
    }
    assert(ps.deep_view().take(k as int) =~= ps.deep_view());
    assert(facts@.take(k as int) =~= facts@);
    assert(alive@.take(k as int) =~= alive@);
    match err {
        None => Ok(()),
        Some(e) => Err(e),
    }
}

/// Checks that no shell but `target` still runs: for every other registration,
/// none of its service units is running (`units` holds what the service
/// manager reported) and none of its declared processes is alive.
pub fn verify_inactive(
    s: &State,
    target: Option<&str>,
    units: &Vec<UnitState>,
    ps: &Vec<Process>,
    facts: &Vec<ProcessFacts>,
    alive: &Vec<bool>,
    ids: &Vec<FileId>,
    exes: &Vec<Resolution>,
) -> (r: Result<(), String>)
    requires
        facts@.len() == ps@.len(),
        alive@.len() == ps@.len(),
    ensures
        match r {
            Ok(()) => inactive_failure(
                s@.installed,
                match target {
                    Some(t) => Some(t@),
                    None => None,
                },
                units.deep_view(),
                ps.deep_view(),
                facts@,
                alive@,
                ids.deep_view(),
                exes.deep_view(),
            ) is None,
            Err(e) => inactive_failure(
                s@.installed,
                match target {
                    Some(t) => Some(t@),
                    None => None,
                },
                units.deep_view(),
                ps.deep_view(),
                facts@,
                alive@,
                ids.deep_view(),
                exes.deep_view(),
            ) == Some(e@),
        },
{
    let ghost tv: Option<Seq<char>> = match target {
        Some(t) => Some(t@),
        None => None,
    };
    let mut i: usize = 0;
    while i < s.installed.len()
        invariant
            i <= s.installed.len(),
            facts@.len() == ps@.len(),
            alive@.len() == ps@.len(),
            tv == match target {
                Some(t) => Some(t@),
                None => None::<Seq<char>>,
            },
            inactive_failure(
                s@.installed.take(i as int),
                tv,
                units.deep_view(),
                ps.deep_view(),
                facts@,
                alive@,
                ids.deep_view(),
                exes.deep_view(),
            ) is None,
        decreases s.installed.len() - i,
    {
        let ghost t = s@.installed.take(i + 1);
        assert(t.drop_last() =~= s@.installed.take(i as int));
        assert(t.last() == s.installed@[i as int]@);
        let c = &s.installed[i];
        let skip = match target {
            Some(x) => same(x, c.id.as_str()),
            None => false,
        };
        if !skip {
            match &c.lifecycle {
                Some(l) => {
                    if let Err(e) = check_units(c, units, &l.services) {
                        proof {
                            lemma_inactive_stops(s@.installed, i + 1, tv, units.deep_view(), ps.deep_view(), facts@, alive@, ids.deep_view(), exes.deep_view());
                        }
                        return Err(e);
                    }
                },
                None => {
                    let empty: Vec<String> = Vec::new();
                    let r = check_units(c, units, &empty);
                    assert(empty.deep_view() =~= Seq::<Seq<char>>::empty());
                },
            }
            if let Err(e) = check_processes(c, ps, facts, alive, ids, exes) {
                proof {
                    lemma_inactive_stops(s@.installed, i + 1, tv, units.deep_view(), ps.deep_view(), facts@, alive@, ids.deep_view(), exes.deep_view());
                }
                return Err(e);
            }
        }
        i += 1;
    }
    assert(s@.installed.take(i as int) =~= s@.installed);
    Ok(())
}

/// A failure found among the first `m` registrations is the overall failure.
proof fn lemma_inactive_stops(
    inst: Seq<CandidateView>,
    m: int,
    target: Option<Seq<char>>,
    units: Seq<UnitStateView>,
    ps: Seq<ProcessView>,
    facts: Seq<ProcessFacts>,
    alive: Seq<bool>,
    ids: Seq<FileIdView>,
    exes: Seq<ResolutionView>,
)
    requires
        0 <= m <= inst.len(),
        inactive_failure(inst.take(m), target, units, ps, facts, alive, ids, exes) is Some,
    ensures
        inactive_failure(inst, target, units, ps, facts, alive, ids, exes) == inactive_failure(
            inst.take(m),
            target,
            units,
            ps,
            facts,
            alive,
            ids,
            exes,
        ),
    decreases inst.len() - m,
{
    if inst.len() == m {
        assert(inst.take(m) =~= inst);
    } else {
        assert(inst.drop_last().take(m) =~= inst.take(m));
        lemma_inactive_stops(inst.drop_last(), m, target, units, ps, facts, alive, ids, exes);
    }
}

// ------------------------------------------------------------ adoption

pub open spec fn unavailable_message() -> Seq<char> {
    "Process unavailable or not owned by this user"@
}

pub open spec fn mismatch_message() -> Seq<char> {
    "PID does not match this candidate's exact entrypoint"@
}

pub open spec fn service_owned_message() -> Seq<char> {
    "Process belongs to a service; use a systemd manifest to avoid supervisor respawns"@
}

/// A control-group path segment of a service other than the user manager.
pub open spec fn service_segment(seg: Seq<char>) -> bool {
    crate::text::ends_with(trim(seg), ".service"@) && !crate::text::starts_with(seg, "user@"@)
}

/// Some segment of the control-group path belongs to a service.
pub open spec fn service_owned(g: Seq<char>) -> bool {
    exists|k: int| 0 <= k < split_on(g, '/').len() && service_segment(#[trigger] split_on(g, '/')[k])
}

/// Whether a running process may be adopted as `c`'s instance: it exists, runs
/// exactly `c`, and does not belong to a service, which would respawn it.
pub open spec fn adoption(
    c: CandidateView,
    p: Option<ProcessView>,
    f: ProcessFacts,
    ids: Seq<FileIdView>,
    config_home: Seq<char>,
    cgroup: Result<Seq<char>, Seq<char>>,
) -> Result<IdentityView, Seq<char>> {
    match p {
        None => Err(unavailable_message()),
        Some(p) => if !process_matches(c, p, f, ids, config_home) {
            Err(mismatch_message())
        } else {
            match cgroup {
                Err(e) => Err(e),
                Ok(g) => if service_owned(g) {
                    Err(service_owned_message())
                } else {
                    Ok(p.identity)
                },
            }
        },
    }
}

/// Checks that the process found at a PID may be adopted as `c`'s instance.
/// `p` is what inspecting the PID showed, `cgroup` what reading its control
/// group gave.
pub fn adoptable(
    c: &Candidate,
    p: Option<&Process>,
    f: ProcessFacts,
    ids: &Vec<FileId>,
    config_home: &str,
    cgroup: Result<String, String>,
) -> (r: Result<Identity, String>)
    ensures
        match (r, adoption(
            c@,
            match p {
                Some(x) => Some(x@),
                None => None,
            },
            f,
            ids.deep_view(),
            config_home@,
            match cgroup {
                Ok(g) => Ok(g@),
                Err(e) => Err(e@),
            },
        )) {
            (Ok(a), Ok(b)) => a@ == b,
            (Err(a), Err(b)) => a@ == b,
            _ => false,
        },
{
    proof {
        reveal_strlit("Process unavailable or not owned by this user");
        reveal_strlit("PID does not match this candidate's exact entrypoint");
        reveal_strlit("Process belongs to a service; use a systemd manifest to avoid supervisor respawns");
        reveal_strlit(".service");
        reveal_strlit("user@");
    }
    let q = match p {
        None => return Err("Process unavailable or not owned by this user".to_string()),
        Some(q) => q,
    };
    if !matches(c, q, f, ids, config_home) {
        return Err("PID does not match this candidate's exact entrypoint".to_string());
    }
    let g = match cgroup {
        Err(e) => return Err(e),
        Ok(g) => g,
    };
    let gv = chars_of(g.as_str());
    let segs = split_chars(gv.as_slice(), '/');
    let svc: Vec<char> = chars_of(".service");
    let usr: Vec<char> = chars_of("user@");
    let mut k: usize = 0;
    while k < segs.len()
        invariant
            k <= segs.len(),
            segs@.len() == split_on(g@, '/').len(),
            forall|j: int| 0 <= j < segs@.len() ==> #[trigger] segs@[j]@ == split_on(g@, '/')[j],
            svc@ == ".service"@,
            usr@ == "user@"@,
            p matches Some(x) && x@ == q@,
            process_matches(c@, q@, f, ids.deep_view(), config_home@),
            cgroup matches Ok(x) && x@ == g@,
            forall|j: int| 0 <= j < k ==> !service_segment(#[trigger] split_on(g@, '/')[j]),
        decreases segs.len() - k,
    {
        let t = trim_chars(segs[k].as_slice());
        assert(segs@[k as int]@ == split_on(g@, '/')[k as int]);
        if ends_with_chars(t.as_slice(), svc.as_slice()) && !starts_with_chars(
            segs[k].as_slice(),
            usr.as_slice(),
        ) {
            proof {
                reveal_strlit("Process belongs to a service; use a systemd manifest to avoid supervisor respawns");
            }
            assert(t@ == trim(segs@[k as int]@));
            assert(crate::text::ends_with(t@, ".service"@));
            assert(!crate::text::starts_with(segs@[k as int]@, "user@"@));
            assert(service_segment(split_on(g@, '/')[k as int]));
            assert(service_owned(g@));
            return Err("Process belongs to a service; use a systemd manifest to avoid supervisor respawns".to_string());
        }
        k += 1;
    }
    Ok(q.identity.duplicate())
}

/// Stop target `x` is process `j` of the scan, which registration `c`
/// declares, stopped the way its matcher says.
pub open spec fn declared_target(
    c: CandidateView,
    ps: Seq<ProcessView>,
    facts: Seq<ProcessFacts>,
    ids: Seq<FileIdView>,
    exes: Seq<ResolutionView>,
    j: int,
    x: StopView,
) -> bool {
    0 <= j < ps.len() && ps[j].identity == x.identity && declared_by(
        c,
        ps[j],
        facts[j].in_session,
        ids,
        exes,
    ) is Some && declared_by(c, ps[j], facts[j].in_session, ids, exes)->0.kill_without_cleanup
        == x.kill
}

/// Some process of the scan that `c` declares is stop target `x`.
pub open spec fn declared_by_shell(
    c: CandidateView,
    ps: Seq<ProcessView>,
    facts: Seq<ProcessFacts>,
    ids: Seq<FileIdView>,
    exes: Seq<ResolutionView>,
    x: StopView,
) -> bool {
    exists|j: int| #[trigger] declared_target(c, ps, facts, ids, exes, j, x)
}

/// Some registration declares stop target `x`.
pub open spec fn declared_by_any(
    inst: Seq<CandidateView>,
    ps: Seq<ProcessView>,
    facts: Seq<ProcessFacts>,
    ids: Seq<FileIdView>,
    exes: Seq<ResolutionView>,
    x: StopView,
) -> bool {
    exists|i: int| 0 <= i < inst.len() && declared_by_shell(#[trigger] inst[i], ps, facts, ids, exes, x)
}

proof fn lemma_stops_for(
    c: CandidateView,
    ps: Seq<ProcessView>,
    facts: Seq<ProcessFacts>,
    ids: Seq<FileIdView>,
    exes: Seq<ResolutionView>,
)
    requires
        facts.len() == ps.len(),
    ensures
        forall|k: int|
            0 <= k < stops_for(c, ps, facts, ids, exes).len() ==> declared_by_shell(
                c,
                ps,
                facts,
                ids,
                exes,
                #[trigger] stops_for(c, ps, facts, ids, exes)[k],
            ),
    decreases ps.len(),
{
    if ps.len() > 0 {
        let ps0 = ps.drop_last();
        let f0 = facts.drop_last();
        lemma_stops_for(c, ps0, f0, ids, exes);
        let r0 = stops_for(c, ps0, f0, ids, exes);
        let r = stops_for(c, ps, facts, ids, exes);
        assert forall|k: int| 0 <= k < r.len() implies declared_by_shell(
            c,
            ps,
            facts,
            ids,
            exes,
            #[trigger] r[k],
        ) by {
            if k < r0.len() {
                assert(r[k] == r0[k]);
                let x = r0[k];
                assert(declared_by_shell(c, ps0, f0, ids, exes, x));
                let j = choose|j: int| #[trigger] declared_target(c, ps0, f0, ids, exes, j, x);
                assert(ps[j] == ps0[j] && facts[j] == f0[j]);
                assert(declared_target(c, ps, facts, ids, exes, j, r[k]));
            } else {
                let j = ps.len() - 1;
                assert(ps[j] == ps.last() && facts[j] == facts.last());
                assert(declared_target(c, ps, facts, ids, exes, j, r[k]));
            }
        }
    }
}

/// Quiescing stops nothing but declared processes: every stop target is a
/// process of the scan that some registration's matcher declares as its own
/// in this session, stopped the way that matcher says.
pub proof fn law_quiesce_targets_only_declared(
    inst: Seq<CandidateView>,
    ps: Seq<ProcessView>,
    facts: Seq<ProcessFacts>,
    ids: Seq<FileIdView>,
    exes: Seq<ResolutionView>,
)
    requires
        facts.len() == ps.len(),
    ensures
        forall|k: int|
            0 <= k < stops_of(inst, ps, facts, ids, exes).len() ==> declared_by_any(
                inst,
                ps,
                facts,
                ids,
                exes,
                #[trigger] stops_of(inst, ps, facts, ids, exes)[k],
            ),
    decreases inst.len(),
{
    if inst.len() > 0 {
        let i0 = inst.drop_last();
        law_quiesce_targets_only_declared(i0, ps, facts, ids, exes);
        lemma_stops_for(inst.last(), ps, facts, ids, exes);
        let a = stops_of(i0, ps, facts, ids, exes);
        let b = stops_for(inst.last(), ps, facts, ids, exes);
        let r = stops_of(inst, ps, facts, ids, exes);
        assert(r =~= a + b);
        assert forall|k: int| 0 <= k < r.len() implies declared_by_any(
            inst,
            ps,
            facts,
            ids,
            exes,
            #[trigger] r[k],
        ) by {
            if k < a.len() {
                assert(r[k] == a[k]);
                let x = a[k];
                assert(declared_by_any(i0, ps, facts, ids, exes, x));
                let i = choose|i: int|
                    0 <= i < i0.len() && declared_by_shell(#[trigger] i0[i], ps, facts, ids, exes, x);
                assert(inst[i] == i0[i]);
            } else {
                assert(r[k] == b[k - a.len()]);
                let x = b[k - a.len()];
                assert(declared_by_shell(inst.last(), ps, facts, ids, exes, x));
                assert(inst[inst.len() - 1] == inst.last());
            }
        }
    }
}

} // verus!

verus! {

// ------------------------------------------------------------ laws on configuration selection

/// The flags that select a Quickshell configuration on the command line.
spec fn selection_flag(a: Seq<char>) -> bool {
    a == "-p"@ || a == "--path"@ || a == "-c"@ || a == "--config"@
}

proof fn lemma_path_flag_selects(
    argv: Seq<Seq<char>>,
    cwd: Seq<char>,
    config_home: Seq<char>,
    i: int,
    j: int,
)
    requires
        0 <= j <= i,
        i + 1 < argv.len(),
        argv[i] == "-p"@ || argv[i] == "--path"@,
        forall|k: int| j <= k < i ==> !selection_flag(#[trigger] argv[k]),
    ensures
        selection_from(argv, cwd, config_home, j) == Some(join(cwd, argv[i + 1])),
    decreases i - j,
{
    if j < i {
        assert(!selection_flag(argv[j]));
        lemma_path_flag_selects(argv, cwd, config_home, i, j + 1);
    }
}

/// On a Quickshell command line, the first configuration flag being `--path P`
/// selects the configuration `P` relative to the working directory, exactly
/// as `-p P` does: a plain `qs`/`quickshell` instance (no client verb) runs
/// that configuration, and spelling the flag `-p` changes nothing.
pub proof fn law_path_flag_selects_configuration(
    p: ProcessView,
    config_home: Seq<char>,
    env_override: bool,
    i: int,
)
    requires
        0 < i,
        i + 1 < p.argv.len(),
        p.argv[i] == "--path"@,
        forall|k: int|
            0 <= k < i ==> #[trigger] p.argv[k] != "-p"@ && p.argv[k] != "--path"@ && p.argv[k]
                != "-c"@ && p.argv[k] != "--config"@,
        file_name(p.argv[0]) == Some("qs"@) || file_name(p.argv[0]) == Some("quickshell"@),
        forall|k: int|
            0 <= k < p.argv.len() ==> #[trigger] p.argv[k] != "ipc"@ && p.argv[k] != "list"@
                && p.argv[k] != "kill"@ && p.argv[k] != "log"@,
    ensures
        quickshell_config(p, config_home, env_override) == Some(join(p.cwd, p.argv[i + 1])),
        quickshell_config(p, config_home, env_override) == quickshell_config(
            ProcessView { argv: p.argv.update(i, "-p"@), ..p },
            config_home,
            env_override,
        ),
{
    reveal_strlit("-p");
    reveal_strlit("--path");
    reveal_strlit("ipc");
    reveal_strlit("list");
    reveal_strlit("kill");
    reveal_strlit("log");
    let q = ProcessView { argv: p.argv.update(i, "-p"@), ..p };
    assert forall|k: int| 0 <= k < i implies !selection_flag(#[trigger] p.argv[k]) by {}
    assert forall|k: int| 0 <= k < i implies !selection_flag(#[trigger] q.argv[k]) by {
        assert(q.argv[k] == p.argv[k]);
    }
    lemma_path_flag_selects(p.argv, p.cwd, config_home, i, 0);
    lemma_path_flag_selects(q.argv, q.cwd, config_home, i, 0);
    assert(q.argv[0] == p.argv[0]);
    assert(q.argv[i + 1] == p.argv[i + 1]);
    assert(!exists|k: int| 0 <= k < p.argv.len() && client_verb(#[trigger] p.argv[k]));
    assert(!exists|k: int| 0 <= k < q.argv.len() && client_verb(#[trigger] q.argv[k])) by {
        assert forall|k: int| 0 <= k < q.argv.len() implies !client_verb(#[trigger] q.argv[k]) by {
            if k != i {
                assert(q.argv[k] == p.argv[k]);
            } else {
                assert("-p"@.len() == 2);
                assert("ipc"@.len() == 3 && "log"@.len() == 3);
                assert("list"@.len() == 4 && "kill"@.len() == 4);
            }
        }
    }
}

proof fn lemma_config_flag_selects(
    argv: Seq<Seq<char>>,
    cwd: Seq<char>,
    config_home: Seq<char>,
    i: int,
    j: int,
)
    requires
        0 <= j <= i,
        i + 1 < argv.len(),
        argv[i] == "-c"@ || argv[i] == "--config"@,
        forall|k: int| j <= k < i ==> !selection_flag(#[trigger] argv[k]),
    ensures
        selection_from(argv, cwd, config_home, j) == Some(
            join(join(config_home, "quickshell"@), argv[i + 1]),
        ),
    decreases i - j,
{
    reveal_strlit("-p");
    reveal_strlit("--path");
    reveal_strlit("-c");
    reveal_strlit("--config");
    if j < i {
        assert(!selection_flag(argv[j]));
        lemma_config_flag_selects(argv, cwd, config_home, i, j + 1);
    } else {
        assert("-c"@.len() == 2 && "-p"@.len() == 2 && "--path"@.len() == 6);
        assert("--config"@.len() == 8);
        assert("-c"@[1] != "-p"@[1]);
    }
}

/// On a Quickshell command line, the first configuration flag being
/// `-c NAME` or `--config NAME` selects the configuration `NAME` under the
/// `quickshell` directory of the configuration home.
pub proof fn law_config_flag_selects_named_configuration(
    p: ProcessView,
    config_home: Seq<char>,
    env_override: bool,
    i: int,
)
    requires
        0 < i,
        i + 1 < p.argv.len(),
        p.argv[i] == "-c"@ || p.argv[i] == "--config"@,
        forall|k: int|
            0 <= k < i ==> #[trigger] p.argv[k] != "-p"@ && p.argv[k] != "--path"@ && p.argv[k]
                != "-c"@ && p.argv[k] != "--config"@,
        file_name(p.argv[0]) == Some("qs"@) || file_name(p.argv[0]) == Some("quickshell"@),
        forall|k: int|
            0 <= k < p.argv.len() ==> #[trigger] p.argv[k] != "ipc"@ && p.argv[k] != "list"@
                && p.argv[k] != "kill"@ && p.argv[k] != "log"@,
    ensures
        quickshell_config(p, config_home, env_override) == Some(
            join(join(config_home, "quickshell"@), p.argv[i + 1]),
        ),
{
    assert forall|k: int| 0 <= k < i implies !selection_flag(#[trigger] p.argv[k]) by {}
    lemma_config_flag_selects(p.argv, p.cwd, config_home, i, 0);
    reveal_strlit("ipc");
    reveal_strlit("list");
    reveal_strlit("kill");
    reveal_strlit("log");
    assert(!exists|k: int| 0 <= k < p.argv.len() && client_verb(#[trigger] p.argv[k]));
}

/// A Quickshell client command (`ipc`, `list`, `kill` or `log` anywhere on its
/// command line) is never taken for a shell instance.
pub proof fn law_client_command_is_no_instance(
    p: ProcessView,
    config_home: Seq<char>,
    env_override: bool,
    k: int,
)
    requires
        0 <= k < p.argv.len(),
        p.argv[k] == "ipc"@ || p.argv[k] == "list"@ || p.argv[k] == "kill"@ || p.argv[k]
            == "log"@,
    ensures
        quickshell_config(p, config_home, env_override) is None,
{
    assert(client_verb(p.argv[k]));
}

} // verus!
