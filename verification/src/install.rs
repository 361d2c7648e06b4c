//! Staging a reviewed package: relocating its payload paths and recording it
//! in the registry without touching the selection or live configuration.
use crate::automatic::installed_with;
use crate::control::{find_id, lemma_find_id, well_formed, Running, RunningView, State, StateView};
use crate::dup::{duplicate_vec, Duplicate};
use crate::model::{Backend, BackendView, Candidate, CandidateView};
use crate::ownership::{
    Lifecycle, LifecycleView, OwnedFile, OwnedFileView, ProcessMatch, ProcessMatchView, Route,
    RouteView,
};
use crate::path::{absolute, join, join_path, strip_base, strip_prefix, under};
use crate::text::{ascii_lowered, concat, ends_with, eq_ignore_ascii_case, same, str_ends_with};
use vstd::prelude::*;

verus! {

pub open spec fn install_pending_message() -> Seq<char> {
    "Finish or recover the current transaction before installing"@
}

/// Installing waits for any switch in progress.
pub fn ready_to_install(s: &State) -> (r: Result<(), String>)
    ensures
        s@.pending is Some <==> r is Err,
        r matches Err(e) ==> e@ == install_pending_message(),
{
    proof {
        reveal_strlit("Finish or recover the current transaction before installing");
    }
    if s.pending.is_some() {
        return Err("Finish or recover the current transaction before installing".to_string());
    }
    Ok(())
}

pub open spec fn nested_payload_message() -> Seq<char> {
    "Package destination cannot be inside payload source"@
}

/// The package copy must not land inside the tree it copies.
pub fn payload_destination(dest: &str, root: &str) -> (r: Result<(), String>)
    ensures
        under(dest@, root@) <==> r is Err,
        r matches Err(e) ==> e@ == nested_payload_message(),
{
    proof {
        reveal_strlit("Package destination cannot be inside payload source");
    }
    if crate::path::is_under(dest, root) {
        return Err("Package destination cannot be inside payload source".to_string());
    }
    Ok(())
}

/// A path inside the payload tree `root`, moved into its staged copy `dest`;
/// any other value unchanged.
pub open spec fn moved(v: Seq<char>, root: Seq<char>, dest: Seq<char>) -> Seq<char> {
    match strip_prefix(v, root) {
        Some(rel) => join(dest, rel),
        None => v,
    }
}

pub open spec fn moved_all(vs: Seq<Seq<char>>, root: Seq<char>, dest: Seq<char>) -> Seq<Seq<char>> {
    vs.map_values(|v: Seq<char>| moved(v, root, dest))
}

/// A lifecycle with every payload path moved; each process matcher is kept
/// and a moved copy of it is added after them.
pub open spec fn moved_lifecycle(l: LifecycleView, root: Seq<char>, dest: Seq<char>) -> LifecycleView {
    LifecycleView {
        niri_fragment: match l.niri_fragment {
            Some(f) => Some(moved(f, root, dest)),
            None => None,
        },
        commands: l.commands.map_values(
            |g: crate::ownership::CommandGateView|
                crate::ownership::CommandGateView {
                    routes: g.routes.map_values(
                        |r: RouteView| RouteView { argv: moved_all(r.argv, root, dest), ..r },
                    ),
                    ..g
                },
        ),
        verify_argv: moved_all(l.verify_argv, root, dest),
        processes: l.processes + l.processes.map_values(
            |p: ProcessMatchView| ProcessMatchView { argv_prefix: moved_all(p.argv_prefix, root, dest), ..p },
        ),
        ..l
    }
}

/// The candidate with its payload paths moved from `root` into `dest`.
pub open spec fn relocated(c: CandidateView, root: Seq<char>, dest: Seq<char>) -> CandidateView {
    CandidateView {
        backend: match c.backend {
            BackendView::Process { argv, cwd } => BackendView::Process {
                argv: moved_all(argv, root, dest),
                cwd: moved(cwd, root, dest),
            },
            other => other,
        },
        lifecycle: match c.lifecycle {
            Some(l) => Some(moved_lifecycle(l, root, dest)),
            None => None,
        },
        ..c
    }
}

fn move_one(v: &str, root: &str, dest: &str) -> (r: String)
    ensures
        r@ == moved(v@, root@, dest@),
{
    match strip_base(v, root) {
        Some(rel) => join_path(dest, rel.as_str()),
        None => v.to_string(),
    }
}

fn move_all(vs: &Vec<String>, root: &str, dest: &str) -> (r: Vec<String>)
    ensures
        r.deep_view() == moved_all(vs.deep_view(), root@, dest@),
{
    let mut out: Vec<String> = Vec::new();
    let mut i: usize = 0;
    while i < vs.len()
        invariant
            i <= vs.len(),
            out@.len() == i,
            forall|j: int| 0 <= j < i ==> #[trigger] out@[j]@ == moved(vs@[j]@, root@, dest@),
        decreases vs.len() - i,
    {
        out.push(move_one(vs[i].as_str(), root, dest));
        i += 1;
    }
    assert(out.deep_view() =~= moved_all(vs.deep_view(), root@, dest@));
    out
}

fn move_routes(routes: &Vec<Route>, root: &str, dest: &str) -> (r: Vec<Route>)
    ensures
        r.deep_view() == routes.deep_view().map_values(
            |x: RouteView| RouteView { argv: moved_all(x.argv, root@, dest@), ..x },
        ),
{
    let mut out: Vec<Route> = Vec::new();
    let mut i: usize = 0;
    while i < routes.len()
        invariant
            i <= routes.len(),
            out@.len() == i,
            forall|j: int|
                0 <= j < i ==> #[trigger] out@[j]@ == (RouteView {
                    argv: moved_all(routes@[j]@.argv, root@, dest@),
                    ..routes@[j]@
                }),
        decreases routes.len() - i,
    {
        let r = &routes[i];
        out.push(Route { prefix: duplicate_vec(&r.prefix), argv: move_all(&r.argv, root, dest) });
        i += 1;
    }
    assert(out.deep_view() =~= routes.deep_view().map_values(
        |x: RouteView| RouteView { argv: moved_all(x.argv, root@, dest@), ..x },
    ));
    out
}

fn move_lifecycle(l: &Lifecycle, root: &str, dest: &str) -> (r: Lifecycle)
    ensures
        r@ == moved_lifecycle(l@, root@, dest@),
{
    let mut commands: Vec<crate::ownership::CommandGate> = Vec::new();
    let mut i: usize = 0;
    while i < l.commands.len()
        invariant
            i <= l.commands.len(),
            commands@.len() == i,
            forall|j: int|
                0 <= j < i ==> #[trigger] commands@[j]@ == (crate::ownership::CommandGateView {
                    routes: l@.commands[j].routes.map_values(
                        |x: RouteView| RouteView { argv: moved_all(x.argv, root@, dest@), ..x },
                    ),
                    ..l@.commands[j]
                }),
        decreases l.commands.len() - i,
    {
        let g = &l.commands[i];
        assert(l@.commands[i as int] == g@);
        let mut h = g.duplicate();
        h.routes = move_routes(&g.routes, root, dest);
        commands.push(h);
        i += 1;
    }
    let mut processes = duplicate_vec(&l.processes);
    let ghost pv = processes.deep_view();
    let mut i: usize = 0;
    while i < l.processes.len()
        invariant
            i <= l.processes.len(),
            pv == l@.processes,
            processes@.len() == l@.processes.len() + i,
            forall|j: int| 0 <= j < pv.len() ==> #[trigger] processes@[j]@ == pv[j],
            forall|j: int|
                0 <= j < i ==> #[trigger] processes@[pv.len() + j]@ == (ProcessMatchView {
                    argv_prefix: moved_all(pv[j].argv_prefix, root@, dest@),
                    ..pv[j]
                }),
        decreases l.processes.len() - i,
    {
        let p = &l.processes[i];
        assert(pv[i as int] == p@);
        processes.push(
            ProcessMatch {
                argv_prefix: move_all(&p.argv_prefix, root, dest),
                kill_without_cleanup: p.kill_without_cleanup,
            },
        );
        i += 1;
    }
    assert forall|j: int| 0 <= j < processes@.len() implies #[trigger] processes.deep_view()[j]
        == moved_lifecycle(l@, root@, dest@).processes[j] by {
        if j >= pv.len() {
            let t = j - pv.len();
            assert(processes@[pv.len() + t]@ == (ProcessMatchView {
                argv_prefix: moved_all(pv[t].argv_prefix, root@, dest@),
                ..pv[t]
            }));
        }
    }
    assert(processes.deep_view() =~= moved_lifecycle(l@, root@, dest@).processes);
    let r = Lifecycle {
        adapter: l.adapter.clone(),
        niri_fragment: match &l.niri_fragment {
            Some(f) => Some(move_one(f.as_str(), root, dest)),
            None => None,
        },
        commands,
        autostart: duplicate_vec(&l.autostart),
        services: duplicate_vec(&l.services),
        processes,
        verify_argv: move_all(&l.verify_argv, root, dest),
        frozen: duplicate_vec(&l.frozen),
    };
    assert(r@.commands =~= moved_lifecycle(l@, root@, dest@).commands);
    assert(r@.processes =~= moved_lifecycle(l@, root@, dest@).processes);
    r
}

/// Moves the payload paths of `c` from the tree `root` into its staged copy `dest`.
pub fn relocate(c: &mut Candidate, root: &str, dest: &str)
    ensures
        final(c)@ == relocated(old(c)@, root@, dest@),
{
    let backend = match &c.backend {
        Backend::Process { argv, cwd } => Backend::Process {
            argv: move_all(argv, root, dest),
            cwd: move_one(cwd.as_str(), root, dest),
        },
        other => other.duplicate(),
    };
    let lifecycle = match &c.lifecycle {
        Some(l) => Some(move_lifecycle(l, root, dest)),
        None => None,
    };
    c.backend = backend;
    c.lifecycle = lifecycle;
}

// ------------------------------------------------------------ staging in the registry

/// `Path::ends_with` on normalized paths: `q`'s components end `p`.
pub open spec fn path_ends_with(p: Seq<char>, q: Seq<char>) -> bool {
    q.len() == 0 || p == q || (!absolute(q) && ends_with(p, seq!['/'] + q))
}

/// An older registration that `c` replaces: another id with the same name
/// (ignoring ASCII case) or the same source.
pub open spec fn replaced_by(old: CandidateView, c: CandidateView) -> bool {
    old.id != c.id && (ascii_lowered(old.name) == ascii_lowered(c.name) || old.source == c.source
        || path_ends_with(old.source, c.source))
}

pub open spec fn kept_registrations(inst: Seq<CandidateView>, c: CandidateView) -> Seq<CandidateView>
    decreases inst.len(),
{
    if inst.len() == 0 {
        Seq::empty()
    } else if replaced_by(inst.last(), c) {
        kept_registrations(inst.drop_last(), c)
    } else {
        kept_registrations(inst.drop_last(), c).push(inst.last())
    }
}

/// `id` names a registration that `c` replaces.
pub open spec fn replaced_id(inst: Seq<CandidateView>, c: CandidateView, id: Seq<char>) -> bool {
    exists|k: int| 0 <= k < inst.len() && #[trigger] inst[k].id == id && replaced_by(inst[k], c)
}

pub open spec fn staged_message(name: Seq<char>) -> Seq<char> {
    "Staged "@ + name + ". Selection and live configuration were not changed"@
}

/// The state after staging `c`: replaced registrations removed, `c` stored,
/// a selection or live instance of a replaced or same id carried over to `c`.
pub open spec fn staged(s: StateView, c: CandidateView) -> StateView {
    StateView {
        installed: installed_with(kept_registrations(s.installed, c), c),
        selected: match s.selected {
            Some(x) => if replaced_id(s.installed, c, x) {
                Some(c.id)
            } else {
                Some(x)
            },
            None => None,
        },
        active: match s.active {
            Some(a) => if a.candidate.id == c.id || replaced_id(s.installed, c, a.candidate.id) {
                Some(RunningView { candidate: c, ..a })
            } else {
                Some(a)
            },
            None => None,
        },
        last_event: staged_message(c.name),
        ..s
    }
}

fn ends_as_path(p: &str, q: &str) -> (r: bool)
    ensures
        r == path_ends_with(p@, q@),
{
    let qc = crate::text::chars_of(q);
    if qc.len() == 0 || same(p, q) {
        return true;
    }
    if crate::path::is_absolute(q) {
        return false;
    }
    let t = concat("/", q);
    proof {
        reveal_strlit("/");
        assert("/"@ + q@ =~= seq!['/'] + q@);
    }
    str_ends_with(p, t.as_str())
}

fn replaces(old: &Candidate, c: &Candidate) -> (r: bool)
    ensures
        r == replaced_by(old@, c@),
{
    !same(old.id.as_str(), c.id.as_str()) && (eq_ignore_ascii_case(old.name.as_str(), c.name.as_str())
        || same(old.source.as_str(), c.source.as_str()) || ends_as_path(
        old.source.as_str(),
        c.source.as_str(),
    ))
}

fn is_replaced_id(inst: &Vec<Candidate>, c: &Candidate, id: &str) -> (r: bool)
    ensures
        r == replaced_id(inst.deep_view(), c@, id@),
{
    let mut k: usize = 0;
    while k < inst.len()
        invariant
            k <= inst.len(),
            forall|j: int| 0 <= j < k ==> !(#[trigger] inst.deep_view()[j].id == id@ && replaced_by(inst.deep_view()[j], c@)),
        decreases inst.len() - k,
    {
        assert(inst.deep_view()[k as int] == inst@[k as int]@);
        if same(inst[k].id.as_str(), id) && replaces(&inst[k], c) {
            return true;
        }
        k += 1;
    }
    false
}

/// Records the staged package `c`, replacing older registrations of the same
/// shell; never changes which shell is selected.
pub fn stage(s: &mut State, c: &Candidate)
    requires
        well_formed(old(s)@),
    ensures
        final(s)@ == staged(old(s)@, c@),
        well_formed(final(s)@),
{
    proof {
        reveal_strlit("Staged ");
        reveal_strlit(". Selection and live configuration were not changed");
    }
    let ghost s0 = s@;
    let selected = match &s.selected {
        Some(x) => if is_replaced_id(&s.installed, c, x.as_str()) {
            Some(c.id.clone())
        } else {
            Some(x.clone())
        },
        None => None,
    };
    let carry = match &s.active {
        Some(a) => same(a.candidate.id.as_str(), c.id.as_str()) || is_replaced_id(
            &s.installed,
            c,
            a.candidate.id.as_str(),
        ),
        None => false,
    };
    let mut kept: Vec<Candidate> = Vec::new();
    let mut i: usize = 0;
    let ghost iv = s@.installed;
    assert(iv.take(0) =~= Seq::<CandidateView>::empty());
    assert(kept.deep_view() =~= Seq::<CandidateView>::empty());
    while i < s.installed.len()
        invariant
            i <= s.installed.len(),
            iv == s@.installed,
            kept.deep_view() == kept_registrations(iv.take(i as int), c@),
        decreases s.installed.len() - i,
    {
        let x = &s.installed[i];
        proof {
            let w = iv.take(i + 1);
            assert(w.drop_last() =~= iv.take(i as int));
            assert(w.last() == x@);
        }
        if !replaces(x, c) {
            let ghost before = kept.deep_view();
            kept.push(x.duplicate());
            assert(kept.deep_view() =~= before.push(x@));
        }
        i += 1;
    }
    assert(iv.take(i as int) =~= iv);
    proof {
        lemma_kept_unique(iv, c@);
    }
    s.installed = kept;
    crate::automatic::install_candidate(s, c.duplicate());
    s.selected = selected;
    if carry {
        match &mut s.active {
            Some(a) => {
                a.candidate = c.duplicate();
            },
            None => {},
        }
    }
    s.last_event = concat("Staged ", c.name.as_str());
    s.last_event = concat(s.last_event.as_str(), ". Selection and live configuration were not changed");
}

/// Keeping some registrations in order keeps their ids distinct.
pub proof fn lemma_kept_unique(inst: Seq<CandidateView>, c: CandidateView)
    requires
        forall|i: int, j: int| 0 <= i < j < inst.len() ==> inst[i].id != inst[j].id,
    ensures
        forall|i: int, j: int|
            0 <= i < j < kept_registrations(inst, c).len() ==> kept_registrations(inst, c)[i].id
                != kept_registrations(inst, c)[j].id,
        forall|i: int|
            #![trigger kept_registrations(inst, c)[i]]
            0 <= i < kept_registrations(inst, c).len() ==> exists|j: int|
                0 <= j < inst.len() && #[trigger] inst[j] == kept_registrations(inst, c)[i],
    decreases inst.len(),
{
    if inst.len() > 0 {
        let d = inst.drop_last();
        assert forall|i: int, j: int| 0 <= i < j < d.len() implies d[i].id != d[j].id by {
            assert(d[i] == inst[i] && d[j] == inst[j]);
        }
        lemma_kept_unique(d, c);
        let k = kept_registrations(d, c);
        assert forall|i: int| #![trigger k[i]] 0 <= i < k.len() implies exists|j: int|
            0 <= j < inst.len() && #[trigger] inst[j] == k[i] by {
            let j = choose|j: int| 0 <= j < d.len() && #[trigger] d[j] == k[i];
            assert(inst[j] == d[j]);
        }
        if !replaced_by(inst.last(), c) {
            let kk = k.push(inst.last());
            assert forall|i: int| #![trigger kk[i]] 0 <= i < k.len() implies kk[i].id != inst.last().id by {
                let j = choose|j: int| 0 <= j < d.len() && #[trigger] d[j] == k[i];
                assert(inst[j] == d[j]);
                assert(inst[j].id != inst[inst.len() - 1].id);
            }
            assert forall|i: int| #![trigger kk[i]] 0 <= i < kk.len() implies exists|j: int|
                0 <= j < inst.len() && #[trigger] inst[j] == kk[i] by {
                if i == k.len() {
                    assert(inst[inst.len() - 1] == kk[i]);
                } else {
                    assert(kk[i] == k[i]);
                }
            }
        }
    }
}

/// Staging an install never starts, holds, releases or reconfigures anything:
/// holds, the pending switch, configuration, protections and supervised
/// commands are unchanged; nothing becomes selected when nothing was, and a
/// selection moves only from a registration the install replaces.
pub proof fn law_install_keeps_holds_and_selection(s: StateView, c: CandidateView)
    ensures
        staged(s, c).disabled == s.disabled,
        staged(s, c).pending == s.pending,
        staged(s, c).config == s.config,
        staged(s, c).protections == s.protections,
        staged(s, c).commands == s.commands,
        s.selected is None ==> staged(s, c).selected is None,
        forall|x: Seq<char>|
            s.selected == Some(x) && !replaced_id(s.installed, c, x) ==> #[trigger] staged(
                s,
                c,
            ).selected == Some(x),
        s.active is None ==> staged(s, c).active is None,
{
}

} // verus!
