//! The protection plan: every startup source a registered shell declares
//! (command gates, autostart entries, user services) and the handoff contract
//! marker, with the content this library owns them with, and the changes that
//! put that content in place.
use crate::control::{State, StateView};
use crate::dup::{duplicate_vec, Duplicate};
use crate::model::{Backend, BackendView, Candidate, CandidateView};
use crate::ownership::{
    observed, snapshot_eq, text, Change, ChangeView, Disk, FileReadView, OwnedFile,
    OwnedFileView, Snapshot, SnapshotView,
};
use crate::path::{join, join_path};
use crate::text::{append, concat, json_quote, json_string, replace_all, replace_all_of, same};
use vstd::prelude::*;
use vstd::utf8::encode_utf8;

verus! {

/// What a protected path must hold: fixed content, or the content it had
/// before this library took it over.
#[derive(Debug)]
pub enum Wanted {
    Fixed(Snapshot),
    Original,
}

pub enum WantedView {
    Fixed(SnapshotView),
    Original,
}

/// One desired ownership, by the path as declared.
#[derive(Debug)]
pub struct Desire {
    pub path: String,
    pub wanted: Wanted,
    pub owner: String,
}

pub struct DesireView {
    pub path: Seq<char>,
    pub wanted: WantedView,
    pub owner: Seq<char>,
}

impl View for Desire {
    type V = DesireView;

    open spec fn view(&self) -> DesireView {
        DesireView {
            path: self.path@,
            wanted: match &self.wanted {
                Wanted::Fixed(s) => WantedView::Fixed(s@),
                Wanted::Original => WantedView::Original,
            },
            owner: self.owner@,
        }
    }
}

impl DeepView for Desire {
    type V = DesireView;

    open spec fn deep_view(&self) -> DesireView {
        self@
    }
}

/// Where a declared path resolves to (its directory made canonical), or why not.
#[derive(Debug)]
pub struct Resolution {
    pub raw: String,
    pub path: Result<String, String>,
}

pub struct ResolutionView {
    pub raw: Seq<char>,
    pub path: Result<Seq<char>, Seq<char>>,
}

impl View for Resolution {
    type V = ResolutionView;

    open spec fn view(&self) -> ResolutionView {
        ResolutionView {
            raw: self.raw@,
            path: match &self.path {
                Ok(p) => Ok(p@),
                Err(e) => Err(e@),
            },
        }
    }
}

impl DeepView for Resolution {
    type V = ResolutionView;

    open spec fn deep_view(&self) -> ResolutionView {
        self@
    }
}

// ------------------------------------------------------------ the declared sources

/// A shell word in single quotes.
pub open spec fn quoted(v: Seq<char>) -> Seq<char> {
    "'"@ + replace_all(v, "'"@, "'\\''"@) + "'"@
}

/// The script a managed command gate is replaced by.
pub open spec fn gate_script(id: Seq<char>, exe: Seq<char>, dir: Seq<char>, path: Seq<char>) -> Seq<char> {
    "#!/bin/sh\n# Shellswitch managed gate: "@ + id + "\nexec "@ + quoted(exe) + " --state-dir "@
        + quoted(dir) + " gate "@ + quoted(id) + " --entry "@ + quoted(path) + " -- \"$@\"\n"@
}

pub open spec fn hidden_entry() -> Seq<char> {
    "[Desktop Entry]\nType=Application\nName=Managed by Shellswitch\nHidden=true\n"@
}

pub open spec fn file_of(t: Seq<char>, mode: u32) -> SnapshotView {
    SnapshotView::File { data: encode_utf8(t), mode }
}

pub open spec fn masked() -> SnapshotView {
    SnapshotView::Symlink { target: "/dev/null"@ }
}

/// The user unit file of `unit`.
pub open spec fn unit_path(config_home: Seq<char>, unit: Seq<char>) -> Seq<char> {
    join(join(config_home, "systemd/user"@), unit)
}

pub open spec fn gate_desires(c: CandidateView, gates: Seq<crate::ownership::CommandGateView>, exe: Seq<char>, dir: Seq<char>) -> Seq<DesireView>
    decreases gates.len(),
{
    if gates.len() == 0 {
        Seq::empty()
    } else {
        gate_desires(c, gates.drop_last(), exe, dir).push(
            DesireView {
                path: gates.last().path,
                wanted: WantedView::Fixed(file_of(gate_script(c.id, exe, dir, gates.last().path), 0o755)),
                owner: "cli:"@ + c.id,
            },
        )
    }
}

pub open spec fn autostart_desires(c: CandidateView, paths: Seq<Seq<char>>) -> Seq<DesireView>
    decreases paths.len(),
{
    if paths.len() == 0 {
        Seq::empty()
    } else {
        autostart_desires(c, paths.drop_last()).push(
            DesireView {
                path: paths.last(),
                wanted: WantedView::Fixed(file_of(hidden_entry(), 0o644)),
                owner: "autostart:"@ + c.id,
            },
        )
    }
}

/// A unit of the shell that is being switched to runs under its own service:
/// its unit keeps its content; every other declared unit is masked.
pub open spec fn unit_live(s: StateView, c: CandidateView, target: Option<Seq<char>>, unit: Seq<char>) -> bool {
    target == Some(c.id) && !s.disabled.contains(c.id) && c.backend == (BackendView::Systemd { unit })
}

pub open spec fn service_desires(
    s: StateView,
    c: CandidateView,
    units: Seq<Seq<char>>,
    target: Option<Seq<char>>,
    config_home: Seq<char>,
) -> Seq<DesireView>
    decreases units.len(),
{
    if units.len() == 0 {
        Seq::empty()
    } else {
        let u = units.last();
        service_desires(s, c, units.drop_last(), target, config_home).push(
            DesireView {
                path: unit_path(config_home, u),
                wanted: if unit_live(s, c, target, u) {
                    WantedView::Original
                } else {
                    WantedView::Fixed(masked())
                },
                owner: "service:"@ + c.id,
            },
        )
    }
}

/// Every startup source the registrations declare, in order.
pub open spec fn desires_of(
    s: StateView,
    inst: Seq<CandidateView>,
    target: Option<Seq<char>>,
    exe: Seq<char>,
    dir: Seq<char>,
    config_home: Seq<char>,
) -> Seq<DesireView>
    decreases inst.len(),
{
    if inst.len() == 0 {
        Seq::empty()
    } else {
        let c = inst.last();
        desires_of(s, inst.drop_last(), target, exe, dir, config_home) + match c.lifecycle {
            Some(l) => gate_desires(c, l.commands, exe, dir) + autostart_desires(c, l.autostart)
                + service_desires(s, c, l.services, target, config_home),
            None => Seq::empty(),
        }
    }
}

// ------------------------------------------------------------ folding desires into owned files

pub open spec fn unresolved_message(p: Seq<char>) -> Seq<char> {
    "Path was not resolved: "@ + p
}

/// Index of the first resolution of `raw`, or -1.
pub open spec fn resolution_index(res: Seq<ResolutionView>, raw: Seq<char>) -> int
    decreases res.len(),
{
    if res.len() == 0 {
        -1
    } else {
        let k = resolution_index(res.drop_last(), raw);
        if k >= 0 {
            k
        } else if res.last().raw == raw {
            res.len() - 1
        } else {
            -1
        }
    }
}

/// Where the declared path `raw` resolves to.
pub open spec fn resolved(res: Seq<ResolutionView>, raw: Seq<char>) -> Result<Seq<char>, Seq<char>> {
    let k = resolution_index(res, raw);
    if k < 0 {
        Err(unresolved_message(raw))
    } else {
        res[k].path
    }
}

/// Index of the owned file at `path`, or -1.
pub open spec fn file_index(files: Seq<OwnedFileView>, path: Seq<char>) -> int
    decreases files.len(),
{
    if files.len() == 0 {
        -1
    } else {
        let k = file_index(files.drop_last(), path);
        if k >= 0 {
            k
        } else if files.last().path == path {
            files.len() - 1
        } else {
            -1
        }
    }
}

pub open spec fn conflict_message(p: Seq<char>, a: Seq<char>, b: Seq<char>) -> Seq<char> {
    p + " has conflicting owners "@ + a + " and "@ + b
}

/// Owns `path` (as declared) with `expected` for `owner`: a path already
/// owned keeps its original and must keep its owner.
pub open spec fn desired(
    files: Seq<OwnedFileView>,
    raw: Seq<char>,
    expected: SnapshotView,
    owner: Seq<char>,
    d: Seq<FileReadView>,
    res: Seq<ResolutionView>,
) -> Result<Seq<OwnedFileView>, Seq<char>> {
    match resolved(res, raw) {
        Err(e) => Err(e),
        Ok(p) => {
            let k = file_index(files, p);
            if k >= 0 {
                if files[k].owner != owner {
                    Err(conflict_message(p, files[k].owner, owner))
                } else {
                    Ok(files.update(k, OwnedFileView { expected, ..files[k] }))
                }
            } else {
                match observed(d, p) {
                    Err(e) => Err(e),
                    Ok(orig) => Ok(files.push(OwnedFileView { path: p, original: orig, expected, owner })),
                }
            }
        },
    }
}

/// What a desire must hold, given the files owned so far.
pub open spec fn wanted_content(files: Seq<OwnedFileView>, w: DesireView, d: Seq<FileReadView>) -> Result<
    SnapshotView,
    Seq<char>,
> {
    match w.wanted {
        WantedView::Fixed(x) => Ok(x),
        WantedView::Original => match observed(d, w.path) {
            Err(e) => Err(e),
            Ok(cur) => {
                let k = file_index(files, w.path);
                if k >= 0 {
                    Ok(files[k].original)
                } else {
                    Ok(cur)
                }
            },
        },
    }
}

pub open spec fn fold_desires(
    files: Seq<OwnedFileView>,
    ws: Seq<DesireView>,
    d: Seq<FileReadView>,
    res: Seq<ResolutionView>,
) -> Result<Seq<OwnedFileView>, Seq<char>>
    decreases ws.len(),
{
    if ws.len() == 0 {
        Ok(files)
    } else {
        match fold_desires(files, ws.drop_last(), d, res) {
            Err(e) => Err(e),
            Ok(f) => match wanted_content(f, ws.last(), d) {
                Err(e) => Err(e),
                Ok(x) => desired(f, ws.last().path, x, ws.last().owner, d, res),
            },
        }
    }
}


/// The handoff contract record other programs read to find this domain.
pub open spec fn handoff_record(exe: Seq<char>, dir: Seq<char>) -> Seq<char> {
    "{\n  \"contract\": \"shellswitch-handoff-v1\",\n  \"shellswitch\": "@ + json_string(exe)
        + ",\n  \"state_dir\": "@ + json_string(dir) + ",\n  \"version\": 1\n}"@
}

pub open spec fn foreign_domain_message(marker: Seq<char>) -> Seq<char> {
    "Another ownership domain already controls this desktop: "@ + marker
}

/// The marker path of the handoff contract.
pub open spec fn marker_path(config_home: Seq<char>) -> Seq<char> {
    join(config_home, "shellswitch/handoff.json"@)
}

/// Some registration declares a lifecycle.
pub open spec fn integrated(inst: Seq<CandidateView>) -> bool {
    exists|k: int| 0 <= k < inst.len() && (#[trigger] inst[k]).lifecycle is Some
}

/// The files with the handoff marker owned, once any registration is
/// integrated. `prior` is the marker found on disk, if one exists: the
/// `state_dir` string it records, or why it could not be read.
pub open spec fn with_marker(
    files: Seq<OwnedFileView>,
    inst: Seq<CandidateView>,
    exe: Seq<char>,
    dir: Seq<char>,
    config_home: Seq<char>,
    prior: Option<Result<Option<Seq<char>>, Seq<char>>>,
    d: Seq<FileReadView>,
    res: Seq<ResolutionView>,
) -> Result<Seq<OwnedFileView>, Seq<char>> {
    if !integrated(inst) {
        Ok(files)
    } else {
        let marker = marker_path(config_home);
        let foreign: Result<bool, Seq<char>> = if file_index(files, marker) < 0 {
            match prior {
                None => Ok(false),
                Some(Err(e)) => Err(e),
                Some(Ok(owner)) => Ok(owner != Some(dir)),
            }
        } else {
            Ok(false)
        };
        match foreign {
            Err(e) => Err(e),
            Ok(true) => Err(foreign_domain_message(marker)),
            Ok(false) => desired(
                files,
                marker,
                file_of(handoff_record(exe, dir), 0o600),
                "handoff-contract"@,
                d,
                res,
            ),
        }
    }
}

/// The changes that give each owned file its expected content.
pub open spec fn changes_of(files: Seq<OwnedFileView>, d: Seq<FileReadView>) -> Result<Seq<ChangeView>, Seq<char>>
    decreases files.len(),
{
    if files.len() == 0 {
        Ok(Seq::empty())
    } else {
        match changes_of(files.drop_last(), d) {
            Err(e) => Err(e),
            Ok(cs) => {
                let f = files.last();
                match observed(d, f.path) {
                    Err(e) => Err(e),
                    Ok(before) => if before != f.expected {
                        Ok(cs.push(ChangeView { path: f.path, before, after: f.expected }))
                    } else {
                        Ok(cs)
                    },
                }
            },
        }
    }
}

/// The protection plan: the owned files (the current protections first) and
/// the changes that install them.
pub open spec fn protection_of(
    s: StateView,
    target: Option<Seq<char>>,
    exe: Seq<char>,
    dir: Seq<char>,
    config_home: Seq<char>,
    prior: Option<Result<Option<Seq<char>>, Seq<char>>>,
    d: Seq<FileReadView>,
    res: Seq<ResolutionView>,
) -> Result<(Seq<ChangeView>, Seq<OwnedFileView>), Seq<char>> {
    match fold_desires(s.protections, desires_of(s, s.installed, target, exe, dir, config_home), d, res) {
        Err(e) => Err(e),
        Ok(f) => match with_marker(f, s.installed, exe, dir, config_home, prior, d, res) {
            Err(e) => Err(e),
            Ok(files) => match changes_of(files, d) {
                Err(e) => Err(e),
                Ok(cs) => Ok((cs, files)),
            },
        },
    }
}


// ------------------------------------------------------------ exec

fn quote(v: &str) -> (r: String)
    ensures
        r@ == quoted(v@),
{
    proof {
        reveal_strlit("'");
        reveal_strlit("'\\''");
    }
    let mut t = "'".to_string();
    append(&mut t, replace_all_of(v, "'", "'\\''").as_str());
    append(&mut t, "'");
    t
}

fn gate_script_of(id: &str, exe: &str, dir: &str, path: &str) -> (r: String)
    ensures
        r@ == gate_script(id@, exe@, dir@, path@),
{
    proof {
        reveal_strlit("#!/bin/sh\n# Shellswitch managed gate: ");
        reveal_strlit("\nexec ");
        reveal_strlit(" --state-dir ");
        reveal_strlit(" gate ");
        reveal_strlit(" --entry ");
        reveal_strlit(" -- \"$@\"\n");
    }
    let mut t = concat("#!/bin/sh\n# Shellswitch managed gate: ", id);
    append(&mut t, "\nexec ");
    append(&mut t, quote(exe).as_str());
    append(&mut t, " --state-dir ");
    append(&mut t, quote(dir).as_str());
    append(&mut t, " gate ");
    append(&mut t, quote(id).as_str());
    append(&mut t, " --entry ");
    append(&mut t, quote(path).as_str());
    append(&mut t, " -- \"$@\"\n");
    t
}

fn push_desire(out: &mut Vec<Desire>, d: Desire)
    ensures
        final(out).deep_view() == old(out).deep_view().push(d@),
{
    let ghost before = out.deep_view();
    let ghost dv = d@;
    out.push(d);
    assert(out.deep_view() =~= before.push(dv));
}

fn add_desires(
    out: &mut Vec<Desire>,
    s: &State,
    c: &Candidate,
    target: Option<&str>,
    exe: &str,
    dir: &str,
    config_home: &str,
)
    ensures
        final(out).deep_view() == old(out).deep_view() + match c@.lifecycle {
            Some(l) => gate_desires(c@, l.commands, exe@, dir@) + autostart_desires(c@, l.autostart)
                + service_desires(s@, c@, l.services, match target { Some(t) => Some(t@), None => None }, config_home@),
            None => Seq::<DesireView>::empty(),
        },
{
    proof {
        reveal_strlit("cli:");
        reveal_strlit("autostart:");
        reveal_strlit("service:");
        reveal_strlit("[Desktop Entry]\nType=Application\nName=Managed by Shellswitch\nHidden=true\n");
        reveal_strlit("systemd/user");
        reveal_strlit("/dev/null");
    }
    let ghost tv = match target {
        Some(t) => Some(t@),
        None => None::<Seq<char>>,
    };
    let l = match &c.lifecycle {
        None => {
            assert(out.deep_view() =~= out.deep_view() + Seq::<DesireView>::empty());
            return;
        },
        Some(l) => l,
    };
    let ghost o0 = out.deep_view();
    let mut i: usize = 0;
    assert(l@.commands.take(0) =~= Seq::<crate::ownership::CommandGateView>::empty());
    assert(out.deep_view() =~= o0 + gate_desires(c@, l@.commands.take(0), exe@, dir@));
    while i < l.commands.len()
        invariant
            i <= l.commands.len(),
            out.deep_view() == o0 + gate_desires(c@, l@.commands.take(i as int), exe@, dir@),
        decreases l.commands.len() - i,
    {
        let g = &l.commands[i];
        proof {
            let w = l@.commands.take(i + 1);
            assert(w.drop_last() =~= l@.commands.take(i as int));
            assert(w.last() == g@);
        }
        let script = gate_script_of(c.id.as_str(), exe, dir, g.path.as_str());
        push_desire(
            out,
            Desire {
                path: g.path.clone(),
                wanted: Wanted::Fixed(text(script.as_str(), 0o755)),
                owner: concat("cli:", c.id.as_str()),
            },
        );
        assert(out.deep_view() =~= o0 + gate_desires(c@, l@.commands.take(i + 1), exe@, dir@));
        i += 1;
    }
    assert(l@.commands.take(i as int) =~= l@.commands);
    let ghost o1 = out.deep_view();
    let mut i: usize = 0;
    assert(l@.autostart.take(0) =~= Seq::<Seq<char>>::empty());
    assert(out.deep_view() =~= o1 + autostart_desires(c@, l@.autostart.take(0)));
    while i < l.autostart.len()
        invariant
            i <= l.autostart.len(),
            out.deep_view() == o1 + autostart_desires(c@, l@.autostart.take(i as int)),
        decreases l.autostart.len() - i,
    {
        let p = &l.autostart[i];
        proof {
            let w = l@.autostart.take(i + 1);
            assert(w.drop_last() =~= l@.autostart.take(i as int));
            assert(w.last() == p@);
        }
        push_desire(
            out,
            Desire {
                path: p.clone(),
                wanted: Wanted::Fixed(
                    text("[Desktop Entry]\nType=Application\nName=Managed by Shellswitch\nHidden=true\n", 0o644),
                ),
                owner: concat("autostart:", c.id.as_str()),
            },
        );
        assert(out.deep_view() =~= o1 + autostart_desires(c@, l@.autostart.take(i + 1)));
        i += 1;
    }
    assert(l@.autostart.take(i as int) =~= l@.autostart);
    let ghost o2 = out.deep_view();
    let targeted = match target {
        Some(t) => same(t, c.id.as_str()),
        None => false,
    } && !s.is_held(c.id.as_str());
    let mut i: usize = 0;
    assert(l@.services.take(0) =~= Seq::<Seq<char>>::empty());
    assert(out.deep_view() =~= o2 + service_desires(s@, c@, l@.services.take(0), tv, config_home@));
    while i < l.services.len()
        invariant
            i <= l.services.len(),
            targeted == (tv == Some(c@.id) && !s@.disabled.contains(c@.id)),
            out.deep_view() == o2 + service_desires(s@, c@, l@.services.take(i as int), tv, config_home@),
        decreases l.services.len() - i,
    {
        let u = &l.services[i];
        proof {
            let w = l@.services.take(i + 1);
            assert(w.drop_last() =~= l@.services.take(i as int));
            assert(w.last() == u@);
        }
        let live = targeted && match &c.backend {
            Backend::Systemd { unit } => same(unit.as_str(), u.as_str()),
            _ => false,
        };
        let units = join_path(config_home, "systemd/user");
        let path = join_path(units.as_str(), u.as_str());
        push_desire(
            out,
            Desire {
                path,
                wanted: if live {
                    Wanted::Original
                } else {
                    Wanted::Fixed(Snapshot::Symlink { target: "/dev/null".to_string() })
                },
                owner: concat("service:", c.id.as_str()),
            },
        );
        assert(out.deep_view() =~= o2 + service_desires(s@, c@, l@.services.take(i + 1), tv, config_home@));
        i += 1;
    }
    assert(l@.services.take(i as int) =~= l@.services);
}

/// Every startup source the registrations of `s` declare, in order.
pub fn desires(s: &State, target: Option<&str>, exe: &str, dir: &str, config_home: &str) -> (r: Vec<Desire>)
    ensures
        r.deep_view() == desires_of(
            s@,
            s@.installed,
            match target {
                Some(t) => Some(t@),
                None => None,
            },
            exe@,
            dir@,
            config_home@,
        ),
{
    let ghost tv = match target {
        Some(t) => Some(t@),
        None => None::<Seq<char>>,
    };
    let ghost iv = s@.installed;
    let mut out: Vec<Desire> = Vec::new();
    let mut k: usize = 0;
    assert(iv.take(0) =~= Seq::<CandidateView>::empty());
    assert(out.deep_view() =~= Seq::<DesireView>::empty());
    while k < s.installed.len()
        invariant
            k <= s.installed.len(),
            iv == s@.installed,
            tv == match target {
                Some(t) => Some(t@),
                None => None::<Seq<char>>,
            },
            out.deep_view() == desires_of(s@, iv.take(k as int), tv, exe@, dir@, config_home@),
        decreases s.installed.len() - k,
    {
        let c = &s.installed[k];
        proof {
            let w = iv.take(k + 1);
            assert(w.drop_last() =~= iv.take(k as int));
            assert(w.last() == c@);
        }
        add_desires(&mut out, s, c, target, exe, dir, config_home);
        k += 1;
    }
    assert(iv.take(k as int) =~= iv);
    out
}

fn resolve(res: &Vec<Resolution>, raw: &str) -> (r: Result<String, String>)
    ensures
        match (r, resolved(res.deep_view(), raw@)) {
            (Ok(p), Ok(q)) => p@ == q,
            (Err(e), Err(w)) => e@ == w,
            _ => false,
        },
{
    proof {
        reveal_strlit("Path was not resolved: ");
    }
    let ghost rv = res.deep_view();
    let mut i: usize = 0;
    assert(rv.take(0) =~= Seq::<ResolutionView>::empty());
    while i < res.len()
        invariant
            i <= res.len(),
            rv == res.deep_view(),
            resolution_index(rv.take(i as int), raw@) == -1,
        decreases res.len() - i,
    {
        proof {
            let w = rv.take(i + 1);
            assert(w.drop_last() =~= rv.take(i as int));
            assert(w.last() == res@[i as int]@);
        }
        if same(res[i].raw.as_str(), raw) {
            proof {
                lemma_resolution_prefix(rv, i + 1, raw@);
            }
            return match &res[i].path {
                Ok(p) => Ok(p.clone()),
                Err(e) => Err(e.clone()),
            };
        }
        i += 1;
    }
    assert(rv.take(i as int) =~= rv);
    Err(concat("Path was not resolved: ", raw))
}

/// A resolution found among the first `n` entries is the first of all.
pub proof fn lemma_resolution_prefix(res: Seq<ResolutionView>, n: int, raw: Seq<char>)
    requires
        0 <= n <= res.len(),
        resolution_index(res.take(n), raw) >= 0,
    ensures
        resolution_index(res, raw) == resolution_index(res.take(n), raw),
    decreases res.len() - n,
{
    if n < res.len() {
        assert(res.take(n + 1).drop_last() =~= res.take(n));
        lemma_resolution_prefix(res, n + 1, raw);
    } else {
        assert(res.take(n) =~= res);
    }
}

/// A file found among the first `n` is the first of all.
pub proof fn lemma_file_prefix(files: Seq<OwnedFileView>, n: int, path: Seq<char>)
    requires
        0 <= n <= files.len(),
        file_index(files.take(n), path) >= 0,
    ensures
        file_index(files, path) == file_index(files.take(n), path),
    decreases files.len() - n,
{
    if n < files.len() {
        assert(files.take(n + 1).drop_last() =~= files.take(n));
        lemma_file_prefix(files, n + 1, path);
    } else {
        assert(files.take(n) =~= files);
    }
}

pub proof fn lemma_file_index(files: Seq<OwnedFileView>, path: Seq<char>)
    ensures
        -1 <= file_index(files, path) < files.len(),
        file_index(files, path) >= 0 ==> files[file_index(files, path)].path == path,
    decreases files.len(),
{
    if files.len() > 0 {
        lemma_file_index(files.drop_last(), path);
    }
}

fn find_file(files: &Vec<OwnedFile>, path: &str) -> (r: Option<usize>)
    ensures
        match r {
            Some(k) => file_index(files.deep_view(), path@) == k as int && k < files@.len(),
            None => file_index(files.deep_view(), path@) == -1,
        },
{
    let ghost fv = files.deep_view();
    let mut i: usize = 0;
    assert(fv.take(0) =~= Seq::<OwnedFileView>::empty());
    while i < files.len()
        invariant
            i <= files.len(),
            fv == files.deep_view(),
            file_index(fv.take(i as int), path@) == -1,
        decreases files.len() - i,
    {
        proof {
            let w = fv.take(i + 1);
            assert(w.drop_last() =~= fv.take(i as int));
            assert(w.last() == files@[i as int]@);
        }
        if same(files[i].path.as_str(), path) {
            proof {
                lemma_file_prefix(fv, i + 1, path@);
            }
            return Some(i);
        }
        i += 1;
    }
    assert(fv.take(i as int) =~= fv);
    None
}

fn desire_one(
    files: &mut Vec<OwnedFile>,
    raw: &str,
    expected: Snapshot,
    owner: &str,
    disk: &Disk,
    res: &Vec<Resolution>,
) -> (r: Result<(), String>)
    ensures
        match (r, desired(old(files).deep_view(), raw@, expected@, owner@, disk@, res.deep_view())) {
            (Ok(()), Ok(f)) => final(files).deep_view() == f,
            (Err(e), Err(w)) => e@ == w,
            _ => false,
        },
{
    proof {
        reveal_strlit(" has conflicting owners ");
        reveal_strlit(" and ");
    }
    let p = match resolve(res, raw) {
        Err(e) => {
            return Err(e);
        },
        Ok(p) => p,
    };
    match find_file(files, p.as_str()) {
        Some(k) => {
            proof {
                lemma_file_index(files.deep_view(), p@);
            }
            assert(files.deep_view()[k as int] == files@[k as int]@);
            if !same(files[k].owner.as_str(), owner) {
                let m = concat(p.as_str(), " has conflicting owners ");
                let m = concat(m.as_str(), files[k].owner.as_str());
                let m = concat(m.as_str(), " and ");
                return Err(concat(m.as_str(), owner));
            }
            let ghost before = files.deep_view();
            let old_file = &files[k];
            let f = OwnedFile {
                path: old_file.path.clone(),
                original: old_file.original.duplicate(),
                expected,
                owner: old_file.owner.clone(),
            };
            files.set(k, f);
            assert(files.deep_view() =~= before.update(k as int, OwnedFileView { expected: expected@, ..before[k as int] }));
            Ok(())
        },
        None => {
            let orig = match disk.lookup(&p) {
                Err(e) => {
                    return Err(e);
                },
                Ok(o) => o,
            };
            let ghost before = files.deep_view();
            let f = OwnedFile { path: p, original: orig, expected, owner: owner.to_string() };
            let ghost fv = f@;
            files.push(f);
            assert(files.deep_view() =~= before.push(fv));
            Ok(())
        },
    }
}

fn wanted_of(files: &Vec<OwnedFile>, w: &Desire, disk: &Disk) -> (r: Result<Snapshot, String>)
    ensures
        match (r, wanted_content(files.deep_view(), w@, disk@)) {
            (Ok(x), Ok(y)) => x@ == y,
            (Err(e), Err(v)) => e@ == v,
            _ => false,
        },
{
    match &w.wanted {
        Wanted::Fixed(x) => Ok(x.duplicate()),
        Wanted::Original => {
            let cur = match disk.lookup(&w.path) {
                Err(e) => {
                    return Err(e);
                },
                Ok(c) => c,
            };
            match find_file(files, w.path.as_str()) {
                Some(k) => {
                    assert(files.deep_view()[k as int] == files@[k as int]@);
                    Ok(files[k].original.duplicate())
                },
                None => Ok(cur),
            }
        },
    }
}

fn marker_owner_differs(prior: &Option<Result<Option<String>, String>>, dir: &str) -> (r: Result<bool, String>)
    ensures
        match prior {
            None => r == Ok::<bool, String>(false),
            Some(Err(e)) => r matches Err(x) && x@ == e@,
            Some(Ok(owner)) => r == Ok::<bool, String>(owner.deep_view() != Some(dir@)),
        },
{
    match prior {
        None => Ok(false),
        Some(Err(e)) => Err(e.clone()),
        Some(Ok(owner)) => match owner {
            Some(o) => Ok(!same(o.as_str(), dir)),
            None => Ok(true),
        },
    }
}

fn record_text(exe: &str, dir: &str) -> (r: String)
    ensures
        r@ == handoff_record(exe@, dir@),
{
    proof {
        reveal_strlit("{\n  \"contract\": \"shellswitch-handoff-v1\",\n  \"shellswitch\": ");
        reveal_strlit(",\n  \"state_dir\": ");
        reveal_strlit(",\n  \"version\": 1\n}");
    }
    let mut t = "{\n  \"contract\": \"shellswitch-handoff-v1\",\n  \"shellswitch\": ".to_string();
    append(&mut t, json_quote(exe).as_str());
    append(&mut t, ",\n  \"state_dir\": ");
    append(&mut t, json_quote(dir).as_str());
    append(&mut t, ",\n  \"version\": 1\n}");
    t
}

/// Plans the protection of every declared startup source. `target` is the
/// shell being switched to, `exe` this program, `dir` the state directory,
/// `config_home` the user configuration directory, `prior` the handoff marker
/// found on disk, `disk` what the involved paths hold, and `res` where the
/// declared paths resolve to.
pub fn protection_plan(
    s: &State,
    target: Option<&str>,
    exe: &str,
    dir: &str,
    config_home: &str,
    prior: &Option<Result<Option<String>, String>>,
    disk: &Disk,
    res: &Vec<Resolution>,
) -> (r: Result<(Vec<Change>, Vec<OwnedFile>), String>)
    ensures
        match (
            r,
            protection_of(
                s@,
                match target {
                    Some(t) => Some(t@),
                    None => None,
                },
                exe@,
                dir@,
                config_home@,
                match prior {
                    None => None,
                    Some(Ok(o)) => Some(Ok(o.deep_view())),
                    Some(Err(e)) => Some(Err(e@)),
                },
                disk@,
                res.deep_view(),
            ),
        ) {
            (Ok((cs, fs)), Ok((c2, f2))) => cs.deep_view() == c2 && fs.deep_view() == f2,
            (Err(e), Err(w)) => e@ == w,
            _ => false,
        },
{
    proof {
        reveal_strlit("shellswitch/handoff.json");
        reveal_strlit("handoff-contract");
        reveal_strlit("Another ownership domain already controls this desktop: ");
    }
    let ghost tv = match target {
        Some(t) => Some(t@),
        None => None::<Seq<char>>,
    };
    let ghost pv = match prior {
        None => None,
        Some(Ok(o)) => Some(Ok(o.deep_view())),
        Some(Err(e)) => Some(Err(e@)),
    };
    let ws = desires(s, target, exe, dir, config_home);
    let ghost wv = ws.deep_view();
    let mut files = duplicate_vec(&s.protections);
    let mut i: usize = 0;
    assert(wv.take(0) =~= Seq::<DesireView>::empty());
    while i < ws.len()
        invariant
            i <= ws.len(),
            wv == ws.deep_view(),
            tv == match target {
                Some(t) => Some(t@),
                None => None::<Seq<char>>,
            },
            pv == match prior {
                None => None,
                Some(Ok(o)) => Some(Ok(o.deep_view())),
                Some(Err(e)) => Some(Err(e@)),
            },
            wv == desires_of(s@, s@.installed, tv, exe@, dir@, config_home@),
            fold_desires(s@.protections, wv.take(i as int), disk@, res.deep_view()) == Ok::<
                Seq<OwnedFileView>,
                Seq<char>,
            >(files.deep_view()),
        decreases ws.len() - i,
    {
        let w = &ws[i];
        proof {
            let t = wv.take(i + 1);
            assert(t.drop_last() =~= wv.take(i as int));
            assert(t.last() == w@);
        }
        let x = match wanted_of(&files, w, disk) {
            Err(e) => {
                proof {
                    lemma_fold_err(s@.protections, wv, i + 1, disk@, res.deep_view());
                }
                return Err(e);
            },
            Ok(x) => x,
        };
        match desire_one(&mut files, w.path.as_str(), x, w.owner.as_str(), disk, res) {
            Err(e) => {
                proof {
                    lemma_fold_err(s@.protections, wv, i + 1, disk@, res.deep_view());
                }
                return Err(e);
            },
            Ok(()) => {},
        }
        i += 1;
    }
    assert(wv.take(i as int) =~= wv);
    let mut any = false;
    let mut k: usize = 0;
    while k < s.installed.len()
        invariant
            k <= s.installed.len(),
            any == exists|j: int| 0 <= j < k && (#[trigger] s@.installed[j]).lifecycle is Some,
        decreases s.installed.len() - k,
    {
        assert(s@.installed[k as int] == s.installed@[k as int]@);
        if s.installed[k].lifecycle.is_some() {
            any = true;
        }
        k += 1;
    }
    if any {
        let marker = join_path(config_home, "shellswitch/handoff.json");
        if find_file(&files, marker.as_str()).is_none() {
            match marker_owner_differs(prior, dir) {
                Err(e) => {
                    return Err(e);
                },
                Ok(true) => {
                    return Err(
                        concat("Another ownership domain already controls this desktop: ", marker.as_str()),
                    );
                },
                Ok(false) => {},
            }
        }
        let record = record_text(exe, dir);
        match desire_one(&mut files, marker.as_str(), text(record.as_str(), 0o600), "handoff-contract", disk, res) {
            Err(e) => {
                return Err(e);
            },
            Ok(()) => {},
        }
    }
    let ghost fv = files.deep_view();
    assert(protection_of(s@, tv, exe@, dir@, config_home@, pv, disk@, res.deep_view()) == match changes_of(fv, disk@) {
        Err(e) => Err(e),
        Ok(cs) => Ok((cs, fv)),
    });
    let mut changes: Vec<Change> = Vec::new();
    let mut i: usize = 0;
    assert(fv.take(0) =~= Seq::<OwnedFileView>::empty());
    assert(changes.deep_view() =~= Seq::<ChangeView>::empty());
    while i < files.len()
        invariant
            i <= files.len(),
            fv == files.deep_view(),
            tv == match target {
                Some(t) => Some(t@),
                None => None::<Seq<char>>,
            },
            pv == match prior {
                None => None,
                Some(Ok(o)) => Some(Ok(o.deep_view())),
                Some(Err(e)) => Some(Err(e@)),
            },
            protection_of(s@, tv, exe@, dir@, config_home@, pv, disk@, res.deep_view()) == match changes_of(fv, disk@) {
                Err(e) => Err(e),
                Ok(cs) => Ok((cs, fv)),
            },
            changes_of(fv.take(i as int), disk@) == Ok::<Seq<ChangeView>, Seq<char>>(changes.deep_view()),
        decreases files.len() - i,
    {
        let f = &files[i];
        proof {
            let t = fv.take(i + 1);
            assert(t.drop_last() =~= fv.take(i as int));
            assert(t.last() == f@);
        }
        let before = match disk.lookup(&f.path) {
            Err(e) => {
                proof {
                    assert(changes_of(fv.take(i + 1), disk@) == Err::<Seq<ChangeView>, Seq<char>>(e@));
                    lemma_changes_err(fv, i + 1, disk@);
                }
                return Err(e);
            },
            Ok(b) => b,
        };
        if !snapshot_eq(&before, &f.expected) {
            let ghost cv = changes.deep_view();
            let ch = Change { path: f.path.clone(), before, after: f.expected.duplicate() };
            let ghost chv = ch@;
            changes.push(ch);
            assert(changes.deep_view() =~= cv.push(chv));
        }
        i += 1;
    }
    assert(fv.take(i as int) =~= fv);
    Ok((changes, files))
}

/// An error while folding the first `n` desires is the error of the fold.
pub proof fn lemma_fold_err(files: Seq<OwnedFileView>, ws: Seq<DesireView>, n: int, d: Seq<FileReadView>, res: Seq<ResolutionView>)
    requires
        0 <= n <= ws.len(),
        fold_desires(files, ws.take(n), d, res) is Err,
    ensures
        fold_desires(files, ws, d, res) == fold_desires(files, ws.take(n), d, res),
    decreases ws.len() - n,
{
    if n < ws.len() {
        assert(ws.take(n + 1).drop_last() =~= ws.take(n));
        lemma_fold_err(files, ws, n + 1, d, res);
    } else {
        assert(ws.take(n) =~= ws);
    }
}

/// An error among the first `n` files is the error of all of them.
pub proof fn lemma_changes_err(files: Seq<OwnedFileView>, n: int, d: Seq<FileReadView>)
    requires
        0 <= n <= files.len(),
        changes_of(files.take(n), d) is Err,
    ensures
        changes_of(files, d) == changes_of(files.take(n), d),
    decreases files.len() - n,
{
    if n < files.len() {
        assert(files.take(n + 1).drop_last() =~= files.take(n));
        lemma_changes_err(files, n + 1, d);
    } else {
        assert(files.take(n) =~= files);
    }
}

} // verus!
