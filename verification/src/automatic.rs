//! Automatic adapters for a reviewed launcher structure, recognized by its
//! shape rather than by brand names.
use crate::control::{find_id, lemma_find_id, registered, well_formed, State, StateView};
use crate::dup::{duplicate_vec, Duplicate};
use crate::model::{Backend, BackendView, Candidate, CandidateView};
use crate::ownership::{
    CommandGate, CommandGateView, Lifecycle, LifecycleView, ProcessMatch, ProcessMatchView,
};
use crate::path::{extension, extension_of, parent, parent_of};
use crate::text::{
    concat, count_matches, count_of, has_sub, lines, lines_of, replace_all, replace_all_of,
    replace_first, replace_first_of, same, str_contains,
};
use vstd::prelude::*;

verus! {

/// The unconditional respawn block of the recognized launcher.
pub open spec fn respawn() -> Seq<char> {
    "if ! pgrep -f \"quickshell.*Shell.qml\" >/dev/null; then\n    quickshell -p \"$SHELL_QML_PATH\" >/dev/null 2>&1 &\n    disown\nfi"@
}

pub open spec fn coordinated() -> Seq<char> {
    "# Startup is coordinated by Shellswitch."@
}

pub open spec fn shell_qml_line() -> Seq<char> {
    "SHELL_QML_PATH=\"$SCRIPTS_DIR/Shell.qml\""@
}

/// The launcher declares its scripts directory as `dir`.
pub open spec fn scripts_dir_line(dir: Seq<char>) -> Seq<char> {
    "SCRIPTS_DIR=\""@ + dir + "\""@
}

/// A line that still launches Quickshell directly (not through its IPC).
pub open spec fn direct_launch(line: Seq<char>) -> bool {
    has_sub(line, "quickshell -p"@) && !has_sub(line, " ipc "@)
}

/// The cooperative body of a launcher script for the entry `entry`: the
/// respawn block occurs once and is replaced, the script locates that very
/// entry, and no other line launches Quickshell directly.
pub open spec fn cooperative_body(source: Seq<char>, entry: Seq<char>, home: Option<Seq<char>>) -> Option<
    Seq<char>,
> {
    if count_matches(source, respawn()) != 1 {
        None
    } else {
        match home {
            None => None,
            Some(h) => {
                let expanded = replace_all(source, "$HOME"@, h);
                match parent(entry) {
                    None => None,
                    Some(dir) => if !has_sub(expanded, scripts_dir_line(dir)) || !has_sub(
                        source,
                        shell_qml_line(),
                    ) {
                        None
                    } else {
                        let body = replace_first(source, respawn(), coordinated());
                        if exists|k: int|
                            0 <= k < lines_of(body).len() && direct_launch(
                                #[trigger] lines_of(body)[k],
                            ) {
                            None
                        } else {
                            Some(body)
                        }
                    },
                }
            },
        }
    }
}

fn any_direct_launch(body: &str) -> (r: bool)
    ensures
        r == exists|k: int| 0 <= k < lines_of(body@).len() && direct_launch(#[trigger] lines_of(body@)[k]),
{
    proof {
        reveal_strlit("quickshell -p");
        reveal_strlit(" ipc ");
    }
    let chars = crate::text::chars_of(body);
    let ls = lines(&chars);
    let needle = crate::text::chars_of("quickshell -p");
    let ipc = crate::text::chars_of(" ipc ");
    let mut k: usize = 0;
    while k < ls.len()
        invariant
            k <= ls@.len(),
            chars@ == body@,
            needle@ == "quickshell -p"@,
            ipc@ == " ipc "@,
            ls@.len() == lines_of(chars@).len(),
            forall|j: int| 0 <= j < ls@.len() ==> #[trigger] ls@[j]@ == lines_of(chars@)[j],
            forall|j: int| 0 <= j < k ==> !direct_launch(#[trigger] lines_of(body@)[j]),
        decreases ls.len() - k,
    {
        let line = &ls[k];
        assert(line@ == lines_of(body@)[k as int]);
        if crate::text::contains_chars(line, &needle) && !crate::text::contains_chars(line, &ipc) {
            return true;
        }
        k += 1;
    }
    false
}

/// Recognizes a launcher script that respawns Quickshell for `entry`, and
/// returns its cooperative body. `home` is the user's home directory.
pub fn body(source: &str, entry: &str, home: Option<&str>) -> (r: Option<String>)
    ensures
        match r {
            Some(b) => cooperative_body(source@, entry@, match home { Some(h) => Some(h@), None => None }) == Some(b@),
            None => cooperative_body(source@, entry@, match home { Some(h) => Some(h@), None => None }) is None,
        },
{
    proof {
        reveal_strlit(
            "if ! pgrep -f \"quickshell.*Shell.qml\" >/dev/null; then\n    quickshell -p \"$SHELL_QML_PATH\" >/dev/null 2>&1 &\n    disown\nfi",
        );
        reveal_strlit("$HOME");
        reveal_strlit("SCRIPTS_DIR=\"");
        reveal_strlit("\"");
        reveal_strlit("SHELL_QML_PATH=\"$SCRIPTS_DIR/Shell.qml\"");
        reveal_strlit("# Startup is coordinated by Shellswitch.");
    }
    let respawn_text = "if ! pgrep -f \"quickshell.*Shell.qml\" >/dev/null; then\n    quickshell -p \"$SHELL_QML_PATH\" >/dev/null 2>&1 &\n    disown\nfi";
    if count_of(source, respawn_text) != 1 {
        return None;
    }
    let h = match home {
        None => {
            return None;
        },
        Some(h) => h,
    };
    let expanded = replace_all_of(source, "$HOME", h);
    let dir = match parent_of(entry) {
        None => {
            return None;
        },
        Some(d) => d,
    };
    let declared = concat("SCRIPTS_DIR=\"", dir.as_str());
    let declared = concat(declared.as_str(), "\"");
    if !str_contains(expanded.as_str(), declared.as_str()) || !str_contains(
        source,
        "SHELL_QML_PATH=\"$SCRIPTS_DIR/Shell.qml\"",
    ) {
        return None;
    }
    let b = replace_first_of(source, respawn_text, "# Startup is coordinated by Shellswitch.");
    if any_direct_launch(b.as_str()) {
        return None;
    }
    Some(b)
}

/// A launcher script found beside a shell's runtime tree, with its text.
#[derive(Debug, Clone)]
pub struct Script {
    pub path: String,
    pub source: String,
}

pub struct ScriptView {
    pub path: Seq<char>,
    pub source: Seq<char>,
}

impl View for Script {
    type V = ScriptView;

    open spec fn view(&self) -> ScriptView {
        ScriptView { path: self.path@, source: self.source@ }
    }
}

impl DeepView for Script {
    type V = ScriptView;

    open spec fn deep_view(&self) -> ScriptView {
        self@
    }
}

/// The command entry a recognized launcher script becomes: bash runs its cooperative
/// body in place of the script's own text.
pub open spec fn launcher_gate(path: Seq<char>, source: Seq<char>, b: Seq<char>) -> CommandGateView {
    CommandGateView {
        path,
        inline_body: Some(b),
        inline_original: Some(source),
        native_argv: seq!["/bin/bash"@, path],
        blocked_prefixes: Seq::empty(),
        routes: Seq::empty(),
    }
}

/// The gates of the recognized scripts among `scripts`, in order.
pub open spec fn launcher_gates(scripts: Seq<ScriptView>, entry: Seq<char>, home: Option<Seq<char>>) -> Seq<
    CommandGateView,
>
    decreases scripts.len(),
{
    if scripts.len() == 0 {
        Seq::empty()
    } else {
        let rest = launcher_gates(scripts.drop_last(), entry, home);
        let s = scripts.last();
        if extension(s.path) == Some("sh"@) && cooperative_body(s.source, entry, home) is Some {
            rest.push(launcher_gate(s.path, s.source, cooperative_body(s.source, entry, home)->0))
        } else {
            rest
        }
    }
}

/// A Quickshell process candidate with recognized launcher scripts, adopted
/// with the IPC-launcher adapter: its scripts become gates and its exact argv
/// the process matcher.
pub open spec fn detected(
    c: CandidateView,
    entry: Seq<char>,
    scripts: Seq<ScriptView>,
    home: Option<Seq<char>>,
) -> Option<CandidateView> {
    if c.lifecycle is Some || c.framework != "Quickshell"@ {
        None
    } else {
        match c.backend {
            BackendView::Process { argv, .. } => {
                let gates = launcher_gates(scripts, entry, home);
                if gates.len() == 0 {
                    None
                } else {
                    Some(
                        CandidateView {
                            lifecycle: Some(
                                LifecycleView {
                                    adapter: "quickshell-ipc-launcher-v1"@,
                                    niri_fragment: None,
                                    commands: gates,
                                    autostart: Seq::empty(),
                                    services: Seq::empty(),
                                    processes: seq![
                                        ProcessMatchView { argv_prefix: argv, kill_without_cleanup: false },
                                    ],
                                    verify_argv: Seq::empty(),
                                    frozen: Seq::empty(),
                                },
                            ),
                            ..c
                        },
                    )
                }
            },
            _ => None,
        }
    }
}

/// Adopts `c` when its launcher scripts are recognized. `entry` is the
/// canonical path of its entry file; `scripts` the readable launcher scripts
/// of the directory above its runtime; `home` the user's home directory.
pub fn detect(c: &Candidate, entry: &str, scripts: &Vec<Script>, home: Option<&str>) -> (r: Option<
    Candidate,
>)
    ensures
        match r {
            Some(m) => detected(c@, entry@, scripts.deep_view(), match home { Some(h) => Some(h@), None => None }) == Some(m@),
            None => detected(c@, entry@, scripts.deep_view(), match home { Some(h) => Some(h@), None => None }) is None,
        },
{
    proof {
        reveal_strlit("Quickshell");
        reveal_strlit("sh");
        reveal_strlit("/bin/bash");
        reveal_strlit("quickshell-ipc-launcher-v1");
    }
    let ghost hv = match home {
        Some(h) => Some(h@),
        None => None::<Seq<char>>,
    };
    if c.lifecycle.is_some() || !same(c.framework.as_str(), "Quickshell") {
        return None;
    }
    let argv = match &c.backend {
        Backend::Process { argv, .. } => argv,
        _ => {
            return None;
        },
    };
    let mut gates: Vec<CommandGate> = Vec::new();
    let mut i: usize = 0;
    assert(scripts.deep_view().take(0) =~= Seq::<ScriptView>::empty());
    assert(gates.deep_view() =~= Seq::<CommandGateView>::empty());
    while i < scripts.len()
        invariant
            i <= scripts.len(),
            hv == match home {
                Some(h) => Some(h@),
                None => None::<Seq<char>>,
            },
            gates.deep_view() == launcher_gates(scripts.deep_view().take(i as int), entry@, hv),
        decreases scripts.len() - i,
    {
        let sc = &scripts[i];
        proof {
            let w = scripts.deep_view().take(i + 1);
            assert(w.drop_last() =~= scripts.deep_view().take(i as int));
            assert(w.last() == sc@);
        }
        let is_sh = match extension_of(sc.path.as_str()) {
            Some(e) => same(e.as_str(), "sh"),
            None => false,
        };
        if is_sh {
            if let Some(b) = body(sc.source.as_str(), entry, home) {
                let mut native: Vec<String> = Vec::new();
                native.push("/bin/bash".to_string());
                native.push(sc.path.clone());
                assert(native.deep_view() =~= seq!["/bin/bash"@, sc@.path]);
                let g = CommandGate {
                    path: sc.path.clone(),
                    inline_body: Some(b),
                    inline_original: Some(sc.source.clone()),
                    native_argv: native,
                    blocked_prefixes: Vec::new(),
                    routes: Vec::new(),
                };
                assert(g@.blocked_prefixes =~= Seq::<Seq<Seq<char>>>::empty());
                assert(g@.routes =~= Seq::<crate::ownership::RouteView>::empty());
                let ghost before = gates.deep_view();
                gates.push(g);
                assert(gates.deep_view() =~= before.push(g@));
            }
        }
        i += 1;
    }
    assert(scripts.deep_view().take(i as int) =~= scripts.deep_view());
    if gates.len() == 0 {
        return None;
    }
    let mut l = Lifecycle::empty("quickshell-ipc-launcher-v1".to_string());
    assert(l@.autostart =~= Seq::<Seq<char>>::empty());
    assert(l@.services =~= Seq::<Seq<char>>::empty());
    assert(l@.verify_argv =~= Seq::<Seq<char>>::empty());
    assert(l@.frozen =~= Seq::<crate::ownership::OwnedFileView>::empty());
    let ghost gv = gates.deep_view();
    l.commands = gates;
    assert(l@.commands == gv);
    let mut procs: Vec<ProcessMatch> = Vec::new();
    procs.push(ProcessMatch { argv_prefix: duplicate_vec(argv), kill_without_cleanup: false });
    l.processes = procs;
    let mut result = c.duplicate();
    result.lifecycle = Some(l);
    assert(result@.lifecycle->0.processes =~= seq![
        ProcessMatchView { argv_prefix: argv.deep_view(), kill_without_cleanup: false },
    ]);
    Some(result)
}

// ------------------------------------------------------------ registration

/// `inst` with `c` stored under its id: in place of a registration with that
/// id, else appended.
pub open spec fn installed_with(inst: Seq<CandidateView>, c: CandidateView) -> Seq<CandidateView> {
    let k = find_id(inst, c.id);
    if k >= 0 {
        inst.update(k, c)
    } else {
        inst.push(c)
    }
}

/// Stores `c` in the registry of `s` under its id.
pub fn install_candidate(s: &mut State, c: Candidate)
    requires
        well_formed(old(s)@),
    ensures
        final(s)@ == (StateView { installed: installed_with(old(s)@.installed, c@), ..old(s)@ }),
        well_formed(final(s)@),
{
    proof {
        lemma_find_id(s@.installed, c@.id);
    }
    let ghost before = s@.installed;
    let mut i: usize = 0;
    while i < s.installed.len()
        invariant
            i <= s.installed.len(),
            s@ == old(s)@,
            well_formed(old(s)@),
            before == s@.installed,
            forall|j: int| 0 <= j < i ==> s@.installed[j].id != c@.id,
            -1 <= find_id(before, c@.id) < before.len(),
            find_id(before, c@.id) >= 0 ==> before[find_id(before, c@.id)].id == c@.id,
            forall|j: int|
                0 <= j < before.len() && (find_id(before, c@.id) < 0 || j < find_id(before, c@.id))
                    ==> before[j].id != c@.id,
        decreases s.installed.len() - i,
    {
        assert(s@.installed[i as int] == s.installed@[i as int]@);
        if same(s.installed[i].id.as_str(), c.id.as_str()) {
            assert(find_id(before, c@.id) == i);
            s.installed.set(i, c);
            assert(s@.installed =~= before.update(i as int, c@));
            assert(forall|j: int| 0 <= j < before.len() ==> #[trigger] s@.installed[j].id == before[j].id);
            return;
        }
        i += 1;
    }
    s.installed.push(c);
    assert(s@.installed =~= before.push(c@));
}


/// What was found on disk for one candidate: the canonical path of its entry
/// file, if it resolves, and the launcher scripts beside its runtime tree.
#[derive(Debug, Clone)]
pub struct Surroundings {
    pub entry: Option<String>,
    pub scripts: Vec<Script>,
}

pub struct SurroundingsView {
    pub entry: Option<Seq<char>>,
    pub scripts: Seq<ScriptView>,
}

impl View for Surroundings {
    type V = SurroundingsView;

    open spec fn view(&self) -> SurroundingsView {
        SurroundingsView { entry: self.entry.deep_view(), scripts: self.scripts.deep_view() }
    }
}

impl DeepView for Surroundings {
    type V = SurroundingsView;

    open spec fn deep_view(&self) -> SurroundingsView {
        self@
    }
}

/// `s` with the adopted registration `m`; a running instance of it gains its lifecycle.
pub open spec fn adopt_detected(s: StateView, m: CandidateView) -> StateView {
    StateView {
        installed: installed_with(s.installed, m),
        active: match s.active {
            Some(a) => if a.candidate.id == m.id {
                Some(
                    crate::control::RunningView {
                        candidate: CandidateView { lifecycle: m.lifecycle, ..a.candidate },
                        ..a
                    },
                )
            } else {
                Some(a)
            },
            None => None,
        },
        ..s
    }
}

/// One registration step: a candidate already registered with a lifecycle is
/// left alone; otherwise a recognized launcher adopts it.
pub open spec fn register_step(
    s: StateView,
    c: CandidateView,
    o: SurroundingsView,
    home: Option<Seq<char>>,
) -> (StateView, bool) {
    if registered(s, c.id) matches Some(x) && x.lifecycle is Some {
        (s, false)
    } else {
        match o.entry {
            None => (s, false),
            Some(e) => match detected(c, e, o.scripts, home) {
                None => (s, false),
                Some(m) => (adopt_detected(s, m), true),
            },
        }
    }
}

/// The registry after registering `cands` in order, and whether it changed.
pub open spec fn registered_all(
    s: StateView,
    cands: Seq<CandidateView>,
    obs: Seq<SurroundingsView>,
    home: Option<Seq<char>>,
) -> (StateView, bool)
    decreases cands.len(),
{
    if cands.len() == 0 || obs.len() < cands.len() {
        (s, false)
    } else {
        let (t, changed) = registered_all(s, cands.drop_last(), obs.take(cands.len() - 1), home);
        let (u, now) = register_step(t, cands.last(), obs[cands.len() - 1], home);
        (u, changed || now)
    }
}

/// Registers automatic adapters for the recognized candidates, unless a switch
/// is in progress; tells whether the registry changed. `obs[k]` is what was
/// found for `cands[k]`.
pub fn register(s: &mut State, cands: &Vec<Candidate>, obs: &Vec<Surroundings>, home: Option<&str>) -> (r: bool)
    requires
        well_formed(old(s)@),
        obs@.len() == cands@.len(),
    ensures
        well_formed(final(s)@),
        old(s)@.pending is Some ==> final(s)@ == old(s)@ && !r,
        old(s)@.pending is None ==> (final(s)@, r) == registered_all(
            old(s)@,
            cands.deep_view(),
            obs.deep_view(),
            match home {
                Some(h) => Some(h@),
                None => None,
            },
        ),
{
    if s.pending.is_some() {
        return false;
    }
    let ghost hv = match home {
        Some(h) => Some(h@),
        None => None::<Seq<char>>,
    };
    let ghost s0 = s@;
    let mut changed = false;
    let mut k: usize = 0;
    while k < cands.len()
        invariant
            k <= cands.len(),
            obs@.len() == cands@.len(),
            hv == match home {
                Some(h) => Some(h@),
                None => None::<Seq<char>>,
            },
            well_formed(s@),
            (s@, changed) == registered_all(
                s0,
                cands.deep_view().take(k as int),
                obs.deep_view().take(k as int),
                hv,
            ),
        decreases cands.len() - k,
    {
        let c = &cands[k];
        let o = &obs[k];
        proof {
            let w = cands.deep_view().take(k + 1);
            assert(w.drop_last() =~= cands.deep_view().take(k as int));
            assert(obs.deep_view().take(k + 1).take(k as int) =~= obs.deep_view().take(k as int));
            assert(w.last() == c@);
            assert(obs.deep_view().take(k + 1)[k as int] == o@);
        }
        let skip = match s.registration(c.id.as_str()) {
            Some(x) => x.lifecycle.is_some(),
            None => false,
        };
        if !skip {
            if let Some(e) = &o.entry {
                if let Some(m) = detect(c, e.as_str(), &o.scripts, home) {
                    let ghost t = s@;
                    let lc = match &m.lifecycle {
                        Some(l) => Some(l.duplicate()),
                        None => None,
                    };
                    let mid = m.id.clone();
                    match &mut s.active {
                        Some(a) => {
                            if same(a.candidate.id.as_str(), mid.as_str()) {
                                a.candidate.lifecycle = lc;
                            }
                        },
                        None => {},
                    }
                    install_candidate(s, m);
                    assert(s@ == adopt_detected(t, m@));
                    changed = true;
                }
            }
        }
        k += 1;
    }
    assert(cands.deep_view().take(k as int) =~= cands.deep_view());
    assert(obs.deep_view().take(k as int) =~= obs.deep_view());
    changed
}

} // verus!
