//! Reviewed bridges for two known shells, and the runtime environment one of
//! them needs. Discovery stays framework-based; a bridge describes lifecycle
//! semantics that static detection cannot infer.
use crate::dup::duplicate_vec;
use crate::model::{Backend, BackendView, Candidate, CandidateView};
use crate::native::entry_flag;
use crate::ownership::{
    CommandGate, CommandGateView, Lifecycle, LifecycleView, ProcessMatch, ProcessMatchView, Route,
    RouteView,
};
use crate::path::{join, join_path, parent, parent_of};
use crate::text::{concat, same};
use vstd::prelude::*;

verus! {

/// A generated bridge declaration: the shell's id, name, launch argv and lifecycle.
#[derive(Debug)]
pub struct Bridge {
    pub id: String,
    pub name: String,
    pub argv: Vec<String>,
    pub lifecycle: Lifecycle,
}

pub struct BridgeView {
    pub id: Seq<char>,
    pub name: Seq<char>,
    pub argv: Seq<Seq<char>>,
    pub lifecycle: LifecycleView,
}

impl View for Bridge {
    type V = BridgeView;

    open spec fn view(&self) -> BridgeView {
        BridgeView {
            id: self.id@,
            name: self.name@,
            argv: self.argv.deep_view(),
            lifecycle: self.lifecycle@,
        }
    }
}

pub open spec fn no_bridge_message(kind: Seq<char>) -> Seq<char> {
    "No reviewed bridge for "@ + kind + "; use a lifecycle manifest for other shells"@
}

/// The entry file or directory a bridge launches, under the shell's root.
pub open spec fn bridge_entry_of(kind: Seq<char>, root: Seq<char>) -> Result<Seq<char>, Seq<char>> {
    if kind == "tonantzintla"@ {
        Ok(join(root, "src/quickshell"@))
    } else if kind == "serpantinum"@ {
        Ok(join(root, "src/quickshell/Shell.qml"@))
    } else {
        Err(no_bridge_message(kind))
    }
}

/// The entry a bridge of `kind` launches, which must exist.
pub fn bridge_entry(kind: &str, root: &str) -> (r: Result<String, String>)
    ensures
        match (r, bridge_entry_of(kind@, root@)) {
            (Ok(p), Ok(q)) => p@ == q,
            (Err(e), Err(w)) => e@ == w,
            _ => false,
        },
{
    proof {
        reveal_strlit("No reviewed bridge for ");
        reveal_strlit("; use a lifecycle manifest for other shells");
    }
    if same(kind, "tonantzintla") {
        Ok(join_path(root, "src/quickshell"))
    } else if same(kind, "serpantinum") {
        Ok(join_path(root, "src/quickshell/Shell.qml"))
    } else {
        let m = concat("No reviewed bridge for ", kind);
        Err(concat(m.as_str(), "; use a lifecycle manifest for other shells"))
    }
}

/// An IPC call of the running shell.
pub open spec fn ipc_argv(argv: Seq<Seq<char>>, tail: Seq<Seq<char>>) -> Seq<Seq<char>> {
    argv + seq!["ipc"@, "call"@] + tail
}

pub open spec fn one_route(cmd: Seq<char>, argv: Seq<Seq<char>>, a: Seq<char>, b: Seq<char>) -> RouteView {
    RouteView { prefix: seq![cmd], argv: ipc_argv(argv, seq![a, b]) }
}

pub open spec fn widget_route(cmd: Seq<char>, argv: Seq<Seq<char>>) -> RouteView {
    RouteView { prefix: seq!["msg"@, cmd], argv: ipc_argv(argv, seq!["main"@, "handleCommand"@, cmd]) }
}

/// The routes a bridge forwards to the shell's IPC.
pub open spec fn bridge_routes(kind: Seq<char>, argv: Seq<Seq<char>>) -> Seq<RouteView> {
    if kind == "tonantzintla"@ {
        seq![
            one_route("toggle"@, argv, "ephemeris"@, "toggle"@),
            one_route("open"@, argv, "ephemeris"@, "open"@),
            one_route("close"@, argv, "ephemeris"@, "close"@),
            one_route("bar-edit"@, argv, "aperture"@, "edit"@),
            one_route("island-settings"@, argv, "aperture"@, "openIsland"@),
            one_route("close-island"@, argv, "aperture"@, "closeIsland"@),
        ]
    } else {
        seq![widget_route("toggle"@, argv), widget_route("open"@, argv), widget_route("close"@, argv)]
    }
}

/// The processes a bridge recognizes as the shell's own.
pub open spec fn bridge_processes(
    kind: Seq<char>,
    root: Seq<char>,
    argv: Seq<Seq<char>>,
    qs: Seq<char>,
    entry: Seq<char>,
    bash: Seq<char>,
    python: Seq<char>,
) -> Seq<ProcessMatchView> {
    seq![ProcessMatchView { argv_prefix: argv, kill_without_cleanup: false }] + if kind == "tonantzintla"@ {
        seq![
            ProcessMatchView {
                argv_prefix: seq![python, join(root, "src/libexec/session-daemon.py"@)],
                kill_without_cleanup: false,
            },
            ProcessMatchView { argv_prefix: seq![qs, "-n"@, "-p"@, entry], kill_without_cleanup: false },
        ]
    } else {
        seq![
            ProcessMatchView {
                argv_prefix: seq![bash, join(root, "bin/serpantinumd"@)],
                kill_without_cleanup: true,
            },
            ProcessMatchView {
                argv_prefix: seq![python, join(root, "src/quickshell/guide/wellbeing/focus_daemon.py"@)],
                kill_without_cleanup: false,
            },
        ]
    }
}

/// A public command gate of a bridge; the daemon alias forwards nothing.
pub open spec fn bridge_gate(bin: Seq<char>, alias: Seq<char>, routes: Seq<RouteView>) -> CommandGateView {
    CommandGateView {
        path: join(bin, alias),
        inline_body: None,
        inline_original: None,
        native_argv: Seq::empty(),
        blocked_prefixes: Seq::empty(),
        routes: if alias == "serpantinumd"@ {
            Seq::empty()
        } else {
            routes
        },
    }
}

pub open spec fn home_required_message() -> Seq<char> {
    "HOME is required"@
}

pub open spec fn quickshell_required_message() -> Seq<char> {
    "Install Quickshell before generating an adapter"@
}

pub open spec fn bash_missing_message() -> Seq<char> {
    "bash missing"@
}

pub open spec fn python_missing_message() -> Seq<char> {
    "python3 missing"@
}

pub open spec fn absent_entry_message(entry: Seq<char>) -> Seq<char> {
    "Expected shell entrypoint is absent: "@ + entry
}

/// The bridge declaration for `kind` under the shell's `root`, given the
/// home directory, the Quickshell, bash and Python programs found, whether
/// the entry exists, and the reviewed Niri fragment if one is supplied.
pub open spec fn bridge_of(
    kind: Seq<char>,
    root: Seq<char>,
    home: Option<Seq<char>>,
    qs: Option<Seq<char>>,
    bash: Option<Seq<char>>,
    python: Option<Seq<char>>,
    entry_exists: bool,
    fragment: Option<Seq<char>>,
) -> Result<BridgeView, Seq<char>> {
    if home is None {
        Err(home_required_message())
    } else if qs is None {
        Err(quickshell_required_message())
    } else if bash is None {
        Err(bash_missing_message())
    } else if python is None {
        Err(python_missing_message())
    } else {
        match bridge_entry_of(kind, root) {
            Err(e) => Err(e),
            Ok(entry) => if !entry_exists {
                Err(absent_entry_message(entry))
            } else {
                let q = qs->0;
                let argv = seq![q, "-p"@, entry];
                let bin = join(home->0, ".local/bin"@);
                let routes = bridge_routes(kind, argv);
                let aliases = if kind == "tonantzintla"@ {
                    seq!["blackhole"@, "astralithctl"@]
                } else {
                    seq!["serpantinum"@, "serpantinumd"@]
                };
                Ok(
                    BridgeView {
                        id: kind,
                        name: if kind == "tonantzintla"@ {
                            "Tonantzintla"@
                        } else {
                            "Serpantinum"@
                        },
                        argv,
                        lifecycle: LifecycleView {
                            adapter: kind + "-bridge-v1"@,
                            niri_fragment: fragment,
                            commands: seq![
                                bridge_gate(bin, aliases[0], routes),
                                bridge_gate(bin, aliases[1], routes),
                            ],
                            autostart: Seq::empty(),
                            services: Seq::empty(),
                            processes: bridge_processes(kind, root, argv, q, entry, bash->0, python->0),
                            verify_argv: seq![q, "-p"@, entry, "list"@],
                            frozen: Seq::empty(),
                        },
                    },
                )
            },
        }
    }
}

fn strings(items: &[&str]) -> (r: Vec<String>)
    ensures
        r.deep_view() == items@.map_values(|x: &str| x@),
{
    let mut out: Vec<String> = Vec::new();
    let mut i: usize = 0;
    while i < items.len()
        invariant
            i <= items@.len(),
            out@.len() == i,
            forall|j: int| 0 <= j < i ==> #[trigger] out@[j]@ == items@[j]@,
        decreases items.len() - i,
    {
        out.push(items[i].to_string());
        i += 1;
    }
    assert(out.deep_view() =~= items@.map_values(|x: &str| x@));
    out
}

fn ipc_of(argv: &Vec<String>, tail: &[&str]) -> (r: Vec<String>)
    ensures
        r.deep_view() == ipc_argv(argv.deep_view(), tail@.map_values(|x: &str| x@)),
{
    let mut a = duplicate_vec(argv);
    let mut rest = strings(&["ipc", "call"]);
    let mut t = strings(tail);
    let ghost a0 = a.deep_view();
    a.append(&mut rest);
    let ghost a1 = a.deep_view();
    a.append(&mut t);
    proof {
        assert(["ipc", "call"]@.map_values(|x: &str| x@) =~= seq!["ipc"@, "call"@]);
    }
    assert(a.deep_view() =~= ipc_argv(argv.deep_view(), tail@.map_values(|x: &str| x@)));
    a
}

fn route_of(cmd: &str, argv: &Vec<String>, a: &str, b: &str) -> (r: Route)
    ensures
        r@ == one_route(cmd@, argv.deep_view(), a@, b@),
{
    let tail = [a, b];
    let x = ipc_of(argv, &tail);
    assert(tail@.map_values(|x: &str| x@) =~= seq![a@, b@]);
    let mut prefix: Vec<String> = Vec::new();
    prefix.push(cmd.to_string());
    assert(prefix.deep_view() =~= seq![cmd@]);
    Route { prefix, argv: x }
}

fn widget_route_of(cmd: &str, argv: &Vec<String>) -> (r: Route)
    ensures
        r@ == widget_route(cmd@, argv.deep_view()),
{
    let tail = ["main", "handleCommand", cmd];
    let x = ipc_of(argv, &tail);
    assert(tail@.map_values(|x: &str| x@) =~= seq!["main"@, "handleCommand"@, cmd@]);
    let mut prefix: Vec<String> = Vec::new();
    prefix.push("msg".to_string());
    prefix.push(cmd.to_string());
    assert(prefix.deep_view() =~= seq!["msg"@, cmd@]);
    Route { prefix, argv: x }
}

fn gate_of(bin: &str, alias: &str, routes: &Vec<Route>) -> (r: CommandGate)
    ensures
        r@ == bridge_gate(bin@, alias@, routes.deep_view()),
{
    let g = CommandGate {
        path: join_path(bin, alias),
        inline_body: None,
        inline_original: None,
        native_argv: Vec::new(),
        blocked_prefixes: Vec::new(),
        routes: if same(alias, "serpantinumd") {
            Vec::new()
        } else {
            duplicate_vec(routes)
        },
    };
    assert(g@.native_argv =~= Seq::<Seq<char>>::empty());
    assert(g@.blocked_prefixes =~= Seq::<Seq<Seq<char>>>::empty());
    assert(g@.routes =~= bridge_gate(bin@, alias@, routes.deep_view()).routes);
    g
}

fn matcher(items: Vec<String>, kill: bool) -> (r: ProcessMatch)
    ensures
        r@ == (ProcessMatchView { argv_prefix: items.deep_view(), kill_without_cleanup: kill }),
{
    ProcessMatch { argv_prefix: items, kill_without_cleanup: kill }
}

fn two(a: &str, b: String) -> (r: Vec<String>)
    ensures
        r.deep_view() == seq![a@, b@],
{
    let mut v: Vec<String> = Vec::new();
    v.push(a.to_string());
    v.push(b);
    assert(v.deep_view() =~= seq![a@, b@]);
    v
}

/// Generates the reviewed bridge declaration for the shell `kind` under `root`.
pub fn bridge(
    kind: &str,
    root: &str,
    home: Option<&str>,
    qs: Option<&str>,
    bash: Option<&str>,
    python: Option<&str>,
    entry_exists: bool,
    fragment: Option<String>,
) -> (r: Result<Bridge, String>)
    ensures
        match (
            r,
            bridge_of(
                kind@,
                root@,
                match home { Some(x) => Some(x@), None => None },
                match qs { Some(x) => Some(x@), None => None },
                match bash { Some(x) => Some(x@), None => None },
                match python { Some(x) => Some(x@), None => None },
                entry_exists,
                match fragment { Some(x) => Some(x@), None => None },
            ),
        ) {
            (Ok(b), Ok(v)) => b@ == v,
            (Err(e), Err(w)) => e@ == w,
            _ => false,
        },
{
    proof {
        reveal_strlit("HOME is required");
        reveal_strlit("Install Quickshell before generating an adapter");
        reveal_strlit("bash missing");
        reveal_strlit("python3 missing");
        reveal_strlit("Expected shell entrypoint is absent: ");
    }
    let home = match home {
        None => {
            return Err("HOME is required".to_string());
        },
        Some(h) => h,
    };
    let q = match qs {
        None => {
            return Err("Install Quickshell before generating an adapter".to_string());
        },
        Some(q) => q,
    };
    let bash = match bash {
        None => {
            return Err("bash missing".to_string());
        },
        Some(b) => b,
    };
    let python = match python {
        None => {
            return Err("python3 missing".to_string());
        },
        Some(p) => p,
    };
    let entry = bridge_entry(kind, root)?;
    if !entry_exists {
        return Err(concat("Expected shell entrypoint is absent: ", entry.as_str()));
    }
    let tonantzintla = same(kind, "tonantzintla");
    let mut argv: Vec<String> = Vec::new();
    argv.push(q.to_string());
    argv.push("-p".to_string());
    argv.push(entry.clone());
    assert(argv.deep_view() =~= seq![q@, "-p"@, entry@]);
    let bin = join_path(home, ".local/bin");
    let mut routes: Vec<Route> = Vec::new();
    if tonantzintla {
        routes.push(route_of("toggle", &argv, "ephemeris", "toggle"));
        routes.push(route_of("open", &argv, "ephemeris", "open"));
        routes.push(route_of("close", &argv, "ephemeris", "close"));
        routes.push(route_of("bar-edit", &argv, "aperture", "edit"));
        routes.push(route_of("island-settings", &argv, "aperture", "openIsland"));
        routes.push(route_of("close-island", &argv, "aperture", "closeIsland"));
    } else {
        routes.push(widget_route_of("toggle", &argv));
        routes.push(widget_route_of("open", &argv));
        routes.push(widget_route_of("close", &argv));
    }
    assert(routes.deep_view() =~= bridge_routes(kind@, argv.deep_view()));
    let mut processes: Vec<ProcessMatch> = Vec::new();
    processes.push(matcher(duplicate_vec(&argv), false));
    if tonantzintla {
        processes.push(matcher(two(python, join_path(root, "src/libexec/session-daemon.py")), false));
        let mut second: Vec<String> = Vec::new();
        second.push(q.to_string());
        second.push("-n".to_string());
        second.push("-p".to_string());
        second.push(entry.clone());
        assert(second.deep_view() =~= seq![q@, "-n"@, "-p"@, entry@]);
        processes.push(matcher(second, false));
    } else {
        processes.push(matcher(two(bash, join_path(root, "bin/serpantinumd")), true));
        processes.push(
            matcher(two(python, join_path(root, "src/quickshell/guide/wellbeing/focus_daemon.py")), false),
        );
    }
    let ghost pv = bridge_processes(kind@, root@, argv.deep_view(), q@, entry@, bash@, python@);
    assert(processes.deep_view() =~= pv);
    let mut commands: Vec<CommandGate> = Vec::new();
    if tonantzintla {
        commands.push(gate_of(bin.as_str(), "blackhole", &routes));
        commands.push(gate_of(bin.as_str(), "astralithctl", &routes));
    } else {
        commands.push(gate_of(bin.as_str(), "serpantinum", &routes));
        commands.push(gate_of(bin.as_str(), "serpantinumd", &routes));
    }
    let mut verify: Vec<String> = Vec::new();
    verify.push(q.to_string());
    verify.push("-p".to_string());
    verify.push(entry);
    verify.push("list".to_string());
    let mut l = Lifecycle::empty(concat(kind, "-bridge-v1"));
    l.niri_fragment = fragment;
    proof {
        let aliases = if kind@ == "tonantzintla"@ {
            seq!["blackhole"@, "astralithctl"@]
        } else {
            seq!["serpantinum"@, "serpantinumd"@]
        };
        assert(commands.deep_view() =~= seq![
            bridge_gate(bin@, aliases[0], routes.deep_view()),
            bridge_gate(bin@, aliases[1], routes.deep_view()),
        ]);
    }
    l.commands = commands;
    l.processes = processes;
    l.verify_argv = verify;
    assert(l@.autostart =~= Seq::<Seq<char>>::empty());
    assert(l@.services =~= Seq::<Seq<char>>::empty());
    assert(l@.frozen =~= Seq::<crate::ownership::OwnedFileView>::empty());
    assert(l@.verify_argv =~= seq![q@, "-p"@, entry@, "list"@]);
    let b = Bridge {
        id: kind.to_string(),
        name: if tonantzintla {
            "Tonantzintla".to_string()
        } else {
            "Serpantinum".to_string()
        },
        argv,
        lifecycle: l,
    };
    Ok(b)
}


// ------------------------------------------------------------ launch environment

pub open spec fn process_backend_message() -> Seq<char> {
    "Serpantinum bridge requires a process backend"@
}

pub open spec fn missing_entry_message() -> Seq<char> {
    "Missing Serpantinum entrypoint"@
}

pub open spec fn missing_qs_message() -> Seq<char> {
    "Missing Quickshell directory"@
}

pub open spec fn missing_runtime_message() -> Seq<char> {
    "Missing Serpantinum runtime directory"@
}

pub open spec fn missing_dispatcher_message() -> Seq<char> {
    "Missing Serpantinum widget dispatcher"@
}

/// The Serpantinum bridge is in use.
pub open spec fn serpantinum_bridged(c: CandidateView) -> bool {
    c.lifecycle matches Some(l) && l.adapter == "serpantinum-bridge-v1"@
}

/// The runtime paths the upstream Serpantinum launcher would provide: its
/// runtime and Quickshell directories and its entry, derived from the `-p`
/// entry of the launch argv. `dispatcher_exists` tells whether the widget
/// dispatcher script is present in the runtime directory.
pub open spec fn launch_environment_of(c: CandidateView, dispatcher_exists: bool) -> Result<
    Seq<(Seq<char>, Seq<char>)>,
    Seq<char>,
> {
    if !serpantinum_bridged(c) {
        Ok(Seq::empty())
    } else if !(c.backend is Process) {
        Err(process_backend_message())
    } else {
        match crate::native::runtime_entry_of(c) {
            None => Err(missing_entry_message()),
            Some(entry) => match parent(entry) {
                None => Err(missing_qs_message()),
                Some(qs) => match parent(qs) {
                    None => Err(missing_runtime_message()),
                    Some(src) => if !dispatcher_exists {
                        Err(missing_dispatcher_message())
                    } else {
                        Ok(seq![("SERPANTINUM_DIR"@, src), ("QS_DIR"@, qs), ("MAIN_QML"@, entry)])
                    },
                },
            },
        }
    }
}

/// The widget dispatcher script the environment requires, which the caller checks.
pub open spec fn dispatcher_of(c: CandidateView) -> Option<Seq<char>> {
    match crate::native::runtime_entry_of(c) {
        None => None,
        Some(entry) => match parent(entry) {
            None => None,
            Some(qs) => match parent(qs) {
                None => None,
                Some(src) => Some(join(src, "scripts/qs_manager.sh"@)),
            },
        },
    }
}

/// The widget dispatcher script of the launch argv of `c`, if its paths resolve.
pub fn dispatcher_path(c: &Candidate) -> (r: Option<String>)
    ensures
        match r {
            Some(p) => dispatcher_of(c@) == Some(p@),
            None => dispatcher_of(c@) is None,
        },
{
    let entry = crate::native::runtime_entry(c)?;
    let qs = parent_of(entry.as_str())?;
    let src = parent_of(qs.as_str())?;
    Some(join_path(src.as_str(), "scripts/qs_manager.sh"))
}

/// The environment a gated Serpantinum command runs with.
pub fn launch_environment(c: &Candidate, dispatcher_exists: bool) -> (r: Result<Vec<(String, String)>, String>)
    ensures
        match (r, launch_environment_of(c@, dispatcher_exists)) {
            (Ok(v), Ok(w)) => v@.len() == w.len() && forall|k: int|
                0 <= k < w.len() ==> (#[trigger] v@[k]).0@ == w[k].0 && v@[k].1@ == w[k].1,
            (Err(e), Err(w)) => e@ == w,
            _ => false,
        },
{
    proof {
        reveal_strlit("serpantinum-bridge-v1");
        reveal_strlit("Serpantinum bridge requires a process backend");
        reveal_strlit("Missing Serpantinum entrypoint");
        reveal_strlit("Missing Quickshell directory");
        reveal_strlit("Missing Serpantinum runtime directory");
        reveal_strlit("Missing Serpantinum widget dispatcher");
    }
    let bridged = match &c.lifecycle {
        Some(l) => same(l.adapter.as_str(), "serpantinum-bridge-v1"),
        None => false,
    };
    if !bridged {
        return Ok(Vec::new());
    }
    match &c.backend {
        Backend::Process { .. } => {},
        _ => {
            return Err("Serpantinum bridge requires a process backend".to_string());
        },
    }
    let entry = match crate::native::runtime_entry(c) {
        None => {
            return Err("Missing Serpantinum entrypoint".to_string());
        },
        Some(e) => e,
    };
    let qs = match parent_of(entry.as_str()) {
        None => {
            return Err("Missing Quickshell directory".to_string());
        },
        Some(q) => q,
    };
    let src = match parent_of(qs.as_str()) {
        None => {
            return Err("Missing Serpantinum runtime directory".to_string());
        },
        Some(s) => s,
    };
    if !dispatcher_exists {
        return Err("Missing Serpantinum widget dispatcher".to_string());
    }
    let mut v: Vec<(String, String)> = Vec::new();
    v.push(("SERPANTINUM_DIR".to_string(), src));
    v.push(("QS_DIR".to_string(), qs));
    v.push(("MAIN_QML".to_string(), entry));
    Ok(v)
}

} // verus!
