//! Opt-in delegation to a shell's own command-line program. The native program
//! keeps its command vocabulary; lifecycle operations stay with the
//! transaction manager.
use crate::lifecycle::args_start_with;
use crate::model::{Backend, BackendView, Candidate, CandidateView};
use crate::ownership::{CommandGate, CommandGateView};
use crate::path::{file_name, file_name_of, join, join_path, parent, parent_of};
use crate::text::{concat, count_matches, count_of, replace_first, replace_first_of, same, starts_with};
use crate::dup::duplicate_vec;
use vstd::prelude::*;

verus! {

// ------------------------------------------------------------ the cooperative daemon hook

pub open spec fn daemon_marker() -> Seq<char> {
    "ensure_daemon() {"@
}

/// The guard placed at the start of the native daemon starter: a gated call
/// asks the manager for a runtime lease and never starts a daemon itself.
pub open spec fn daemon_guard() -> Seq<char> {
    "ensure_daemon() {\n    if [ \"${SHELLSWITCH_GATED:-}\" = \"1\" ]; then\n        \"${SHELLSWITCH_EXECUTABLE:?}\" --state-dir \"${SHELLSWITCH_STATE_DIR:?}\" authorize \"${SHELLSWITCH_SHELL_ID:?}\" --purpose runtime || exit $?\n        return 0\n    fi\n"@
}

pub open spec fn hook_changed_message() -> Seq<char> {
    "Serpantinum daemon hook changed; refusing unreviewed daemon startup"@
}

/// Patches the Serpantinum launcher so that a gated invocation authorizes
/// instead of starting its daemon. Exactly one known hook must be present.
pub fn cooperative_serpantinum(source: &str) -> (r: Result<String, String>)
    ensures
        match r {
            Ok(s) => count_matches(source@, daemon_marker()) == 1 && s@ == replace_first(
                source@,
                daemon_marker(),
                daemon_guard(),
            ),
            Err(e) => count_matches(source@, daemon_marker()) != 1 && e@ == hook_changed_message(),
        },
{
    proof {
        reveal_strlit("ensure_daemon() {");
        reveal_strlit("Serpantinum daemon hook changed; refusing unreviewed daemon startup");
        reveal_strlit(
            "ensure_daemon() {\n    if [ \"${SHELLSWITCH_GATED:-}\" = \"1\" ]; then\n        \"${SHELLSWITCH_EXECUTABLE:?}\" --state-dir \"${SHELLSWITCH_STATE_DIR:?}\" authorize \"${SHELLSWITCH_SHELL_ID:?}\" --purpose runtime || exit $?\n        return 0\n    fi\n",
        );
    }
    let marker = "ensure_daemon() {";
    if count_of(source, marker) != 1 {
        return Err("Serpantinum daemon hook changed; refusing unreviewed daemon startup".to_string());
    }
    Ok(
        replace_first_of(
            source,
            marker,
            "ensure_daemon() {\n    if [ \"${SHELLSWITCH_GATED:-}\" = \"1\" ]; then\n        \"${SHELLSWITCH_EXECUTABLE:?}\" --state-dir \"${SHELLSWITCH_STATE_DIR:?}\" authorize \"${SHELLSWITCH_SHELL_ID:?}\" --purpose runtime || exit $?\n        return 0\n    fi\n",
        ),
    )
}

// ------------------------------------------------------------ the staged runtime

/// Index of the first `-p` of `argv` that has an argument after it, or -1.
pub open spec fn entry_flag(argv: Seq<Seq<char>>, i: int) -> int
    decreases argv.len() - i,
{
    if i < 0 || i + 1 >= argv.len() {
        -1
    } else if argv[i] == "-p"@ {
        i
    } else {
        entry_flag(argv, i + 1)
    }
}

pub proof fn lemma_entry_flag(argv: Seq<Seq<char>>, i: int)
    requires
        0 <= i,
    ensures
        entry_flag(argv, i) == -1 || (i <= entry_flag(argv, i) && entry_flag(argv, i) + 1 < argv.len()),
    decreases argv.len() - i,
{
    if i + 1 < argv.len() && argv[i] != "-p"@ {
        lemma_entry_flag(argv, i + 1);
    }
}

/// The Quickshell entry (`-p PATH`) a process backend launches.
pub open spec fn runtime_entry_of(c: CandidateView) -> Option<Seq<char>> {
    match c.backend {
        BackendView::Process { argv, .. } => {
            let k = entry_flag(argv, 0);
            if k < 0 {
                None
            } else {
                Some(argv[k + 1])
            }
        },
        _ => None,
    }
}

/// The staged runtime tree: two levels above the Quickshell directory, which
/// is the entry itself or, when the entry is a file, its directory.
pub open spec fn runtime_root_of(c: CandidateView, entry_is_file: bool) -> Option<Seq<char>> {
    match runtime_entry_of(c) {
        None => None,
        Some(p) => {
            let qs = if entry_is_file {
                parent(p)
            } else {
                Some(p)
            };
            match qs {
                None => None,
                Some(q) => match parent(q) {
                    None => None,
                    Some(a) => parent(a),
                },
            }
        },
    }
}

/// The path after the first `-p` of a process backend, which the caller checks.
pub fn runtime_entry(c: &Candidate) -> (r: Option<String>)
    ensures
        match r {
            Some(p) => runtime_entry_of(c@) == Some(p@),
            None => runtime_entry_of(c@) is None,
        },
{
    proof {
        reveal_strlit("-p");
    }
    match &c.backend {
        Backend::Process { argv, .. } => {
            let mut i: usize = 0;
            while argv.len() > 1 && i < argv.len() - 1
                invariant
                    (c@.backend matches BackendView::Process { argv: a, .. } && a == argv.deep_view()),
                    entry_flag(argv.deep_view(), i as int) == entry_flag(argv.deep_view(), 0),
                decreases argv.len() - i,
            {
                assert(argv.deep_view()[i as int] == argv@[i as int]@);
                if same(argv[i].as_str(), "-p") {
                    assert(argv.deep_view()[i + 1] == argv@[i + 1]@);
                    return Some(argv[i + 1].clone());
                }
                i += 1;
            }
            None
        },
        _ => None,
    }
}

/// Locates the staged runtime tree of `c`; `entry_is_file` tells whether its
/// entry path is a regular file.
pub fn runtime_root(c: &Candidate, entry_is_file: bool) -> (r: Option<String>)
    ensures
        match r {
            Some(p) => runtime_root_of(c@, entry_is_file) == Some(p@),
            None => runtime_root_of(c@, entry_is_file) is None,
        },
{
    let p = match runtime_entry(c) {
        None => {
            return None;
        },
        Some(p) => p,
    };
    let qs = if entry_is_file {
        match parent_of(p.as_str()) {
            None => {
                return None;
            },
            Some(q) => q,
        }
    } else {
        p
    };
    match parent_of(qs.as_str()) {
        None => None,
        Some(a) => parent_of(a.as_str()),
    }
}

// ------------------------------------------------------------ native command delegation

/// How a gated command reaches the shell's own program.
#[derive(Debug)]
pub enum NativeCommand {
    /// The shell has no native program for this entrypoint.
    NotNative,
    /// Run this argv.
    Run(Vec<String>),
    /// Patch `native` into `target` with `cooperative_serpantinum`, then run `argv`.
    Patch { native: String, target: String, argv: Vec<String> },
}

pub enum NativeCommandView {
    NotNative,
    Run(Seq<Seq<char>>),
    Patch { native: Seq<char>, target: Seq<char>, argv: Seq<Seq<char>> },
}

impl View for NativeCommand {
    type V = NativeCommandView;

    open spec fn view(&self) -> NativeCommandView {
        match self {
            NativeCommand::NotNative => NativeCommandView::NotNative,
            NativeCommand::Run(v) => NativeCommandView::Run(v.deep_view()),
            NativeCommand::Patch { native, target, argv } => NativeCommandView::Patch {
                native: native@,
                target: target@,
                argv: argv.deep_view(),
            },
        }
    }
}

pub open spec fn blocked_message() -> Seq<char> {
    "This command changes installation or ownership; use a staged update instead"@
}

pub open spec fn invalid_endpoint_message() -> Seq<char> {
    "Invalid CLI endpoint"@
}

pub open spec fn no_runtime_message() -> Seq<char> {
    "Cannot locate staged native CLI"@
}

pub open spec fn missing_native_message(p: Seq<char>) -> Seq<char> {
    "Native CLI is missing: "@ + p
}

pub open spec fn native_install_message() -> Seq<char> {
    "Native install/update may overwrite active configuration; stage an update through Shellswitch"@
}

pub open spec fn niri_message() -> Seq<char> {
    "Niri ownership changes must go through Shellswitch"@
}

pub open spec fn adapter_of(c: CandidateView) -> Seq<char> {
    match c.lifecycle {
        Some(l) => l.adapter,
        None => Seq::empty(),
    }
}

/// The native program of a bridge adapter under `root`.
pub open spec fn native_of(adapter: Seq<char>, root: Seq<char>) -> Seq<char> {
    join(
        join(root, "bin"@),
        if adapter == "tonantzintla-bridge-v1"@ {
            "blackhole"@
        } else {
            "serpantinum"@
        },
    )
}

/// The native program `c` would delegate to, which the caller checks.
pub open spec fn native_path_of(c: CandidateView, entry_is_file: bool) -> Option<Seq<char>> {
    match runtime_root_of(c, entry_is_file) {
        None => None,
        Some(root) => Some(native_of(adapter_of(c), root)),
    }
}

/// The first argument that is not a verbosity flag, or the empty string.
pub open spec fn first_word(args: Seq<Seq<char>>, i: int) -> Seq<char>
    decreases args.len() - i,
{
    if i < 0 || i >= args.len() {
        Seq::empty()
    } else if args[i] == "-v"@ || args[i] == "--verbose"@ {
        first_word(args, i + 1)
    } else {
        args[i]
    }
}

/// Some blocked prefix begins the invocation.
pub open spec fn blocked(prefixes: Seq<Seq<Seq<char>>>, args: Seq<Seq<char>>) -> bool {
    exists|k: int| 0 <= k < prefixes.len() && starts_with(args, #[trigger] prefixes[k])
}

/// What delegating `args` through `endpoint` decides.
pub open spec fn native_outcome(
    c: CandidateView,
    endpoint: CommandGateView,
    args: Seq<Seq<char>>,
    entry_is_file: bool,
    native_is_file: bool,
) -> Result<NativeCommandView, Seq<char>> {
    let adapter = adapter_of(c);
    if blocked(endpoint.blocked_prefixes, args) {
        Err(blocked_message())
    } else if endpoint.native_argv.len() > 0 {
        Ok(NativeCommandView::Run(endpoint.native_argv + args))
    } else if adapter != "tonantzintla-bridge-v1"@ && adapter != "serpantinum-bridge-v1"@ {
        Ok(NativeCommandView::NotNative)
    } else if file_name(endpoint.path) is None {
        Err(invalid_endpoint_message())
    } else if file_name(endpoint.path) == Some("serpantinumd"@) {
        Ok(NativeCommandView::NotNative)
    } else {
        match runtime_root_of(c, entry_is_file) {
            None => Err(no_runtime_message()),
            Some(root) => {
                let native = native_of(adapter, root);
                let first = first_word(args, 0);
                if !native_is_file {
                    Err(missing_native_message(native))
                } else if first == "install"@ || first == "update"@ || first == "uninstall"@
                    || first == "sync"@ {
                    Err(native_install_message())
                } else if first == "niri"@ && args.len() > 1 && !(args[1] == "status"@ || args[1]
                    == "inspect"@ || args[1] == "check"@) {
                    Err(niri_message())
                } else if adapter == "serpantinum-bridge-v1"@ {
                    let target = join(join(root, "bin"@), ".shellswitch-serpantinum"@);
                    Ok(
                        NativeCommandView::Patch {
                            native,
                            target,
                            argv: seq![target] + args,
                        },
                    )
                } else {
                    Ok(NativeCommandView::Run(seq![native] + args))
                }
            },
        }
    }
}

/// The native program `c` would delegate to: the caller tells whether it is a file.
pub fn native_path(c: &Candidate, entry_is_file: bool) -> (r: Option<String>)
    ensures
        match r {
            Some(p) => native_path_of(c@, entry_is_file) == Some(p@),
            None => native_path_of(c@, entry_is_file) is None,
        },
{
    match runtime_root(c, entry_is_file) {
        None => None,
        Some(root) => Some(native_program(c, root.as_str())),
    }
}

fn adapter_text(c: &Candidate) -> (r: String)
    ensures
        r@ == adapter_of(c@),
{
    match &c.lifecycle {
        Some(l) => l.adapter.clone(),
        None => String::new(),
    }
}

fn native_program(c: &Candidate, root: &str) -> (r: String)
    ensures
        r@ == native_of(adapter_of(c@), root@),
{
    proof {
        reveal_strlit("bin");
        reveal_strlit("tonantzintla-bridge-v1");
        reveal_strlit("blackhole");
        reveal_strlit("serpantinum");
    }
    let adapter = adapter_text(c);
    let bin = join_path(root, "bin");
    if same(adapter.as_str(), "tonantzintla-bridge-v1") {
        join_path(bin.as_str(), "blackhole")
    } else {
        join_path(bin.as_str(), "serpantinum")
    }
}

fn first_word_of(args: &Vec<String>) -> (r: String)
    ensures
        r@ == first_word(args.deep_view(), 0),
{
    proof {
        reveal_strlit("-v");
        reveal_strlit("--verbose");
    }
    let mut i: usize = 0;
    while i < args.len()
        invariant
            i <= args.len(),
            first_word(args.deep_view(), i as int) == first_word(args.deep_view(), 0),
        decreases args.len() - i,
    {
        assert(args.deep_view()[i as int] == args@[i as int]@);
        if !same(args[i].as_str(), "-v") && !same(args[i].as_str(), "--verbose") {
            return args[i].clone();
        }
        i += 1;
    }
    String::new()
}

pub(crate) fn is_blocked(prefixes: &Vec<Vec<String>>, args: &Vec<String>) -> (r: bool)
    ensures
        r == blocked(prefixes.deep_view(), args.deep_view()),
{
    let mut k: usize = 0;
    while k < prefixes.len()
        invariant
            k <= prefixes.len(),
            forall|j: int| 0 <= j < k ==> !starts_with(args.deep_view(), #[trigger] prefixes.deep_view()[j]),
        decreases prefixes.len() - k,
    {
        assert(prefixes.deep_view()[k as int] == prefixes@[k as int].deep_view());
        if args_start_with(args, &prefixes[k]) {
            return true;
        }
        k += 1;
    }
    false
}

pub(crate) fn with_args(head: Vec<String>, args: &Vec<String>) -> (r: Vec<String>)
    ensures
        r.deep_view() == head.deep_view() + args.deep_view(),
{
    let mut r = head;
    let mut tail = duplicate_vec(args);
    let ghost before = r.deep_view();
    r.append(&mut tail);
    assert(r.deep_view() =~= before + args.deep_view());
    r
}

/// Decides how `args` reach the native program of `c` through `endpoint`:
/// `entry_is_file` and `native_is_file` tell what the runtime entry and the
/// native program path are on disk.
pub fn command(
    c: &Candidate,
    endpoint: &CommandGate,
    args: &Vec<String>,
    entry_is_file: bool,
    native_is_file: bool,
) -> (r: Result<NativeCommand, String>)
    ensures
        match (r, native_outcome(c@, endpoint@, args.deep_view(), entry_is_file, native_is_file)) {
            (Ok(a), Ok(b)) => a@ == b,
            (Err(e), Err(w)) => e@ == w,
            _ => false,
        },
{
    proof {
        reveal_strlit("This command changes installation or ownership; use a staged update instead");
        reveal_strlit("tonantzintla-bridge-v1");
        reveal_strlit("serpantinum-bridge-v1");
        reveal_strlit("Invalid CLI endpoint");
        reveal_strlit("serpantinumd");
        reveal_strlit("Cannot locate staged native CLI");
        reveal_strlit("Native CLI is missing: ");
        reveal_strlit("install");
        reveal_strlit("update");
        reveal_strlit("uninstall");
        reveal_strlit("sync");
        reveal_strlit("niri");
        reveal_strlit("status");
        reveal_strlit("inspect");
        reveal_strlit("check");
        reveal_strlit(
            "Native install/update may overwrite active configuration; stage an update through Shellswitch",
        );
        reveal_strlit("Niri ownership changes must go through Shellswitch");
        reveal_strlit("bin");
        reveal_strlit(".shellswitch-serpantinum");
    }
    if is_blocked(&endpoint.blocked_prefixes, args) {
        return Err(
            "This command changes installation or ownership; use a staged update instead".to_string(),
        );
    }
    if endpoint.native_argv.len() > 0 {
        return Ok(NativeCommand::Run(with_args(duplicate_vec(&endpoint.native_argv), args)));
    }
    let adapter = adapter_text(c);
    if !same(adapter.as_str(), "tonantzintla-bridge-v1") && !same(
        adapter.as_str(),
        "serpantinum-bridge-v1",
    ) {
        return Ok(NativeCommand::NotNative);
    }
    let alias = match file_name_of(endpoint.path.as_str()) {
        None => {
            return Err("Invalid CLI endpoint".to_string());
        },
        Some(a) => a,
    };
    if same(alias.as_str(), "serpantinumd") {
        return Ok(NativeCommand::NotNative);
    }
    let root = match runtime_root(c, entry_is_file) {
        None => {
            return Err("Cannot locate staged native CLI".to_string());
        },
        Some(r) => r,
    };
    let native = native_program(c, root.as_str());
    if !native_is_file {
        return Err(concat("Native CLI is missing: ", native.as_str()));
    }
    let first = first_word_of(args);
    if same(first.as_str(), "install") || same(first.as_str(), "update") || same(
        first.as_str(),
        "uninstall",
    ) || same(first.as_str(), "sync") {
        return Err(
            "Native install/update may overwrite active configuration; stage an update through Shellswitch".to_string(),
        );
    }
    if same(first.as_str(), "niri") && args.len() > 1 {
        let second = args[1].as_str();
        assert(args.deep_view()[1] == args@[1]@);
        if !(same(second, "status") || same(second, "inspect") || same(second, "check")) {
            return Err("Niri ownership changes must go through Shellswitch".to_string());
        }
    }
    if same(adapter.as_str(), "serpantinum-bridge-v1") {
        let bin = join_path(root.as_str(), "bin");
        let target = join_path(bin.as_str(), ".shellswitch-serpantinum");
        let mut head: Vec<String> = Vec::new();
        head.push(target.clone());
        assert(head.deep_view() =~= seq![target@]);
        let argv = with_args(head, args);
        return Ok(NativeCommand::Patch { native, target, argv });
    }
    let mut head: Vec<String> = Vec::new();
    head.push(native);
    assert(head.deep_view() =~= seq![native_of(adapter_of(c@), root@)]);
    Ok(NativeCommand::Run(with_args(head, args)))
}

} // verus!
