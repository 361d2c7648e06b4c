//! Per-shell gates, holds, leases and recovery diagnostics.
use crate::control::{
    check_config, config_failure,
    registered, well_formed, Phase, Running, RunningView, State, StateView,
};
use crate::dup::{duplicate_vec, Duplicate};
use crate::model::{Backend, BackendView, Candidate, CandidateView};
use crate::ownership::{Disk, FileReadView};
use crate::ownership::{Route, RouteView};
use crate::text::{append, concat, join_all, join_strings, same};
use vstd::prelude::*;

verus! {

// ------------------------------------------------------------ gate policy

/// A managed entrypoint may run a command for `id`: no hold, and either the
/// trial of exactly this shell is live, or, outside a transaction, it is selected.
pub open spec fn gate_open(s: StateView, id: Seq<char>) -> bool {
    !s.disabled.contains(id) && match s.pending {
        Some(p) => p.phase == Phase::Trial && p.target.id == id && s.active is Some
            && s.active->0.candidate.id == id,
        None => s.selected == Some(id),
    }
}

/// Whether the managed gate of `id` may run commands now.
pub fn gate_allows(s: &State, id: &str) -> (r: bool)
    ensures
        r == gate_open(s@, id@),
{
    if s.is_held(id) {
        return false;
    }
    match &s.pending {
        Some(p) => p.phase == Phase::Trial && same(p.target.id.as_str(), id) && match &s.active {
            Some(r) => same(r.candidate.id.as_str(), id),
            None => false,
        },
        None => match &s.selected {
            Some(x) => same(x.as_str(), id),
            None => false,
        },
    }
}

// ------------------------------------------------------------ leases

pub open spec fn schema_message() -> Seq<char> {
    "Unsupported handoff state schema"@
}

pub open spec fn lease_held_message(id: Seq<char>) -> Seq<char> {
    id + " is emergency-disabled"@
}

pub open spec fn no_lease_message() -> Seq<char> {
    "No authorized Shellswitch lease; use the managed entrypoint"@
}

pub open spec fn purpose_message() -> Seq<char> {
    "Unknown contract purpose"@
}

pub open spec fn stale_lease_message() -> Seq<char> {
    "Lease is stale or outside its handoff phase"@
}

pub open spec fn configure_message() -> Seq<char> {
    "Configuration writes require an active handoff, not a runtime lease"@
}

pub open spec fn not_live_message() -> Seq<char> {
    "Shell is not the selected live instance"@
}

pub open spec fn known_purpose(p: Seq<char>) -> bool {
    p == "start"@ || p == "runtime"@ || p == "configure"@
}

/// Why a cooperative start/runtime/configure action of `id` holding lease
/// `token` is refused. Holds override leases; outside a transaction only the
/// selected, live instance's lease counts, and never for configuration.
pub open spec fn authorize_refusal(
    s: StateView,
    id: Seq<char>,
    purpose: Seq<char>,
    token: Seq<char>,
    active_healthy: bool,
) -> Option<Seq<char>> {
    if s.schema != 2 {
        Some(schema_message())
    } else if s.disabled.contains(id) {
        Some(lease_held_message(id))
    } else if token.len() == 0 {
        Some(no_lease_message())
    } else if !known_purpose(purpose) {
        Some(purpose_message())
    } else if s.pending is Some {
        let p = s.pending->0;
        if p.target.id == id && p.token == token && (p.phase == Phase::Starting || p.phase
            == Phase::Trial) {
            None
        } else {
            Some(stale_lease_message())
        }
    } else if purpose == "configure"@ {
        Some(configure_message())
    } else if s.selected == Some(id) && s.active is Some && s.active->0.candidate.id == id
        && s.active->0.lease == token && active_healthy {
        None
    } else {
        Some(not_live_message())
    }
}

/// Verifies a cooperative activation/runtime lease. `token` is the lease the
/// caller presents; `active_healthy` whether the active instance is healthy.
pub fn authorize(s: &State, id: &str, purpose: &str, token: &str, active_healthy: bool) -> (r:
    Result<(), String>)
    ensures
        match r {
            Ok(()) => authorize_refusal(s@, id@, purpose@, token@, active_healthy) is None,
            Err(e) => authorize_refusal(s@, id@, purpose@, token@, active_healthy) == Some(e@),
        },
{
    proof {
        reveal_strlit("Unsupported handoff state schema");
        reveal_strlit(" is emergency-disabled");
        reveal_strlit("No authorized Shellswitch lease; use the managed entrypoint");
        reveal_strlit("Unknown contract purpose");
        reveal_strlit("Lease is stale or outside its handoff phase");
        reveal_strlit("Configuration writes require an active handoff, not a runtime lease");
        reveal_strlit("Shell is not the selected live instance");
        reveal_strlit("start");
        reveal_strlit("runtime");
        reveal_strlit("configure");
    }
    if s.schema != 2 {
        return Err("Unsupported handoff state schema".to_string());
    }
    if s.is_held(id) {
        return Err(concat(id, " is emergency-disabled"));
    }
    if crate::text::chars_of(token).len() == 0 {
        return Err("No authorized Shellswitch lease; use the managed entrypoint".to_string());
    }
    if !(same(purpose, "start") || same(purpose, "runtime") || same(purpose, "configure")) {
        return Err("Unknown contract purpose".to_string());
    }
    match &s.pending {
        Some(p) => {
            if same(p.target.id.as_str(), id) && same(p.token.as_str(), token) && (p.phase
                == Phase::Starting || p.phase == Phase::Trial) {
                Ok(())
            } else {
                Err("Lease is stale or outside its handoff phase".to_string())
            }
        },
        None => {
            if same(purpose, "configure") {
                return Err(
                    "Configuration writes require an active handoff, not a runtime lease".to_string(),
                );
            }
            let selected = match &s.selected {
                Some(x) => same(x.as_str(), id),
                None => false,
            };
            let live = match &s.active {
                Some(r) => same(r.candidate.id.as_str(), id) && same(r.lease.as_str(), token)
                    && active_healthy,
                None => false,
            };
            if selected && live {
                Ok(())
            } else {
                Err("Shell is not the selected live instance".to_string())
            }
        },
    }
}

// ------------------------------------------------------------ widget commands

/// The widget dispatch marker of the Serpantinum bridge.
pub open spec fn widget_marker() -> Seq<Seq<char>> {
    seq!["ipc"@, "call"@, "main"@, "handleCommand"@]
}

/// Index of the first occurrence of the widget marker at or after `i`, or -1.
pub open spec fn marker_from(argv: Seq<Seq<char>>, i: int) -> int
    decreases argv.len() - i,
{
    if i < 0 || i + 4 > argv.len() {
        -1
    } else if crate::text::occurs_at(argv, widget_marker(), i) {
        i
    } else {
        marker_from(argv, i + 1)
    }
}

/// Index of the first occurrence of the widget marker in `argv`, or -1.
pub open spec fn marker_index(argv: Seq<Seq<char>>) -> int {
    marker_from(argv, 0)
}

pub proof fn lemma_marker_from(argv: Seq<Seq<char>>, i: int)
    requires
        0 <= i,
    ensures
        marker_from(argv, i) == -1 || (i <= marker_from(argv, i) && marker_from(argv, i) + 4
            <= argv.len() && crate::text::occurs_at(argv, widget_marker(), marker_from(argv, i))),
        forall|j: int|
            i <= j && (marker_from(argv, i) == -1 || j < marker_from(argv, i)) ==> !crate::text::occurs_at(
                argv,
                widget_marker(),
                j,
            ),
    decreases argv.len() - i,
{
    if i + 4 <= argv.len() && !crate::text::occurs_at(argv, widget_marker(), i) {
        lemma_marker_from(argv, i + 1);
    }
}

/// Two sequences that agree on `[0, n)` have the same first marker below `n`.
pub proof fn lemma_marker_prefix(a: Seq<Seq<char>>, b: Seq<Seq<char>>, i: int, n: int)
    requires
        0 <= i,
        n <= a.len(),
        n <= b.len(),
        a.take(n) == b.take(n),
        marker_from(a, i) >= 0,
        marker_from(a, i) + 4 <= n,
    ensures
        marker_from(b, i) == marker_from(a, i),
    decreases a.len() - i,
{
    lemma_marker_from(a, i);
    assert(a.subrange(i, i + 4) =~= b.subrange(i, i + 4)) by {
        assert forall|k: int| 0 <= k < 4 implies #[trigger] a.subrange(i, i + 4)[k] == b.subrange(i, i + 4)[k] by {
            assert(a.take(n)[i + k] == b.take(n)[i + k]);
        }
    }
    if !crate::text::occurs_at(a, widget_marker(), i) {
        lemma_marker_prefix(a, b, i + 1, n);
    }
}

pub open spec fn widget_message() -> Seq<char> {
    "Widget command requires a target and at most one subtarget"@
}

/// Serpantinum's IPC method requires a command, a target widget and an argument,
/// including an explicit empty argument when the caller omits the subtarget.
pub open spec fn normalized_widget(adapter: Seq<char>, argv: Seq<Seq<char>>) -> Result<
    Seq<Seq<char>>,
    Seq<char>,
> {
    if adapter != "serpantinum-bridge-v1"@ || marker_index(argv) < 0 {
        Ok(argv)
    } else {
        let count = argv.len() - marker_index(argv) - 4;
        if count < 2 || count > 3 {
            Err(widget_message())
        } else if count == 2 {
            Ok(argv.push(Seq::empty()))
        } else {
            Ok(argv)
        }
    }
}

fn is_marker_at(argv: &Vec<String>, i: usize) -> (r: bool)
    requires
        i + 4 <= argv.len(),
    ensures
        r == crate::text::occurs_at(argv.deep_view(), widget_marker(), i as int),
{
    proof {
        reveal_strlit("ipc");
        reveal_strlit("call");
        reveal_strlit("main");
        reveal_strlit("handleCommand");
    }
    let r = same(argv[i].as_str(), "ipc") && same(argv[i + 1].as_str(), "call") && same(
        argv[i + 2].as_str(),
        "main",
    ) && same(argv[i + 3].as_str(), "handleCommand");
    proof {
        let sub = argv.deep_view().subrange(i as int, i + 4);
        if r {
            assert(sub =~= widget_marker());
        } else {
            if sub == widget_marker() {
                assert(sub[0] == argv@[i as int]@);
                assert(sub[1] == argv@[i + 1]@);
                assert(sub[2] == argv@[i + 2]@);
                assert(sub[3] == argv@[i + 3]@);
            }
        }
    }
    r
}

/// Completes a Serpantinum widget command with its optional empty subtarget.
pub fn normalize_widget_args(adapter: &str, argv: &mut Vec<String>) -> (r: Result<(), String>)
    ensures
        match (r, normalized_widget(adapter@, old(argv).deep_view())) {
            (Ok(()), Ok(v)) => final(argv).deep_view() == v,
            (Err(e), Err(v)) => e@ == v && final(argv).deep_view() == old(argv).deep_view(),
            _ => false,
        },
{
    proof {
        reveal_strlit("serpantinum-bridge-v1");
        reveal_strlit("Widget command requires a target and at most one subtarget");
    }
    if !same(adapter, "serpantinum-bridge-v1") {
        return Ok(());
    }
    let n = argv.len();
    if n < 4 {
        return Ok(());
    }
    let mut i: usize = 0;
    assert(marker_index(argv.deep_view()) == marker_from(argv.deep_view(), 0));
    while i <= n - 4
        invariant
            n == argv@.len(),
            n >= 4,
            i <= n - 3,
            marker_index(argv.deep_view()) == marker_from(argv.deep_view(), i as int),
            adapter@ == "serpantinum-bridge-v1"@,
            argv.deep_view() == old(argv).deep_view(),
        decreases n - 3 - i,
    {
        if is_marker_at(argv, i) {
            let count = n - i - 4;
            if count < 2 || count > 3 {
                return Err("Widget command requires a target and at most one subtarget".to_string());
            }
            if count == 2 {
                let ghost before = argv.deep_view();
                argv.push(String::new());
                assert(argv.deep_view() =~= before.push(Seq::empty()));
            }
            return Ok(());
        }
        i += 1;
    }
    assert(marker_from(argv.deep_view(), i as int) == -1);
    Ok(())
}

// ------------------------------------------------------------ holds

pub open spec fn unknown_shell_message(id: Seq<char>) -> Seq<char> {
    "Unknown installed shell "@ + id
}

pub open spec fn hold_message(id: Seq<char>) -> Seq<char> {
    "Emergency hold for "@ + id + "; cleanup in progress"@
}

/// `s` with a durable hold on `id`, which is deselected if it was selected.
pub open spec fn held(s: StateView, id: Seq<char>) -> StateView {
    StateView {
        disabled: if s.disabled.contains(id) {
            s.disabled
        } else {
            s.disabled.push(id)
        },
        selected: if s.selected == Some(id) {
            None
        } else {
            s.selected
        },
        last_event: hold_message(id),
        ..s
    }
}

/// The first, durable step of an emergency stop: the hold is recorded (and the
/// shell deselected) before any cleanup, so an interrupted cleanup cannot
/// authorize resurrection.
pub fn disable(s: &mut State, id: &str) -> (r: Result<(), String>)
    requires
        well_formed(old(s)@),
    ensures
        well_formed(final(s)@),
        registered(old(s)@, id@) is None ==> (r matches Err(e) && e@ == unknown_shell_message(id@)
            && final(s)@ == old(s)@),
        registered(old(s)@, id@) is Some ==> (r is Ok && final(s)@ == held(old(s)@, id@)),
{
    proof {
        reveal_strlit("Unknown installed shell ");
        reveal_strlit("Emergency hold for ");
        reveal_strlit("; cleanup in progress");
    }
    if s.registration(id).is_none() {
        return Err(concat("Unknown installed shell ", id));
    }
    if !s.is_held(id) {
        let ghost before = s@.disabled;
        s.disabled.push(id.to_string());
        assert(s@.disabled =~= before.push(id@));
    }
    let deselect = match &s.selected {
        Some(x) => same(x.as_str(), id),
        None => false,
    };
    if deselect {
        s.selected = None;
    }
    let mut m = concat("Emergency hold for ", id);
    append(&mut m, "; cleanup in progress");
    s.last_event = m;
    Ok(())
}

pub open spec fn stopped_held_message(id: Seq<char>) -> Seq<char> {
    id + " stopped and held disabled. release "@ + id + " clears the hold without starting it"@
}

/// The state after the held shell's cleanup: its instance is no longer active.
pub open spec fn hold_finished(s: StateView, id: Seq<char>) -> StateView {
    StateView {
        active: if s.active is Some && s.active->0.candidate.id == id {
            None
        } else {
            s.active
        },
        commands: Seq::empty(),
        last_event: stopped_held_message(id),
        ..s
    }
}

/// Completes an emergency stop once the held shell's processes were stopped.
/// Returns the instance to stop, if the held shell was the active one.
pub fn finish_hold(s: &mut State, id: &str) -> (r: Option<Running>)
    ensures
        final(s)@ == hold_finished(old(s)@, id@),
        r.deep_view() == (if old(s)@.active is Some && old(s)@.active->0.candidate.id == id@ {
            old(s)@.active
        } else {
            None
        }),
{
    let is_it = match &s.active {
        Some(r) => same(r.candidate.id.as_str(), id),
        None => false,
    };
    let r = if is_it {
        s.active.take()
    } else {
        None
    };
    s.commands = Vec::new();
    proof {
        reveal_strlit(" stopped and held disabled. release ");
        reveal_strlit(" clears the hold without starting it");
    }
    let mut m = concat(id, " stopped and held disabled. release ");
    append(&mut m, id);
    append(&mut m, " clears the hold without starting it");
    s.last_event = m;
    assert(s@.commands =~= Seq::<crate::control::RunningView>::empty());
    r
}

pub open spec fn release_pending_message() -> Seq<char> {
    "Recover the transaction first"@
}

pub open spec fn no_hold_message() -> Seq<char> {
    "Shell has no emergency hold"@
}

pub open spec fn released_message(id: Seq<char>) -> Seq<char> {
    "Hold released for "@ + id + "; still inactive until explicitly selected"@
}

/// Clears the hold on `id` without selecting or starting it.
pub fn release(s: &mut State, id: &str) -> (r: Result<(), String>)
    requires
        well_formed(old(s)@),
    ensures
        well_formed(final(s)@),
        old(s)@.pending is Some ==> (r matches Err(e) && e@ == release_pending_message()
            && final(s)@ == old(s)@),
        old(s)@.pending is None && !old(s)@.disabled.contains(id@) ==> (r matches Err(e) && e@
            == no_hold_message() && final(s)@ == old(s)@),
        old(s)@.pending is None && old(s)@.disabled.contains(id@) ==> (r is Ok && final(s)@
            == (StateView {
            disabled: old(s)@.disabled.remove(crate::text::index_of(old(s)@.disabled, id@)),
            last_event: released_message(id@),
            ..old(s)@
        })),
{
    proof {
        reveal_strlit("Recover the transaction first");
        reveal_strlit("Shell has no emergency hold");
        reveal_strlit("Hold released for ");
        reveal_strlit("; still inactive until explicitly selected");
    }
    if s.pending.is_some() {
        return Err("Recover the transaction first".to_string());
    }
    let mut i: usize = 0;
    while i < s.disabled.len()
        invariant
            i <= s.disabled.len(),
            s@.disabled.len() == s.disabled.len(),
            forall|j: int| 0 <= j < i ==> s@.disabled[j] != id@,
            s@ == old(s)@,
            well_formed(s@),
            s@.pending is None,
        decreases s.disabled.len() - i,
    {
        assert(s@.disabled[i as int] == s.disabled@[i as int]@);
        if same(s.disabled[i].as_str(), id) {
            proof {
                crate::text::lemma_index_of_is(s@.disabled, id@, i as int);
            }
            let ghost before = s@.disabled;
            s.disabled.remove(i);
            assert(s@.disabled =~= before.remove(i as int));
            proof {
                assert forall|a: int, b: int| 0 <= a < b < s@.disabled.len() implies s@.disabled[a]
                    != s@.disabled[b] by {
                    let a0 = if a < i { a } else { a + 1 };
                    let b0 = if b < i { b } else { b + 1 };
                    assert(s@.disabled[a] == before[a0]);
                    assert(s@.disabled[b] == before[b0]);
                }
            }
            let mut m = concat("Hold released for ", id);
            append(&mut m, "; still inactive until explicitly selected");
            s.last_event = m;
            return Ok(());
        }
        i += 1;
    }
    assert(!s@.disabled.contains(id@)) by {
        if s@.disabled.contains(id@) {
            let k = choose|k: int| 0 <= k < s@.disabled.len() && s@.disabled[k] == id@;
            assert(k < i);
        }
    }
    Err("Shell has no emergency hold".to_string())
}

// ------------------------------------------------------------ laws

/// Holds override selection: a held shell's gate is closed, and the hold
/// deselects it, so it cannot resume either. Its last configuration stays in
/// place, and no other hold is lifted.
pub proof fn law_hold_closes_gate(s: StateView, id: Seq<char>)
    ensures
        !gate_open(held(s, id), id),
        held(s, id).selected != Some(id),
        held(s, id).disabled.contains(id),
        held(s, id).config == s.config,
        forall|x: Seq<char>| s.disabled.contains(x) ==> #[trigger] held(s, id).disabled.contains(x),
{
    if !s.disabled.contains(id) {
        assert(s.disabled.push(id).last() == id);
        assert forall|x: Seq<char>| s.disabled.contains(x) implies #[trigger] held(
            s,
            id,
        ).disabled.contains(x) by {
            let k = choose|k: int| 0 <= k < s.disabled.len() && s.disabled[k] == x;
            assert(s.disabled.push(id)[k] == x);
        }
    }
}

/// Release clears only the hold: it selects nothing, so the managed entrypoint of a shell
/// that was held does not open until it is selected by a switch.
pub proof fn law_release_does_not_select(s: StateView, id: Seq<char>)
    requires
        s.pending is None,
        s.disabled.contains(id),
        s.disabled.no_duplicates(),
        s.selected != Some(id),
    ensures
        ({
            let t = StateView {
                disabled: s.disabled.remove(crate::text::index_of(s.disabled, id)),
                last_event: released_message(id),
                ..s
            };
            &&& t.selected == s.selected
            &&& !t.disabled.contains(id)
            &&& !gate_open(t, id)
        }),
{
    let k = crate::text::index_of(s.disabled, id);
    crate::text::lemma_index_of(s.disabled, id);
    let d = s.disabled.remove(k);
    assert(!d.contains(id)) by {
        if d.contains(id) {
            let m = choose|m: int| 0 <= m < d.len() && d[m] == id;
            if m < k {
                assert(d[m] == s.disabled[m]);
            } else {
                assert(d[m] == s.disabled[m + 1]);
            }
        }
    }
}

/// Holds override leases: a held shell is never authorized, whatever lease it presents.
pub proof fn law_hold_overrides_lease(
    s: StateView,
    id: Seq<char>,
    purpose: Seq<char>,
    token: Seq<char>,
    healthy: bool,
)
    requires
        s.schema == 2,
        s.disabled.contains(id),
    ensures
        authorize_refusal(s, id, purpose, token, healthy) == Some(lease_held_message(id)),
{
}

/// Outside a transaction, configuration writes are never authorized.
pub proof fn law_configure_needs_transaction(
    s: StateView,
    id: Seq<char>,
    token: Seq<char>,
    healthy: bool,
)
    requires
        s.pending is None,
    ensures
        authorize_refusal(s, id, "configure"@, token, healthy) is Some,
{
}

/// Completing a widget command is idempotent.
pub proof fn law_widget_normalization_idempotent(adapter: Seq<char>, argv: Seq<Seq<char>>)
    requires
        normalized_widget(adapter, argv) is Ok,
    ensures
        normalized_widget(adapter, normalized_widget(adapter, argv)->Ok_0) == normalized_widget(
            adapter,
            argv,
        ),
{
    let out = normalized_widget(adapter, argv)->Ok_0;
    if adapter == "serpantinum-bridge-v1"@ && marker_index(argv) >= 0 {
        lemma_marker_from(argv, 0);
        assert(out.take(argv.len() as int) =~= argv.take(argv.len() as int));
        lemma_marker_prefix(argv, out, 0, argv.len() as int);
    }
}

} // verus!

verus! {

// ------------------------------------------------------------ gated commands

/// What a managed entrypoint does with one invocation.
#[derive(Debug)]
pub enum GateAction {
    /// Print this introspection text.
    Help(String),
    /// Print this status line.
    Status(String),
    /// Resume the selected shell through the full transaction path.
    Resume,
    /// Run this exact argv under supervision with the live lease.
    Run(Vec<String>),
}

pub enum GateActionView {
    Help(Seq<char>),
    Status(Seq<char>),
    Resume,
    Run(Seq<Seq<char>>),
}

impl View for GateAction {
    type V = GateActionView;

    open spec fn view(&self) -> GateActionView {
        match self {
            GateAction::Help(t) => GateActionView::Help(t@),
            GateAction::Status(t) => GateActionView::Status(t@),
            GateAction::Resume => GateActionView::Resume,
            GateAction::Run(v) => GateActionView::Run(v.deep_view()),
        }
    }
}

/// Does `args` begin with `prefix`?
pub fn args_start_with(args: &Vec<String>, prefix: &Vec<String>) -> (r: bool)
    ensures
        r == crate::text::starts_with(args.deep_view(), prefix.deep_view()),
{
    if prefix.len() > args.len() {
        return false;
    }
    let mut i: usize = 0;
    while i < prefix.len()
        invariant
            i <= prefix.len() <= args.len(),
            forall|j: int| 0 <= j < i ==> args@[j]@ == prefix@[j]@,
        decreases prefix.len() - i,
    {
        if !same(args[i].as_str(), prefix[i].as_str()) {
            assert(args.deep_view().take(prefix@.len() as int)[i as int] != prefix.deep_view()[i as int]);
            return false;
        }
        i += 1;
    }
    assert(args.deep_view().take(prefix@.len() as int) =~= prefix.deep_view());
    true
}

fn is_word(v: &Vec<String>, w: &str) -> (r: bool)
    ensures
        r == (v.deep_view() == seq![w@]),
{
    if v.len() != 1 {
        proof {
            if v.deep_view() == seq![w@] {
                assert(v.deep_view().len() == 1);
            }
        }
        return false;
    }
    let r = same(v[0].as_str(), w);
    proof {
        if r {
            assert(v.deep_view() =~= seq![w@]);
        } else if v.deep_view() == seq![w@] {
            assert(v.deep_view()[0] == v@[0]@);
        }
    }
    r
}

/// Is the invocation a request for introspection?
pub open spec fn wants_help(args: Seq<Seq<char>>) -> bool {
    args.len() == 0 || args.contains("--help"@) || args.contains("-h"@) || args == seq!["help"@]
}

pub open spec fn bool_text(b: bool) -> Seq<char> {
    if b {
        "true"@
    } else {
        "false"@
    }
}

/// The status line of a managed entrypoint.
pub open spec fn status_text(s: StateView, id: Seq<char>, active_healthy: bool) -> Seq<char> {
    id + ": selected="@ + bool_text(s.selected == Some(id)) + ", running="@ + bool_text(
        s.active is Some && s.active->0.candidate.id == id && active_healthy,
    ) + ", disabled="@ + bool_text(s.disabled.contains(id)) + ", trial="@ + bool_text(
        s.pending is Some,
    )
}

/// The route lines the help text lists for the gates selected by `entry`.
pub open spec fn route_lines(
    cmds: Seq<crate::ownership::CommandGateView>,
    entry: Option<Seq<char>>,
) -> Seq<char>
    decreases cmds.len(),
{
    if cmds.len() == 0 {
        Seq::empty()
    } else {
        route_lines(cmds.drop_last(), entry) + if entry is None || cmds.last().path == entry->0 {
            lines_of_routes(cmds.last().routes)
        } else {
            Seq::empty()
        }
    }
}

pub open spec fn lines_of_routes(routes: Seq<RouteView>) -> Seq<char>
    decreases routes.len(),
{
    if routes.len() == 0 {
        Seq::empty()
    } else {
        lines_of_routes(routes.drop_last()) + "  "@ + join_all(routes.last().prefix, " "@)
            + "\n"@
    }
}

pub open spec fn help_header(id: Seq<char>) -> Seq<char> {
    id
        + ": Shellswitch-managed entrypoint\nLifecycle: start / session-start / run (resume selected shell); status\nSwitch, stop, restart or update through Shellswitch to preserve rollback and ownership.\n"@
}

/// The introspection text of a managed entrypoint, including the registered routes of `id`.
pub open spec fn help_text(s: StateView, id: Seq<char>, entry: Option<Seq<char>>) -> Seq<char> {
    help_header(id) + match registered(s, id) {
        Some(c) => match c.lifecycle {
            Some(l) => route_lines(l.commands, entry),
            None => Seq::empty(),
        },
        None => Seq::empty(),
    }
}

fn routes_text(routes: &Vec<Route>) -> (r: String)
    ensures
        r@ == lines_of_routes(routes.deep_view()),
{
    let mut t = String::new();
    let mut i: usize = 0;
    while i < routes.len()
        invariant
            i <= routes.len(),
            t@ == lines_of_routes(routes.deep_view().take(i as int)),
        decreases routes.len() - i,
    {
        append(&mut t, "  ");
        let j = join_strings(&routes[i].prefix, " ");
        append(&mut t, j.as_str());
        append(&mut t, "\n");
        proof {
            reveal_strlit("  ");
            reveal_strlit(" ");
            reveal_strlit("\n");
            let w = routes.deep_view().take(i + 1);
            assert(w.drop_last() =~= routes.deep_view().take(i as int));
            assert(w.last() == routes@[i as int]@);
        }
        i += 1;
    }
    assert(routes.deep_view().take(i as int) =~= routes.deep_view());
    t
}

fn help_of(s: &State, id: &str, entry: Option<&str>) -> (r: String)
    ensures
        r@ == help_text(
            s@,
            id@,
            match entry {
                Some(x) => Some(x@),
                None => None,
            },
        ),
{
    let ghost e = match entry {
        Some(x) => Some(x@),
        None => None,
    };
    proof {
        reveal_strlit(": Shellswitch-managed entrypoint\nLifecycle: start / session-start / run (resume selected shell); status\nSwitch, stop, restart or update through Shellswitch to preserve rollback and ownership.\n");
    }
    let mut t = concat(
        id,
        ": Shellswitch-managed entrypoint\nLifecycle: start / session-start / run (resume selected shell); status\nSwitch, stop, restart or update through Shellswitch to preserve rollback and ownership.\n",
    );
    if let Some(c) = s.registration(id) {
        if let Some(l) = &c.lifecycle {
            let ghost head = t@;
            let mut i: usize = 0;
            while i < l.commands.len()
                invariant
                    i <= l.commands.len(),
                    t@ == head + route_lines(l.commands.deep_view().take(i as int), e),
                    e == match entry {
                        Some(x) => Some(x@),
                        None => None::<Seq<char>>,
                    },
                decreases l.commands.len() - i,
            {
                let ghost before = t@;
                let endpoint = &l.commands[i];
                let listed = match entry {
                    None => true,
                    Some(p) => same(endpoint.path.as_str(), p),
                };
                if listed {
                    let lines = routes_text(&endpoint.routes);
                    append(&mut t, lines.as_str());
                }
                proof {
                    let w = l.commands.deep_view().take(i + 1);
                    assert(w.drop_last() =~= l.commands.deep_view().take(i as int));
                    assert(w.last() == l.commands@[i as int]@);
                    if !listed {
                        assert(t@ =~= before + Seq::<char>::empty());
                    }
                    assert(t@ =~= head + route_lines(w, e));
                }
                i += 1;
            }
            assert(l.commands.deep_view().take(i as int) =~= l.commands.deep_view());
        }
    }
    proof {
        match registered(s@, id@) {
            Some(c) => match c.lifecycle {
                Some(_) => {},
                None => {
                    assert(t@ =~= help_header(id@) + Seq::<char>::empty());
                },
            },
            None => {
                assert(t@ =~= help_header(id@) + Seq::<char>::empty());
            },
        }
    }
    t
}

fn bool_string(b: bool) -> (r: String)
    ensures
        r@ == bool_text(b),
{
    proof {
        reveal_strlit("true");
        reveal_strlit("false");
    }
    if b {
        "true".to_string()
    } else {
        "false".to_string()
    }
}

fn status_of(s: &State, id: &str, active_healthy: bool) -> (r: String)
    ensures
        r@ == status_text(s@, id@, active_healthy),
{
    let selected = match &s.selected {
        Some(x) => same(x.as_str(), id),
        None => false,
    };
    let running = match &s.active {
        Some(r) => same(r.candidate.id.as_str(), id) && active_healthy,
        None => false,
    };
    proof {
        reveal_strlit(": selected=");
        reveal_strlit(", running=");
        reveal_strlit(", disabled=");
        reveal_strlit(", trial=");
    }
    let mut t = concat(id, ": selected=");
    append(&mut t, bool_string(selected).as_str());
    append(&mut t, ", running=");
    append(&mut t, bool_string(running).as_str());
    append(&mut t, ", disabled=");
    append(&mut t, bool_string(s.is_held(id)).as_str());
    append(&mut t, ", trial=");
    append(&mut t, bool_string(s.pending.is_some()).as_str());
    t
}


pub open spec fn gate_closed_message(id: Seq<char>) -> Seq<char> {
    id + " is inactive, disabled, or undergoing handoff; select it explicitly in Shellswitch"@
}

pub open spec fn not_running_message() -> Seq<char> {
    "Selected shell is not running; use resume"@
}

pub open spec fn no_routes_message() -> Seq<char> {
    "No declared CLI routes"@
}

pub open spec fn unknown_entry_message() -> Seq<char> {
    "Unknown CLI entrypoint"@
}

pub open spec fn unsupported_message() -> Seq<char> {
    "Unsupported command through managed gate; use Shellswitch install/switch/disable for lifecycle changes"@
}

/// The invocation asks to (re)start the selected shell.
pub open spec fn resumes(args: Seq<Seq<char>>) -> bool {
    args.len() > 0 && (args[0] == "start"@ || args[0] == "session-start"@ || args[0] == "run"@)
}

/// Index of the first declared entrypoint that `entry` selects (any, when
/// `entry` is `None`), or -1.
pub open spec fn endpoint_index(cmds: Seq<crate::ownership::CommandGateView>, entry: Option<Seq<char>>) -> int
    decreases cmds.len(),
{
    if cmds.len() == 0 {
        -1
    } else {
        let k = endpoint_index(cmds.drop_last(), entry);
        if k >= 0 {
            k
        } else if entry is None || cmds.last().path == entry->0 {
            cmds.len() - 1
        } else {
            -1
        }
    }
}

pub proof fn lemma_endpoint_index(cmds: Seq<crate::ownership::CommandGateView>, entry: Option<Seq<char>>)
    ensures
        -1 <= endpoint_index(cmds, entry) < cmds.len(),
    decreases cmds.len(),
{
    if cmds.len() > 0 {
        lemma_endpoint_index(cmds.drop_last(), entry);
    }
}

/// Some route of `routes` has exactly the one-word prefix `name`.
pub open spec fn has_route(routes: Seq<RouteView>, name: Seq<char>) -> bool {
    exists|i: int| 0 <= i < routes.len() && #[trigger] routes[i].prefix == seq![name]
}

/// `routes` with a bridge route `name` added unless one is declared.
pub open spec fn with_bridge_route(
    routes: Seq<RouteView>,
    name: Seq<char>,
    argv: Seq<Seq<char>>,
    tail: Seq<Seq<char>>,
) -> Seq<RouteView> {
    if has_route(routes, name) {
        routes
    } else {
        routes.push(RouteView { prefix: seq![name], argv: argv + seq!["ipc"@, "call"@] + tail })
    }
}

/// The routes a gate offers: the declared ones, and for the Tonantzintla
/// bridge its lock, preview-lock and quick-actions IPC calls.
pub open spec fn gate_routes(adapter: Seq<char>, backend: BackendView, routes: Seq<RouteView>) -> Seq<
    RouteView,
> {
    match backend {
        BackendView::Process { argv, .. } => if adapter == "tonantzintla-bridge-v1"@ {
            with_bridge_route(
                with_bridge_route(
                    with_bridge_route(routes, "lock"@, argv, seq!["umbra"@, "lock"@]),
                    "preview-lock"@,
                    argv,
                    seq!["umbra"@, "preview"@],
                ),
                "quick"@,
                argv,
                seq!["quickactions"@, "toggle"@],
            )
        } else {
            routes
        },
        _ => routes,
    }
}

/// Index of the matching route with the longest prefix (the last of equals), or -1.
pub open spec fn best_route(routes: Seq<RouteView>, args: Seq<Seq<char>>) -> int
    decreases routes.len(),
{
    if routes.len() == 0 {
        -1
    } else {
        let b = best_route(routes.drop_last(), args);
        if crate::text::starts_with(args, routes.last().prefix) && (b < 0 || routes[b].prefix.len()
            <= routes.last().prefix.len()) {
            routes.len() - 1
        } else {
            b
        }
    }
}

pub proof fn lemma_best_route(routes: Seq<RouteView>, args: Seq<Seq<char>>)
    ensures
        -1 <= best_route(routes, args) < routes.len(),
        best_route(routes, args) >= 0 ==> crate::text::starts_with(
            args,
            routes[best_route(routes, args)].prefix,
        ),
        forall|i: int|
            0 <= i < routes.len() && crate::text::starts_with(args, #[trigger] routes[i].prefix)
                ==> best_route(routes, args) >= 0 && routes[i].prefix.len() <= routes[best_route(
                routes,
                args,
            )].prefix.len(),
    decreases routes.len(),
{
    if routes.len() > 0 {
        let d = routes.drop_last();
        lemma_best_route(d, args);
        assert forall|i: int|
            0 <= i < routes.len() && crate::text::starts_with(args, #[trigger] routes[i].prefix)
                implies best_route(routes, args) >= 0 && routes[i].prefix.len()
            <= routes[best_route(routes, args)].prefix.len() by {
            if i < routes.len() - 1 {
                assert(d[i] == routes[i]);
            }
        }
    }
}

/// The argv a matched route runs: its own argv, then the rest of the
/// invocation; the Tonantzintla quick panel also asks for telemetry.
pub open spec fn gated_argv(adapter: Seq<char>, route: RouteView, args: Seq<Seq<char>>) -> Seq<
    Seq<char>,
> {
    let a = route.argv + args.skip(route.prefix.len() as int);
    if adapter == "tonantzintla-bridge-v1"@ && args == seq!["quick"@] {
        a.push("telemetry"@)
    } else {
        a
    }
}

/// What running `args` through a managed entrypoint of the active shell `c`
/// yields: a blocked prefix is refused; an entrypoint that delegates to the
/// shell's own CLI runs it with the arguments unchanged; otherwise the best
/// matching route runs.
pub open spec fn run_outcome(c: CandidateView, entry: Option<Seq<char>>, args: Seq<Seq<char>>) -> Result<
    Seq<Seq<char>>,
    Seq<char>,
> {
    match c.lifecycle {
        None => Err(no_routes_message()),
        Some(l) => {
            let k = endpoint_index(l.commands, entry);
            if k < 0 {
                Err(unknown_entry_message())
            } else if crate::native::blocked(l.commands[k].blocked_prefixes, args) {
                Err(crate::native::blocked_message())
            } else if l.commands[k].native_argv.len() > 0 {
                Ok(l.commands[k].native_argv + args)
            } else {
                let routes = gate_routes(l.adapter, c.backend, l.commands[k].routes);
                let b = best_route(routes, args);
                if b < 0 {
                    Err(unsupported_message())
                } else {
                    normalized_widget(l.adapter, gated_argv(l.adapter, routes[b], args))
                }
            }
        },
    }
}

pub open spec fn entry_view(entry: Option<&str>) -> Option<Seq<char>> {
    match entry {
        Some(x) => Some(x@),
        None => None,
    }
}

/// What a managed entrypoint does with `args`: introspection and status always,
/// otherwise only through an open gate with intact ownership.
pub open spec fn gate_outcome(
    s: StateView,
    id: Seq<char>,
    entry: Option<Seq<char>>,
    args: Seq<Seq<char>>,
    files_pending: bool,
    active_healthy: bool,
    d: Seq<FileReadView>,
) -> Result<GateActionView, Seq<char>> {
    if wants_help(args) {
        Ok(GateActionView::Help(help_text(s, id, entry)))
    } else if args == seq!["status"@] {
        Ok(GateActionView::Status(status_text(s, id, active_healthy)))
    } else if !gate_open(s, id) || files_pending {
        Err(gate_closed_message(id))
    } else if config_failure(s, d) is Some {
        Err(config_failure(s, d)->0)
    } else if resumes(args) {
        Ok(GateActionView::Resume)
    } else if !(s.active is Some && active_healthy) {
        Err(not_running_message())
    } else {
        match run_outcome(s.active->0.candidate, entry, args) {
            Ok(v) => Ok(GateActionView::Run(v)),
            Err(e) => Err(e),
        }
    }
}

/// A managed entrypoint runs a gated command only while its gate is open (the
/// shell is selected, or is the trial target of the open switch, and not
/// held), no file operation is pending, the owned configuration shows no
/// drift, and the selected instance is running and healthy.
pub proof fn law_gate_runs_only_when_open(
    s: StateView,
    id: Seq<char>,
    entry: Option<Seq<char>>,
    args: Seq<Seq<char>>,
    files_pending: bool,
    active_healthy: bool,
    d: Seq<FileReadView>,
)
    requires
        gate_outcome(s, id, entry, args, files_pending, active_healthy, d) matches Ok(
            GateActionView::Run(_),
        ),
    ensures
        gate_open(s, id),
        !s.disabled.contains(id),
        !files_pending,
        config_failure(s, d) is None,
        s.active is Some && active_healthy,
{
}

fn find_endpoint(cmds: &Vec<crate::ownership::CommandGate>, entry: Option<&str>) -> (r: Option<usize>)
    ensures
        match r {
            Some(k) => k == endpoint_index(cmds.deep_view(), entry_view(entry)),
            None => endpoint_index(cmds.deep_view(), entry_view(entry)) == -1,
        },
{
    let ghost e = entry_view(entry);
    let mut i: usize = 0;
    while i < cmds.len()
        invariant
            i <= cmds.len(),
            e == entry_view(entry),
            endpoint_index(cmds.deep_view().take(i as int), e) == -1,
        decreases cmds.len() - i,
    {
        let hit = match entry {
            None => true,
            Some(p) => same(cmds[i].path.as_str(), p),
        };
        proof {
            let w = cmds.deep_view().take(i + 1);
            assert(w.drop_last() =~= cmds.deep_view().take(i as int));
            assert(w.last() == cmds@[i as int]@);
        }
        if hit {
            proof {
                lemma_prefix_endpoint(cmds.deep_view(), e, i + 1);
            }
            return Some(i);
        }
        i += 1;
    }
    assert(cmds.deep_view().take(i as int) =~= cmds.deep_view());
    None
}

/// Once a prefix of the entrypoints holds a selected one, the whole list agrees.
pub proof fn lemma_prefix_endpoint(cmds: Seq<crate::ownership::CommandGateView>, entry: Option<Seq<char>>, n: int)
    requires
        0 <= n <= cmds.len(),
        endpoint_index(cmds.take(n), entry) >= 0,
    ensures
        endpoint_index(cmds, entry) == endpoint_index(cmds.take(n), entry),
    decreases cmds.len() - n,
{
    if n < cmds.len() {
        let w = cmds.take(n + 1);
        assert(w.drop_last() =~= cmds.take(n));
        lemma_prefix_endpoint(cmds, entry, n + 1);
    } else {
        assert(cmds.take(n) =~= cmds);
    }
}

fn has_route_named(routes: &Vec<Route>, name: &str) -> (r: bool)
    ensures
        r == has_route(routes.deep_view(), name@),
{
    let mut i: usize = 0;
    while i < routes.len()
        invariant
            i <= routes.len(),
            forall|j: int| 0 <= j < i ==> routes.deep_view()[j].prefix != seq![name@],
        decreases routes.len() - i,
    {
        if is_word(&routes[i].prefix, name) {
            assert(routes.deep_view()[i as int].prefix == seq![name@]);
            return true;
        }
        i += 1;
    }
    false
}

fn add_bridge_route(routes: &mut Vec<Route>, name: &str, argv: &Vec<String>, a: &str, b: &str)
    ensures
        final(routes).deep_view() == with_bridge_route(
            old(routes).deep_view(),
            name@,
            argv.deep_view(),
            seq![a@, b@],
        ),
{
    if has_route_named(routes, name) {
        return;
    }
    let mut command = duplicate_vec(argv);
    command.push("ipc".to_string());
    command.push("call".to_string());
    command.push(a.to_string());
    command.push(b.to_string());
    let mut prefix: Vec<String> = Vec::new();
    prefix.push(name.to_string());
    proof {
        reveal_strlit("ipc");
        reveal_strlit("call");
        assert(command.deep_view() =~= argv.deep_view() + seq!["ipc"@, "call"@] + seq![a@, b@]);
        assert(prefix.deep_view() =~= seq![name@]);
    }
    let ghost before = routes.deep_view();
    routes.push(Route { prefix, argv: command });
    assert(routes.deep_view() =~= before.push(
        RouteView { prefix: seq![name@], argv: argv.deep_view() + seq!["ipc"@, "call"@] + seq![a@, b@] },
    ));
}

fn best_route_index(routes: &Vec<Route>, args: &Vec<String>) -> (r: Option<usize>)
    ensures
        match r {
            Some(b) => b == best_route(routes.deep_view(), args.deep_view()),
            None => best_route(routes.deep_view(), args.deep_view()) == -1,
        },
{
    let ghost rv = routes.deep_view();
    let mut best: Option<usize> = None;
    let mut i: usize = 0;
    while i < routes.len()
        invariant
            i <= routes.len(),
            rv == routes.deep_view(),
            match best {
                Some(b) => b < i && b == best_route(rv.take(i as int), args.deep_view()),
                None => best_route(rv.take(i as int), args.deep_view()) == -1,
            },
        decreases routes.len() - i,
    {
        let m = args_start_with(args, &routes[i].prefix);
        proof {
            let w = rv.take(i + 1);
            assert(w.drop_last() =~= rv.take(i as int));
            assert(w.last() == routes@[i as int]@);
            match best {
                Some(b) => {
                    assert(w[b as int] == rv[b as int]);
                },
                None => {},
            }
        }
        if m {
            match best {
                None => {
                    best = Some(i);
                },
                Some(b) => {
                    if routes[b].prefix.len() <= routes[i].prefix.len() {
                        best = Some(i);
                    }
                },
            }
        }
        i += 1;
    }
    assert(rv.take(i as int) =~= rv);
    best
}


/// The argv that running `args` through a managed entrypoint of the active shell `c` launches.
pub fn run_command(c: &Candidate, entry: Option<&str>, args: &Vec<String>) -> (r: Result<
    Vec<String>,
    String,
>)
    ensures
        match (r, run_outcome(c@, entry_view(entry), args.deep_view())) {
            (Ok(v), Ok(w)) => v.deep_view() == w,
            (Err(e), Err(w)) => e@ == w,
            _ => false,
        },
{
    proof {
        reveal_strlit("No declared CLI routes");
        reveal_strlit("Unknown CLI entrypoint");
        reveal_strlit(
            "Unsupported command through managed gate; use Shellswitch install/switch/disable for lifecycle changes",
        );
        reveal_strlit("tonantzintla-bridge-v1");
        reveal_strlit("telemetry");
        reveal_strlit("quick");
    }
    let l = match &c.lifecycle {
        None => {
            return Err("No declared CLI routes".to_string());
        },
        Some(l) => l,
    };
    let k = match find_endpoint(&l.commands, entry) {
        None => {
            return Err("Unknown CLI entrypoint".to_string());
        },
        Some(k) => k,
    };
    proof {
        lemma_endpoint_index(l.commands.deep_view(), entry_view(entry));
        reveal_strlit("This command changes installation or ownership; use a staged update instead");
    }
    let ep = &l.commands[k];
    assert(ep@ == l@.commands[k as int]);
    if crate::native::is_blocked(&ep.blocked_prefixes, args) {
        return Err("This command changes installation or ownership; use a staged update instead".to_string());
    }
    if ep.native_argv.len() > 0 {
        return Ok(crate::native::with_args(duplicate_vec(&ep.native_argv), args));
    }
    let mut routes = duplicate_vec(&l.commands[k].routes);
    assert(routes.deep_view() == l@.commands[k as int].routes);
    let bridge = same(l.adapter.as_str(), "tonantzintla-bridge-v1");
    if bridge {
        if let Backend::Process { argv, .. } = &c.backend {
            add_bridge_route(&mut routes, "lock", argv, "umbra", "lock");
            add_bridge_route(&mut routes, "preview-lock", argv, "umbra", "preview");
            add_bridge_route(&mut routes, "quick", argv, "quickactions", "toggle");
        }
    }
    assert(routes.deep_view() == gate_routes(l@.adapter, c@.backend, l@.commands[k as int].routes));
    let b = match best_route_index(&routes, args) {
        None => {
            return Err(
                "Unsupported command through managed gate; use Shellswitch install/switch/disable for lifecycle changes".to_string(),
            );
        },
        Some(b) => b,
    };
    proof {
        lemma_best_route(routes.deep_view(), args.deep_view());
    }
    let route = &routes[b];
    assert(route@ == routes.deep_view()[b as int]);
    let ghost rest_from = route@.prefix.len();
    let mut argv = duplicate_vec(&route.argv);
    let mut j = route.prefix.len();
    while j < args.len()
        invariant
            rest_from == route@.prefix.len(),
            rest_from <= j <= args.len(),
            argv.deep_view() == route@.argv + args.deep_view().subrange(rest_from as int, j as int),
        decreases args.len() - j,
    {
        let ghost before = argv.deep_view();
        let next = args[j].clone();
        argv.push(next);
        assert(argv.deep_view() =~= before.push(args@[j as int]@));
        assert(args.deep_view().subrange(rest_from as int, j + 1) =~= args.deep_view().subrange(
            rest_from as int,
            j as int,
        ).push(args@[j as int]@));
        j += 1;
    }
    assert(args.deep_view().subrange(rest_from as int, j as int) =~= args.deep_view().skip(
        rest_from as int,
    ));
    if bridge && is_word(args, "quick") {
        argv.push("telemetry".to_string());
    }
    assert(argv.deep_view() =~= gated_argv(l@.adapter, routes.deep_view()[b as int], args.deep_view()));
    match normalize_widget_args(l.adapter.as_str(), &mut argv) {
        Ok(()) => Ok(argv),
        Err(e) => Err(e),
    }
}

fn wants_help_of(args: &Vec<String>) -> (r: bool)
    ensures
        r == wants_help(args.deep_view()),
{
    args.len() == 0 || crate::text::contains_string(args, "--help") || crate::text::contains_string(
        args,
        "-h",
    ) || is_word(args, "help")
}

fn resumes_of(args: &Vec<String>) -> (r: bool)
    ensures
        r == resumes(args.deep_view()),
{
    if args.len() == 0 {
        return false;
    }
    let a = args[0].as_str();
    same(a, "start") || same(a, "session-start") || same(a, "run")
}

/// Decides what a managed entrypoint of `id` does with `args`. `files_pending`
/// tells whether a file transaction journal is outstanding, `active_healthy`
/// whether the active instance is healthy, and `disk` what the owned files hold.
pub fn gate(
    s: &State,
    id: &str,
    entry: Option<&str>,
    args: &Vec<String>,
    files_pending: bool,
    active_healthy: bool,
    disk: &Disk,
) -> (r: Result<GateAction, String>)
    ensures
        match (
            r,
            gate_outcome(s@, id@, entry_view(entry), args.deep_view(), files_pending, active_healthy, disk@),
        ) {
            (Ok(a), Ok(v)) => a@ == v,
            (Err(e), Err(v)) => e@ == v,
            _ => false,
        },
{
    proof {
        reveal_strlit(" is inactive, disabled, or undergoing handoff; select it explicitly in Shellswitch");
        reveal_strlit("Selected shell is not running; use resume");
    }
    if wants_help_of(args) {
        return Ok(GateAction::Help(help_of(s, id, entry)));
    }
    if is_word(args, "status") {
        return Ok(GateAction::Status(status_of(s, id, active_healthy)));
    }
    if !gate_allows(s, id) || files_pending {
        return Err(concat(id, " is inactive, disabled, or undergoing handoff; select it explicitly in Shellswitch"));
    }
    match check_config(s, disk) {
        Err(e) => {
            return Err(e);
        },
        Ok(()) => {},
    }
    if resumes_of(args) {
        return Ok(GateAction::Resume);
    }
    match &s.active {
        Some(a) => {
            if !active_healthy {
                return Err("Selected shell is not running; use resume".to_string());
            }
            match run_command(&a.candidate, entry, args) {
                Ok(v) => Ok(GateAction::Run(v)),
                Err(e) => Err(e),
            }
        },
        None => Err("Selected shell is not running; use resume".to_string()),
    }
}


// ------------------------------------------------------------ gated command records

/// The state with one more supervised gated command.
pub open spec fn with_command(s: StateView, r: RunningView) -> StateView {
    StateView { commands: s.commands.push(r), ..s }
}

/// Records a gated command launched under supervision, so that a handoff stops it.
pub fn record_command(s: &mut State, r: Running)
    ensures
        final(s)@ == with_command(old(s)@, r@),
{
    let ghost before = s.commands.deep_view();
    s.commands.push(r);
    assert(s.commands.deep_view() =~= before.push(r@));
}

/// The record belongs to the process instance `pid` started at `start`.
pub open spec fn is_instance(r: RunningView, pid: u32, start: u64) -> bool {
    r.process matches Some(p) && p.pid == pid && p.start == start
}

/// The command records other than those of the instance `pid`/`start`, in order.
pub open spec fn other_commands(cmds: Seq<RunningView>, pid: u32, start: u64) -> Seq<RunningView>
    decreases cmds.len(),
{
    if cmds.len() == 0 {
        cmds
    } else if is_instance(cmds.last(), pid, start) {
        other_commands(cmds.drop_last(), pid, start)
    } else {
        other_commands(cmds.drop_last(), pid, start).push(cmds.last())
    }
}

/// Drops the record of a gated command that has finished.
pub fn forget_command(s: &mut State, pid: u32, start: u64)
    ensures
        final(s)@ == (StateView { commands: other_commands(old(s)@.commands, pid, start), ..old(s)@ }),
{
    let mut kept: Vec<Running> = Vec::new();
    let mut i: usize = 0;
    while i < s.commands.len()
        invariant
            i <= s.commands.len(),
            s@ == old(s)@,
            kept.deep_view() == other_commands(s.commands.deep_view().take(i as int), pid, start),
        decreases s.commands.len() - i,
    {
        let r = &s.commands[i];
        let mine = match &r.process {
            Some(p) => p.pid == pid && p.start == start,
            None => false,
        };
        proof {
            let w = s.commands.deep_view().take(i + 1);
            assert(w.drop_last() =~= s.commands.deep_view().take(i as int));
            assert(w.last() == s.commands@[i as int]@);
        }
        if !mine {
            let ghost before = kept.deep_view();
            kept.push(r.duplicate());
            assert(kept.deep_view() =~= before.push(s.commands@[i as int]@));
        }
        i += 1;
    }
    assert(s.commands.deep_view().take(i as int) =~= s.commands.deep_view());
    s.commands = kept;
}

} // verus!

verus! {

// ------------------------------------------------------------ legacy ids

/// Word `i` of the launch `argv` is the declared one, or names the
/// `shell.qml` of the directory that the word after `-p` declares.
pub open spec fn entry_word(prefix: Seq<Seq<char>>, argv: Seq<Seq<char>>, i: int) -> bool {
    argv[i] == prefix[i] || (i > 0 && argv[i - 1] == "-p"@ && argv[i] == prefix[i]
        + "/shell.qml"@)
}

/// The launch `argv` is exactly the entrypoint a matcher declares.
pub open spec fn declares_entry(prefix: Seq<Seq<char>>, argv: Seq<Seq<char>>) -> bool {
    prefix.len() == argv.len() && forall|i: int| 0 <= i < argv.len() ==> #[trigger] entry_word(prefix, argv, i)
}

/// Some matcher of `ms` declares the launch `argv`.
pub open spec fn declares_launch(ms: Seq<crate::ownership::ProcessMatchView>, argv: Seq<Seq<char>>) -> bool {
    exists|k: int| 0 <= k < ms.len() && declares_entry(#[trigger] ms[k].argv_prefix, argv)
}

/// The active instance was recorded under an older discovery id, and the
/// registration `id` declares its exact launch: outside a switch, `id` not
/// held, the instance selected under its old id and unmanaged.
pub open spec fn legacy_owner(s: StateView, id: Seq<char>) -> bool {
    &&& s.pending is None
    &&& !s.disabled.contains(id)
    &&& registered(s, id) matches Some(c)
    &&& c.lifecycle matches Some(l)
    &&& s.active matches Some(a)
    &&& s.selected == Some(a.candidate.id)
    &&& a.candidate.id != id
    &&& a.candidate.lifecycle is None
    &&& a.candidate.backend matches BackendView::Process { argv, .. }
    &&& declares_launch(l.processes, argv)
}

/// The instance and selection carried over to the registration `id`: the
/// running instance keeps its launch and identity, and takes the
/// registration's id and lifecycle.
pub open spec fn reconciled(s: StateView, id: Seq<char>) -> StateView {
    let a = s.active->0;
    StateView {
        selected: Some(id),
        active: Some(
            RunningView {
                candidate: CandidateView { id, lifecycle: registered(s, id)->0.lifecycle, ..a.candidate },
                ..a
            },
        ),
        ..s
    }
}

fn declares_entry_of(prefix: &Vec<String>, argv: &Vec<String>) -> (r: bool)
    ensures
        r == declares_entry(prefix.deep_view(), argv.deep_view()),
{
    if prefix.len() != argv.len() {
        return false;
    }
    proof {
        reveal_strlit("-p");
        reveal_strlit("/shell.qml");
    }
    let ghost pv = prefix.deep_view();
    let ghost av = argv.deep_view();
    let mut i: usize = 0;
    while i < argv.len()
        invariant
            i <= argv.len(),
            prefix.len() == argv.len(),
            pv == prefix.deep_view(),
            av == argv.deep_view(),
            forall|j: int| 0 <= j < i ==> #[trigger] entry_word(pv, av, j),
        decreases argv.len() - i,
    {
        assert(av[i as int] == argv@[i as int]@ && pv[i as int] == prefix@[i as int]@);
        let ok = if same(argv[i].as_str(), prefix[i].as_str()) {
            true
        } else if i > 0 && same(argv[i - 1].as_str(), "-p") {
            assert(av[i - 1] == argv@[i - 1]@);
            let q = concat(prefix[i].as_str(), "/shell.qml");
            same(argv[i].as_str(), q.as_str())
        } else {
            assert(i > 0 ==> av[i - 1] == argv@[i - 1]@);
            false
        };
        if !ok {
            assert(!entry_word(pv, av, i as int));
            return false;
        }
        i += 1;
    }
    true
}

fn declares_launch_of(ms: &Vec<crate::ownership::ProcessMatch>, argv: &Vec<String>) -> (r: bool)
    ensures
        r == declares_launch(ms.deep_view(), argv.deep_view()),
{
    let mut k: usize = 0;
    while k < ms.len()
        invariant
            k <= ms.len(),
            forall|j: int| 0 <= j < k ==> !declares_entry(#[trigger] ms.deep_view()[j].argv_prefix, argv.deep_view()),
        decreases ms.len() - k,
    {
        assert(ms.deep_view()[k as int] == ms@[k as int]@);
        assert(ms.deep_view()[k as int].argv_prefix == ms@[k as int].argv_prefix.deep_view());
        if declares_entry_of(&ms[k].argv_prefix, argv) {
            assert(declares_entry(ms.deep_view()[k as int].argv_prefix, argv.deep_view()));
            return true;
        }
        k += 1;
    }
    false
}

/// Carries an instance recorded under an older discovery id over to the
/// registration `id` that declares its exact launch; tells whether it did.
pub fn reconcile_legacy(s: &mut State, id: &str) -> (r: bool)
    ensures
        r == legacy_owner(old(s)@, id@),
        final(s)@ == (if r {
            reconciled(old(s)@, id@)
        } else {
            old(s)@
        }),
{
    if s.pending.is_some() || s.is_held(id) {
        return false;
    }
    let l = match s.registration(id) {
        None => {
            return false;
        },
        Some(c) => match &c.lifecycle {
            None => {
                return false;
            },
            Some(l) => l.duplicate(),
        },
    };
    let next = match &s.active {
        None => {
            return false;
        },
        Some(a) => {
            let selected_here = match &s.selected {
                Some(x) => same(x.as_str(), a.candidate.id.as_str()),
                None => false,
            };
            if !selected_here || same(a.candidate.id.as_str(), id) || a.candidate.lifecycle.is_some() {
                return false;
            }
            let declared = match &a.candidate.backend {
                Backend::Process { argv, .. } => declares_launch_of(&l.processes, argv),
                _ => false,
            };
            if !declared {
                return false;
            }
            let mut cand = a.candidate.duplicate();
            cand.id = id.to_string();
            cand.lifecycle = Some(l);
            Running {
                candidate: cand,
                process: crate::dup::duplicate_option(&a.process),
                owned_group: a.owned_group,
                lease: a.lease.duplicate(),
            }
        },
    };
    s.active = Some(next);
    s.selected = Some(id.to_string());
    true
}

} // verus!

verus! {

// ------------------------------------------------------------ laws on leases

/// During a transaction, the lease of its target is honoured exactly while
/// the target is starting or on trial: with schema 2, no hold on `id`, a
/// non-empty token and a known purpose (start, runtime or configure), a
/// transaction that targets `id` under that token authorizes it in phase
/// `Starting` or `Trial`, and calls the lease stale in every other phase.
pub proof fn law_transaction_lease_in_starting_and_trial(
    s: StateView,
    id: Seq<char>,
    purpose: Seq<char>,
    token: Seq<char>,
    active_healthy: bool,
)
    requires
        s.schema == 2,
        !s.disabled.contains(id),
        token.len() > 0,
        purpose == "start"@ || purpose == "runtime"@ || purpose == "configure"@,
        s.pending matches Some(p) && p.target.id == id && p.token == token,
    ensures
        authorize_refusal(s, id, purpose, token, active_healthy) is None <==> (
        s.pending->0.phase == Phase::Starting || s.pending->0.phase == Phase::Trial),
        !(s.pending->0.phase == Phase::Starting || s.pending->0.phase == Phase::Trial)
            ==> authorize_refusal(s, id, purpose, token, active_healthy) == Some(
            "Lease is stale or outside its handoff phase"@,
        ),
{
}

/// Outside a transaction, a start or runtime lease is honoured exactly when it
/// is the lease of the selected shell's live, healthy instance; a
/// configuration write is never authorized there.
pub proof fn law_live_lease_outside_transaction(
    s: StateView,
    id: Seq<char>,
    purpose: Seq<char>,
    token: Seq<char>,
    active_healthy: bool,
)
    requires
        s.schema == 2,
        !s.disabled.contains(id),
        token.len() > 0,
        s.pending is None,
    ensures
        purpose == "start"@ || purpose == "runtime"@ ==> (authorize_refusal(
            s,
            id,
            purpose,
            token,
            active_healthy,
        ) is None <==> (s.selected == Some(id) && s.active is Some && s.active->0.candidate.id == id
            && s.active->0.lease == token && active_healthy)),
        purpose == "configure"@ ==> authorize_refusal(s, id, purpose, token, active_healthy) is Some,
{
    reveal_strlit("start");
    reveal_strlit("runtime");
    reveal_strlit("configure");
    assert("start"@.len() == 5 && "runtime"@.len() == 7 && "configure"@.len() == 9);
}

} // verus!
