//! The order of a switch: from the opened journal and the outcome of the last
//! piece of outside work, the next journaled state and the next piece of work.
//! The caller performs each action, saves the state the step left, and reports
//! back; any failure it reports, or a report the current phase does not
//! expect, asks for a rollback. Also: how the journaled changes divide into
//! gates and configuration, and when keeping a trial runs its outside checks.
use crate::control::{
    applied, apply_pending, begun, check_config, clear_active, journal_of, keep_refusal,
    launch_of, launched, law_rollback_restores, pending_launch, phased, record_launch,
    record_ticket, reverted, set_phase, start_trial, stopped, switched, ticketed, trialled,
    with_target, Phase, State, StateView,
};
use crate::maintenance::stop_commands;
use crate::model::{Candidate, CandidateView};
use crate::ownership::{Change, ChangeView, ConfigView, Disk, OwnedFileView};
use crate::dup::Duplicate;
use crate::process::{Identity, IdentityView};
use crate::text::same;
use vstd::prelude::*;

verus! {

/// What the caller reports after the last action.
pub enum SwitchEvent {
    /// The journal of the new transaction is saved (phase `Prepared`).
    Begun,
    /// Gates are published: protection changes applied, services reloaded and
    /// the supervised commands stopped.
    GatesPublished,
    /// The previous instance, if any, was quiesced and stopped.
    PreviousStopped,
    /// The discovered shells were inspected again.
    HandoffChecked { still_running: bool },
    /// The configuration changes were written.
    ConfigWritten,
    /// The written configuration was validated (and reloaded where it reloads live).
    ConfigValidated,
    /// A launch ticket was created for a supervised process.
    Ticketed { ticket: String },
    /// The target was launched, as a supervised process or as a unit.
    Launched { process: Option<Identity> },
    /// The launched instance was released to start.
    Started,
    /// The instance is ready, the configuration verified and the others inactive, at `now`.
    Verified { now: u64 },
    /// The last action failed.
    Failed,
}

pub enum SwitchEventView {
    Begun,
    GatesPublished,
    PreviousStopped,
    HandoffChecked { still_running: bool },
    ConfigWritten,
    ConfigValidated,
    Ticketed { ticket: Seq<char> },
    Launched { process: Option<IdentityView> },
    Started,
    Verified { now: u64 },
    Failed,
}

impl View for SwitchEvent {
    type V = SwitchEventView;

    open spec fn view(&self) -> SwitchEventView {
        match self {
            SwitchEvent::Begun => SwitchEventView::Begun,
            SwitchEvent::GatesPublished => SwitchEventView::GatesPublished,
            SwitchEvent::PreviousStopped => SwitchEventView::PreviousStopped,
            SwitchEvent::HandoffChecked { still_running } => SwitchEventView::HandoffChecked {
                still_running: *still_running,
            },
            SwitchEvent::ConfigWritten => SwitchEventView::ConfigWritten,
            SwitchEvent::ConfigValidated => SwitchEventView::ConfigValidated,
            SwitchEvent::Ticketed { ticket } => SwitchEventView::Ticketed { ticket: ticket@ },
            SwitchEvent::Launched { process } => SwitchEventView::Launched {
                process: process.deep_view(),
            },
            SwitchEvent::Started => SwitchEventView::Started,
            SwitchEvent::Verified { now } => SwitchEventView::Verified { now: *now },
            SwitchEvent::Failed => SwitchEventView::Failed,
        }
    }
}

/// The next piece of outside work.
#[derive(Debug, Clone, Copy, PartialEq, Eq, Structural)]
pub enum SwitchAction {
    /// Apply the protection changes, reload services, stop the supervised commands.
    PublishGates,
    /// Quiesce and stop the previous instance.
    StopPrevious,
    /// Inspect the discovered shells: none may still run.
    CheckHandoff,
    /// Write the configuration changes.
    WriteConfig,
    /// Validate the written configuration, and reload it where it reloads live.
    ValidateConfig,
    /// Launch the target: a supervised process gets a ticket first.
    Launch,
    /// Spawn the supervised process under the journaled ticket.
    Spawn,
    /// Release the launched instance (the ticket's go, or the unit's start).
    Start,
    /// Wait until ready, verify the configuration and that the others are inactive.
    Verify,
    /// The trial is open: save and report success.
    Trial,
    /// Roll the transaction back.
    Revert,
}

/// One step of a switch: the state it leaves and the action it asks for.
/// Outside a transaction, after a failure, or on a report that does not
/// follow the last action, the state stays and a rollback is due.
pub open spec fn switch_step(s: StateView, e: SwitchEventView) -> (StateView, SwitchAction) {
    let refuse = (s, SwitchAction::Revert);
    match s.pending {
        None => refuse,
        Some(p) => match e {
            SwitchEventView::Begun => if p.phase == Phase::Prepared {
                (phased(s, Phase::Protected), SwitchAction::PublishGates)
            } else {
                refuse
            },
            SwitchEventView::GatesPublished => if p.phase == Phase::Protected {
                (StateView { commands: seq![], ..s }, SwitchAction::StopPrevious)
            } else {
                refuse
            },
            SwitchEventView::PreviousStopped => if p.phase == Phase::Protected {
                (phased(stopped(s), Phase::Stopped), SwitchAction::CheckHandoff)
            } else {
                refuse
            },
            SwitchEventView::HandoffChecked { still_running } => if p.phase == Phase::Stopped
                && !still_running {
                (s, SwitchAction::WriteConfig)
            } else {
                refuse
            },
            SwitchEventView::ConfigWritten => if p.phase == Phase::Stopped {
                (phased(applied(s), Phase::ConfigApplied), SwitchAction::ValidateConfig)
            } else {
                refuse
            },
            SwitchEventView::ConfigValidated => if p.phase == Phase::ConfigApplied {
                (phased(s, Phase::Starting), SwitchAction::Launch)
            } else {
                refuse
            },
            SwitchEventView::Ticketed { ticket } => if p.phase == Phase::Starting
                && s.active is None {
                (ticketed(s, ticket), SwitchAction::Spawn)
            } else {
                refuse
            },
            SwitchEventView::Launched { process } => if p.phase == Phase::Starting
                && s.active is None {
                (launched(s, launch_of(p, process)), SwitchAction::Start)
            } else {
                refuse
            },
            SwitchEventView::Started => if p.phase == Phase::Starting && s.active is Some {
                (s, SwitchAction::Verify)
            } else {
                refuse
            },
            SwitchEventView::Verified { now } => if p.phase == Phase::Starting && s.active is Some
                && now <= u64::MAX - 20 {
                (trialled(s, now), SwitchAction::Trial)
            } else {
                refuse
            },
            SwitchEventView::Failed => refuse,
        },
    }
}

/// Takes one step of the switch in progress.
pub fn advance(s: &mut State, event: SwitchEvent) -> (a: SwitchAction)
    ensures
        (final(s)@, a) == switch_step(old(s)@, event@),
{
    let phase = match &s.pending {
        None => return SwitchAction::Revert,
        Some(p) => p.phase,
    };
    let idle = s.active.is_none();
    match event {
        SwitchEvent::Begun => match phase {
            Phase::Prepared => {
                let _ = set_phase(s, Phase::Protected);
                SwitchAction::PublishGates
            },
            _ => SwitchAction::Revert,
        },
        SwitchEvent::GatesPublished => match phase {
            Phase::Protected => {
                let _ = stop_commands(s);
                SwitchAction::StopPrevious
            },
            _ => SwitchAction::Revert,
        },
        SwitchEvent::PreviousStopped => match phase {
            Phase::Protected => {
                let _ = clear_active(s);
                let _ = set_phase(s, Phase::Stopped);
                SwitchAction::CheckHandoff
            },
            _ => SwitchAction::Revert,
        },
        SwitchEvent::HandoffChecked { still_running } => match phase {
            Phase::Stopped => if still_running {
                SwitchAction::Revert
            } else {
                SwitchAction::WriteConfig
            },
            _ => SwitchAction::Revert,
        },
        SwitchEvent::ConfigWritten => match phase {
            Phase::Stopped => {
                apply_pending(s);
                let _ = set_phase(s, Phase::ConfigApplied);
                SwitchAction::ValidateConfig
            },
            _ => SwitchAction::Revert,
        },
        SwitchEvent::ConfigValidated => match phase {
            Phase::ConfigApplied => {
                let _ = set_phase(s, Phase::Starting);
                SwitchAction::Launch
            },
            _ => SwitchAction::Revert,
        },
        SwitchEvent::Ticketed { ticket } => match phase {
            Phase::Starting => if idle {
                record_ticket(s, ticket);
                SwitchAction::Spawn
            } else {
                SwitchAction::Revert
            },
            _ => SwitchAction::Revert,
        },
        SwitchEvent::Launched { process } => match phase {
            Phase::Starting => if idle {
                match pending_launch(s, process) {
                    Some(r) => {
                        record_launch(s, r);
                        SwitchAction::Start
                    },
                    None => SwitchAction::Revert,
                }
            } else {
                SwitchAction::Revert
            },
            _ => SwitchAction::Revert,
        },
        SwitchEvent::Started => match phase {
            Phase::Starting => if idle {
                SwitchAction::Revert
            } else {
                SwitchAction::Verify
            },
            _ => SwitchAction::Revert,
        },
        SwitchEvent::Verified { now } => match phase {
            Phase::Starting => if idle || now > u64::MAX - 20 {
                SwitchAction::Revert
            } else {
                start_trial(s, now);
                SwitchAction::Trial
            },
            _ => SwitchAction::Revert,
        },
        SwitchEvent::Failed => SwitchAction::Revert,
    }
}

// ------------------------------------------------------------ keeping the trial

/// Whether a trial passes every commit check that runs no program: the
/// checks that do (compositor validation, readiness, inactive shells) are
/// due exactly then, and decide the commit.
pub fn commit_checks_due(s: &State, now: u64, active_healthy: bool, disk: &Disk) -> (r: bool)
    ensures
        r == (keep_refusal(s@, now, active_healthy, disk@, Ok(())) is None),
{
    match &s.pending {
        None => false,
        Some(p) => {
            if p.phase != Phase::Trial || now >= p.deadline {
                return false;
            }
            if !(s.active.is_some() && active_healthy) {
                return false;
            }
            check_config(s, disk).is_ok()
        },
    }
}

// ------------------------------------------------------------ the journaled changes

/// The journaled changes that write the configuration target, in journal order.
pub open spec fn config_part(cs: Seq<ChangeView>, target: Option<Seq<char>>) -> Seq<ChangeView>
    decreases cs.len(),
{
    if cs.len() == 0 {
        seq![]
    } else {
        let rest = config_part(cs.drop_last(), target);
        if target == Some(cs.last().path) {
            rest.push(cs.last())
        } else {
            rest
        }
    }
}

/// The other journaled changes (the gates), in journal order.
pub open spec fn protection_part(cs: Seq<ChangeView>, target: Option<Seq<char>>) -> Seq<
    ChangeView,
>
    decreases cs.len(),
{
    if cs.len() == 0 {
        seq![]
    } else {
        let rest = protection_part(cs.drop_last(), target);
        if target == Some(cs.last().path) {
            rest
        } else {
            rest.push(cs.last())
        }
    }
}

/// Splits the journaled changes into those that write the configuration
/// target `target` and the others; gates are published before any process
/// stops, the configuration is written after.
pub fn split_changes(changes: &Vec<Change>, target: &Option<String>) -> (r: (
    Vec<Change>,
    Vec<Change>,
))
    ensures
        r.0.deep_view() == config_part(changes.deep_view(), target.deep_view()),
        r.1.deep_view() == protection_part(changes.deep_view(), target.deep_view()),
{
    let mut config: Vec<Change> = Vec::new();
    let mut gates: Vec<Change> = Vec::new();
    let mut i: usize = 0;
    while i < changes.len()
        invariant
            i <= changes.len(),
            config.deep_view() == config_part(changes.deep_view().take(i as int), target.deep_view()),
            gates.deep_view() == protection_part(changes.deep_view().take(i as int), target.deep_view()),
        decreases changes.len() - i,
    {
        let ghost before = changes.deep_view().take(i as int);
        let ghost after = changes.deep_view().take(i + 1);
        assert(after.drop_last() =~= before);
        assert(after.last() == changes[i as int]@);
        let ch = changes[i].duplicate();
        let hits = match target {
            Some(t) => same(t.as_str(), ch.path.as_str()),
            None => false,
        };
        if hits {
            config.push(ch);
        } else {
            gates.push(ch);
        }
        i = i + 1;
    }
    assert(changes.deep_view().take(changes.len() as int) =~= changes.deep_view());
    (config, gates)
}

/// Whether no discovered shell still runs: every running instance had to
/// be covered by the declared handoff.
pub open spec fn handoff_clear(observed: Seq<CandidateView>) -> bool {
    forall|i: int| 0 <= i < observed.len() ==> #[trigger] observed[i].running_pids.len() == 0
}

/// Whether the discovered shells, inspected after the previous instance
/// stopped, all stand still.
pub fn handoff_complete(observed: &Vec<Candidate>) -> (r: bool)
    ensures
        r == handoff_clear(observed.deep_view()),
{
    let mut i: usize = 0;
    while i < observed.len()
        invariant
            i <= observed.len(),
            forall|k: int| 0 <= k < i ==> #[trigger] observed.deep_view()[k].running_pids.len() == 0,
        decreases observed.len() - i,
    {
        if observed[i].running_pids.len() > 0 {
            assert(observed.deep_view()[i as int].running_pids.len() > 0);
            return false;
        }
        i = i + 1;
    }
    true
}

} // verus!

verus! {

// ------------------------------------------------------------ laws

/// Driven by the reports of a switch that goes well, the steps ask for the
/// outside work in the transaction's order (gates, stopping the previous
/// instance, the handoff check, the configuration, its validation, the
/// launch, its release, its verification) and end in the state `switched`
/// describes, with the trial open. Every state on the way keeps the journal
/// of the state before the switch, so a rollback from any of them restores it.
pub proof fn law_switch_steps_in_order(
    s0: StateView,
    c: CandidateView,
    token: Seq<char>,
    begun_at: u64,
    changes: Seq<ChangeView>,
    next_protections: Seq<OwnedFileView>,
    next_config: Option<ConfigView>,
    ticket: Option<Seq<char>>,
    process: Option<IdentityView>,
    now: u64,
)
    requires
        now <= u64::MAX - 20,
    ensures
        ({
            let t1 = begun(with_target(s0, c), c, token, begun_at, changes, next_protections, next_config);
            let r1 = switch_step(t1, SwitchEventView::Begun);
            let r2 = switch_step(r1.0, SwitchEventView::GatesPublished);
            let r3 = switch_step(r2.0, SwitchEventView::PreviousStopped);
            let r4 = switch_step(r3.0, SwitchEventView::HandoffChecked { still_running: false });
            let r5 = switch_step(r4.0, SwitchEventView::ConfigWritten);
            let r6 = switch_step(r5.0, SwitchEventView::ConfigValidated);
            let r7 = match ticket {
                Some(k) => switch_step(r6.0, SwitchEventView::Ticketed { ticket: k }),
                None => (r6.0, SwitchAction::Spawn),
            };
            let r8 = switch_step(r7.0, SwitchEventView::Launched { process });
            let r9 = switch_step(r8.0, SwitchEventView::Started);
            let r10 = switch_step(r9.0, SwitchEventView::Verified { now });
            &&& r1.1 == SwitchAction::PublishGates
            &&& r2.1 == SwitchAction::StopPrevious
            &&& r3.1 == SwitchAction::CheckHandoff
            &&& r4.1 == SwitchAction::WriteConfig
            &&& r5.1 == SwitchAction::ValidateConfig
            &&& r6.1 == SwitchAction::Launch
            &&& r7.1 == SwitchAction::Spawn
            &&& r8.1 == SwitchAction::Start
            &&& r9.1 == SwitchAction::Verify
            &&& r10.1 == SwitchAction::Trial
            &&& r10.0 == switched(
                s0,
                c,
                token,
                begun_at,
                changes,
                next_protections,
                next_config,
                ticket,
                process,
                now,
            )
            &&& journal_of(t1, s0) && journal_of(r1.0, s0) && journal_of(r2.0, s0)
            &&& journal_of(r3.0, s0) && journal_of(r4.0, s0) && journal_of(r5.0, s0)
            &&& journal_of(r6.0, s0) && journal_of(r7.0, s0) && journal_of(r8.0, s0)
            &&& journal_of(r9.0, s0) && journal_of(r10.0, s0)
        }),
{
}

/// Whenever a step asks for a rollback, it leaves the state as it found it;
/// a reported failure always asks for one, and so does a shell still running
/// after the handoff.
pub proof fn law_refusal_changes_nothing(s: StateView, e: SwitchEventView)
    ensures
        switch_step(s, e).1 == SwitchAction::Revert ==> switch_step(s, e).0 == s,
        switch_step(s, SwitchEventView::Failed) == (s, SwitchAction::Revert),
        switch_step(s, SwitchEventView::HandoffChecked { still_running: true }) == (
            s,
            SwitchAction::Revert,
        ),
{
}

/// No step touches the journal of the state before the switch, so rolling
/// back after any step restores that state's configuration and protections,
/// and its selection unless that shell is held; holds are kept.
pub proof fn law_step_keeps_journal(s: StateView, e: SwitchEventView, s0: StateView)
    requires
        journal_of(s, s0),
    ensures
        journal_of(switch_step(s, e).0, s0),
        ({
            let t = switch_step(s, e).0;
            &&& reverted(t).config == s0.config
            &&& reverted(t).protections == s0.protections
            &&& reverted(t).disabled == s.disabled
            &&& reverted(t).active is None
            &&& (s0.selected matches Some(id) ==> (s.disabled.contains(id) ==> reverted(t).selected
                is None) && (!s.disabled.contains(id) ==> reverted(t).selected == Some(id)))
            &&& (s0.selected is None ==> reverted(t).selected is None)
        }),
{
    law_rollback_restores(switch_step(s, e).0, s0);
}

/// The two parts of the journaled changes divide it: each change lands in
/// exactly one of them, the configuration part holding exactly those that
/// write the target.
pub proof fn law_split_divides(cs: Seq<ChangeView>, target: Option<Seq<char>>)
    ensures
        config_part(cs, target).len() + protection_part(cs, target).len() == cs.len(),
        forall|i: int|
            0 <= i < config_part(cs, target).len() ==> target == Some(
                #[trigger] config_part(cs, target)[i].path,
            ),
        forall|i: int|
            0 <= i < protection_part(cs, target).len() ==> target != Some(
                #[trigger] protection_part(cs, target)[i].path,
            ),
    decreases cs.len(),
{
    if cs.len() > 0 {
        law_split_divides(cs.drop_last(), target);
    }
}

} // verus!
