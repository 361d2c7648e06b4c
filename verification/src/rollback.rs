//! The order of a rollback: from the journaled state and the outcome of the
//! last piece of outside work, the next state and the next piece of work.
//! Stopping comes first, then the file changes are undone and the journal's
//! configuration, protections and selection come back; the previous shell is
//! relaunched (through the launch steps of `handoff`) exactly when it is that
//! selection, and the journal closes once the restored ownership is verified.
use crate::control::{
    finish_revert, journal_of, launch_of, phased, relaunch_of, relaunching, restored_message,
    reverted, revert, set_phase, start_relaunch, clear_active, Phase, RunningView, State,
    StateView,
};
use crate::dup::Duplicate;
use crate::handoff::{switch_step, SwitchAction, SwitchEventView};
use crate::maintenance::stop_commands;
use crate::model::{Candidate, CandidateView};
use crate::process::IdentityView;
use crate::text::same;
use vstd::prelude::*;

verus! {

/// What the caller reports after the last rollback action.
pub enum RollbackEvent {
    /// A rollback of the open transaction is asked for.
    Requested,
    /// The launch ticket's supervisor, the instance and the supervised commands were stopped.
    Stopped,
    /// The journaled file changes were undone.
    FilesRestored,
    /// Services were reloaded, and the configuration where it reloads live.
    Reloaded,
    /// A fresh lease for relaunching the previous shell.
    Leased { lease: String },
    /// The previous shell was launched and is ready.
    Relaunched,
    /// The restored ownership was verified.
    ConfigChecked,
    /// The last action failed.
    Failed,
}

pub enum RollbackEventView {
    Requested,
    Stopped,
    FilesRestored,
    Reloaded,
    Leased { lease: Seq<char> },
    Relaunched,
    ConfigChecked,
    Failed,
}

impl View for RollbackEvent {
    type V = RollbackEventView;

    open spec fn view(&self) -> RollbackEventView {
        match self {
            RollbackEvent::Requested => RollbackEventView::Requested,
            RollbackEvent::Stopped => RollbackEventView::Stopped,
            RollbackEvent::FilesRestored => RollbackEventView::FilesRestored,
            RollbackEvent::Reloaded => RollbackEventView::Reloaded,
            RollbackEvent::Leased { lease } => RollbackEventView::Leased { lease: lease@ },
            RollbackEvent::Relaunched => RollbackEventView::Relaunched,
            RollbackEvent::ConfigChecked => RollbackEventView::ConfigChecked,
            RollbackEvent::Failed => RollbackEventView::Failed,
        }
    }
}

/// The next piece of rollback work.
#[derive(Debug, Clone, Copy, PartialEq, Eq, Structural)]
pub enum RollbackAction {
    /// Stop the launch ticket's supervisor, the instance and the supervised commands.
    StopAll,
    /// Undo the journaled file changes.
    RestoreFiles,
    /// Reload services, and the configuration where it reloads live.
    Reload,
    /// Draw a fresh lease for the previous shell.
    Lease,
    /// Launch the previous shell under the lease and wait until it is ready.
    Relaunch,
    /// Verify the restored ownership.
    CheckConfig,
    /// The rollback is complete: save and report it.
    Done,
    /// Stop here: nothing to roll back, the last action failed, or the report
    /// does not fit; the journal stays for `recover`.
    Abort,
}

/// The state once a rollback completes.
pub open spec fn finished(s: StateView) -> StateView {
    StateView { pending: None, last_event: restored_message(), ..s }
}

/// One step of a rollback: the state it leaves and the action it asks for.
pub open spec fn rollback_step(s: StateView, e: RollbackEventView) -> (StateView, RollbackAction) {
    let refuse = (s, RollbackAction::Abort);
    match s.pending {
        None => refuse,
        Some(p) => match e {
            RollbackEventView::Requested => (phased(s, Phase::Restoring), RollbackAction::StopAll),
            RollbackEventView::Stopped => if p.phase == Phase::Restoring {
                (StateView { active: None, commands: seq![], ..s }, RollbackAction::RestoreFiles)
            } else {
                refuse
            },
            RollbackEventView::FilesRestored => if p.phase == Phase::Restoring && s.active is None {
                (reverted(s), RollbackAction::Reload)
            } else {
                refuse
            },
            RollbackEventView::Reloaded => if p.phase == Phase::Restoring {
                if relaunch_of(s) is Some {
                    (s, RollbackAction::Lease)
                } else {
                    (s, RollbackAction::CheckConfig)
                }
            } else {
                refuse
            },
            RollbackEventView::Leased { lease } => if p.phase == Phase::Restoring && relaunch_of(
                s,
            ) is Some {
                (relaunching(s, relaunch_of(s)->0, lease), RollbackAction::Relaunch)
            } else {
                refuse
            },
            RollbackEventView::Relaunched => if p.phase == Phase::Starting && s.active is Some {
                (s, RollbackAction::CheckConfig)
            } else {
                refuse
            },
            RollbackEventView::ConfigChecked => if (p.phase == Phase::Restoring && relaunch_of(s)
                is None) || (p.phase == Phase::Starting && s.active is Some) {
                (finished(s), RollbackAction::Done)
            } else {
                refuse
            },
            RollbackEventView::Failed => refuse,
        },
    }
}

/// The shell a rollback of `s` relaunches, if any.
pub fn relaunch_target(s: &State) -> (r: Option<Candidate>)
    ensures
        s@.pending is Some ==> r.deep_view() == relaunch_of(s@),
        s@.pending is None ==> r is None,
{
    match &s.pending {
        None => None,
        Some(p) => {
            let selected = match &p.previous_selected {
                Some(id) => if s.is_held(id.as_str()) {
                    None
                } else {
                    Some(id)
                },
                None => None,
            };
            match &p.previous {
                Some(prev) => {
                    let same_id = match selected {
                        Some(id) => same(id.as_str(), prev.candidate.id.as_str()),
                        None => false,
                    };
                    if same_id {
                        Some(prev.candidate.duplicate())
                    } else {
                        None
                    }
                },
                None => None,
            }
        },
    }
}

/// Takes one step of the rollback in progress.
pub fn roll_back(s: &mut State, event: RollbackEvent) -> (a: RollbackAction)
    ensures
        (final(s)@, a) == rollback_step(old(s)@, event@),
{
    let phase = match &s.pending {
        None => return RollbackAction::Abort,
        Some(p) => p.phase,
    };
    let idle = s.active.is_none();
    match event {
        RollbackEvent::Requested => {
            let _ = set_phase(s, Phase::Restoring);
            RollbackAction::StopAll
        },
        RollbackEvent::Stopped => match phase {
            Phase::Restoring => {
                let _ = clear_active(s);
                let _ = stop_commands(s);
                RollbackAction::RestoreFiles
            },
            _ => RollbackAction::Abort,
        },
        RollbackEvent::FilesRestored => match phase {
            Phase::Restoring => if idle {
                let _ = revert(s);
                RollbackAction::Reload
            } else {
                RollbackAction::Abort
            },
            _ => RollbackAction::Abort,
        },
        RollbackEvent::Reloaded => match phase {
            Phase::Restoring => match relaunch_target(s) {
                Some(_) => RollbackAction::Lease,
                None => RollbackAction::CheckConfig,
            },
            _ => RollbackAction::Abort,
        },
        RollbackEvent::Leased { lease } => match phase {
            Phase::Restoring => match relaunch_target(s) {
                Some(c) => {
                    start_relaunch(s, c, lease);
                    RollbackAction::Relaunch
                },
                None => RollbackAction::Abort,
            },
            _ => RollbackAction::Abort,
        },
        RollbackEvent::Relaunched => match phase {
            Phase::Starting => if idle {
                RollbackAction::Abort
            } else {
                RollbackAction::CheckConfig
            },
            _ => RollbackAction::Abort,
        },
        RollbackEvent::ConfigChecked => {
            let ready = match phase {
                Phase::Restoring => relaunch_target(s).is_none(),
                Phase::Starting => !idle,
                _ => false,
            };
            if ready {
                finish_revert(s);
                RollbackAction::Done
            } else {
                RollbackAction::Abort
            }
        },
        RollbackEvent::Failed => RollbackAction::Abort,
    }
}

} // verus!

verus! {

// ------------------------------------------------------------ laws

/// Driven by the reports of a rollback that goes well, from any state that
/// journals `s0`: everything is stopped first, then the files are undone,
/// which brings back `s0`'s configuration and protections and its selection
/// unless that shell is now held; holds are kept. When the previous instance
/// is that selection it is relaunched under a fresh lease (through the launch
/// steps of a switch) and becomes the active instance; otherwise nothing
/// runs. The journal closes last.
pub proof fn law_rollback_steps_in_order(
    t: StateView,
    s0: StateView,
    lease: Seq<char>,
    ticket: Option<Seq<char>>,
    process: Option<IdentityView>,
)
    requires
        journal_of(t, s0),
    ensures
        ({
            let r1 = rollback_step(t, RollbackEventView::Requested);
            let r2 = rollback_step(r1.0, RollbackEventView::Stopped);
            let r3 = rollback_step(r2.0, RollbackEventView::FilesRestored);
            let r4 = rollback_step(r3.0, RollbackEventView::Reloaded);
            &&& r1.1 == RollbackAction::StopAll
            &&& r2.1 == RollbackAction::RestoreFiles
            &&& r3.1 == RollbackAction::Reload
            &&& r3.0.config == s0.config
            &&& r3.0.protections == s0.protections
            &&& r3.0.disabled == t.disabled
            &&& r3.0.active is None
            &&& r3.0.commands.len() == 0
            &&& (s0.selected matches Some(id) ==> (t.disabled.contains(id) ==> r3.0.selected is None)
                && (!t.disabled.contains(id) ==> r3.0.selected == Some(id)))
            &&& (s0.selected is None ==> r3.0.selected is None)
            &&& (relaunch_of(t) is None ==> {
                let r5 = rollback_step(r4.0, RollbackEventView::ConfigChecked);
                &&& r4.1 == RollbackAction::CheckConfig
                &&& r5.1 == RollbackAction::Done
                &&& r5.0 == finished(r3.0)
                &&& r5.0.pending is None
                &&& r5.0.active is None
            })
            &&& (relaunch_of(t) matches Some(prev) ==> {
                let r5 = rollback_step(r4.0, RollbackEventView::Leased { lease });
                let l1 = match ticket {
                    Some(k) => switch_step(r5.0, SwitchEventView::Ticketed { ticket: k }),
                    None => (r5.0, SwitchAction::Spawn),
                };
                let l2 = switch_step(l1.0, SwitchEventView::Launched { process });
                let l3 = switch_step(l2.0, SwitchEventView::Started);
                let r6 = rollback_step(l3.0, RollbackEventView::Relaunched);
                let r7 = rollback_step(r6.0, RollbackEventView::ConfigChecked);
                &&& r4.1 == RollbackAction::Lease
                &&& r5.1 == RollbackAction::Relaunch
                &&& l1.1 == SwitchAction::Spawn
                &&& l2.1 == SwitchAction::Start
                &&& l3.1 == SwitchAction::Verify
                &&& r6.1 == RollbackAction::CheckConfig
                &&& r7.1 == RollbackAction::Done
                &&& r7.0.pending is None
                &&& r7.0.active == Some(
                    RunningView { candidate: prev, process, owned_group: process is Some, lease },
                )
                &&& prev == s0.active->0.candidate
                &&& r7.0.selected == Some(prev.id)
                &&& r7.0.config == s0.config
                &&& r7.0.protections == s0.protections
                &&& r7.0.disabled == t.disabled
            })
        }),
{
}

/// Whenever a rollback step stops, it leaves the state as it found it; a
/// reported failure always stops it.
pub proof fn law_rollback_abort_changes_nothing(s: StateView, e: RollbackEventView)
    ensures
        rollback_step(s, e).1 == RollbackAction::Abort ==> rollback_step(s, e).0 == s,
        rollback_step(s, RollbackEventView::Failed) == (s, RollbackAction::Abort),
{
}

} // verus!
