//! Process identities and the rules that match processes to declared shells.
use crate::dup::{duplicate_vec, Duplicate};
use crate::text::same;
use vstd::prelude::*;

verus! {

/// A process instance: PID plus its start time and the boot it belongs to, so
/// that a recycled PID is never mistaken for the process it once named.
#[derive(Debug, Clone)]
pub struct Identity {
    pub pid: u32,
    pub start: u64,
    pub boot: String,
}

pub struct IdentityView {
    pub pid: u32,
    pub start: u64,
    pub boot: Seq<char>,
}

impl View for Identity {
    type V = IdentityView;

    open spec fn view(&self) -> IdentityView {
        IdentityView { pid: self.pid, start: self.start, boot: self.boot@ }
    }
}

impl DeepView for Identity {
    type V = IdentityView;

    open spec fn deep_view(&self) -> IdentityView {
        self@
    }
}

impl Duplicate for Identity {
    fn duplicate(&self) -> (r: Self) {
        Identity { pid: self.pid, start: self.start, boot: self.boot.clone() }
    }
}

/// What `/proc` shows of one process owned by this user.
#[derive(Debug)]
pub struct Process {
    pub identity: Identity,
    pub argv: Vec<String>,
    pub cwd: String,
    pub group: u32,
    pub state: char,
}

pub struct ProcessView {
    pub identity: IdentityView,
    pub argv: Seq<Seq<char>>,
    pub cwd: Seq<char>,
    pub group: u32,
    pub state: char,
}

impl View for Process {
    type V = ProcessView;

    open spec fn view(&self) -> ProcessView {
        ProcessView {
            identity: self.identity@,
            argv: self.argv.deep_view(),
            cwd: self.cwd@,
            group: self.group,
            state: self.state,
        }
    }
}

impl DeepView for Process {
    type V = ProcessView;

    open spec fn deep_view(&self) -> ProcessView {
        self@
    }
}

impl Duplicate for Process {
    fn duplicate(&self) -> (r: Self) {
        Process {
            identity: self.identity.duplicate(),
            argv: duplicate_vec(&self.argv),
            cwd: self.cwd.clone(),
            group: self.group,
            state: self.state,
        }
    }
}

/// The recorded process still runs: the PID shows the same start time and
/// boot, and is neither a zombie nor dead.
pub open spec fn is_alive(id: IdentityView, now: Option<ProcessView>) -> bool {
    match now {
        None => false,
        Some(p) => p.identity.start == id.start && p.identity.boot == id.boot && p.state != 'Z'
            && p.state != 'X',
    }
}

/// Is the process recorded as `id` still the same live process? `now` is what
/// inspecting its PID shows at present.
pub fn alive(id: &Identity, now: Option<&Process>) -> (r: bool)
    ensures
        r == is_alive(
            id@,
            match now {
                None => None,
                Some(p) => Some(p@),
            },
        ),
{
    match now {
        None => false,
        Some(p) => p.identity.start == id.start && same(p.identity.boot.as_str(), id.boot.as_str())
            && p.state != 'Z' && p.state != 'X',
    }
}

} // verus!
