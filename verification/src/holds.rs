//! Releasing an emergency hold, together with the guard every mutation
//! passes first (no file operation may have been left interrupted) and the
//! state an interrupted file operation is recovered to.
use crate::control::{well_formed, State, StateView};
use crate::ownership::{Config, ConfigView, OwnedFile, OwnedFileView};
use crate::lifecycle::{no_hold_message, release, release_pending_message, released_message};
use crate::text::{index_of, lemma_index_of};
use vstd::prelude::*;

verus! {

pub open spec fn interrupted_message() -> Seq<char> {
    "Interrupted file operation; run recover --yes first"@
}

/// A mutation starts only when no file operation was left interrupted;
/// `files_pending` tells whether the file journal is outstanding.
pub fn mutation_ready(files_pending: bool) -> (r: Result<(), String>)
    ensures
        match r {
            Ok(()) => !files_pending,
            Err(e) => files_pending && e@ == interrupted_message(),
        },
{
    if files_pending {
        proof {
            reveal_strlit("Interrupted file operation; run recover --yes first");
        }
        Err("Interrupted file operation; run recover --yes first".to_string())
    } else {
        Ok(())
    }
}

/// The state once an interrupted file operation is undone: the protections
/// its journal recorded as previous, and its previous configuration where
/// the journal recorded one (`None` when it recorded none).
pub open spec fn files_recovered(
    s: StateView,
    protections: Seq<OwnedFileView>,
    config: Option<Option<ConfigView>>,
) -> StateView {
    StateView {
        protections,
        config: match config {
            Some(c) => c,
            None => s.config,
        },
        ..s
    }
}

/// Puts back what the journal of an interrupted file operation recorded,
/// after its file changes were restored.
pub fn recover_journaled(
    s: &mut State,
    protections: Vec<OwnedFile>,
    config: Option<Option<Config>>,
)
    ensures
        final(s)@ == files_recovered(old(s)@, protections.deep_view(), config.deep_view()),
{
    s.protections = protections;
    if let Some(c) = config {
        s.config = c;
    }
}

/// Why the hold on `id` cannot be released, if it cannot.
pub open spec fn release_refusal(s: StateView, id: Seq<char>, files_pending: bool) -> Option<
    Seq<char>,
> {
    if files_pending {
        Some(interrupted_message())
    } else if s.pending is Some {
        Some(release_pending_message())
    } else if !s.disabled.contains(id) {
        Some(no_hold_message())
    } else {
        None
    }
}

/// The state once the hold on `id` is released.
pub open spec fn released(s: StateView, id: Seq<char>) -> StateView {
    StateView {
        disabled: s.disabled.remove(index_of(s.disabled, id)),
        last_event: released_message(id),
        ..s
    }
}

/// Releases the hold on `id` unless a file operation was interrupted, a
/// transaction is open, or there is no such hold.
pub fn release_hold(s: &mut State, id: &str, files_pending: bool) -> (r: Result<(), String>)
    requires
        well_formed(old(s)@),
    ensures
        well_formed(final(s)@),
        match release_refusal(old(s)@, id@, files_pending) {
            None => r is Ok && final(s)@ == released(old(s)@, id@),
            Some(m) => (r matches Err(e) && e@ == m) && final(s)@ == old(s)@,
        },
{
    mutation_ready(files_pending)?;
    release(s, id)
}

/// A release succeeds exactly when no file operation was interrupted, no
/// transaction is open and `id` is held; it then clears that hold and no
/// other, and selects, starts, stops or registers nothing.
pub proof fn law_release_clears_only_the_hold(s: StateView, id: Seq<char>, files_pending: bool)
    requires
        well_formed(s),
    ensures
        release_refusal(s, id, files_pending) is None <==> (!files_pending && s.pending is None
            && s.disabled.contains(id)),
        release_refusal(s, id, files_pending) is None ==> ({
            let t = released(s, id);
            &&& !t.disabled.contains(id)
            &&& forall|x: Seq<char>| x != id ==> (t.disabled.contains(x) <==> s.disabled.contains(x))
            &&& t.selected == s.selected
            &&& t.active == s.active
            &&& t.installed == s.installed
            &&& t.pending == s.pending
            &&& t.config == s.config
            &&& t.protections == s.protections
            &&& t.commands == s.commands
        }),
{
    if release_refusal(s, id, files_pending) is None {
        let d = s.disabled;
        lemma_index_of(d, id);
        let k = index_of(d, id);
        let t = released(s, id);
        assert(0 <= k < d.len() && d[k] == id);
        assert forall|j: int| 0 <= j < t.disabled.len() implies t.disabled[j] != id by {
            let j0 = if j < k { j } else { j + 1 };
            assert(t.disabled[j] == d[j0]);
        }
        assert forall|x: Seq<char>| x != id implies (t.disabled.contains(x) <==> d.contains(x)) by {
            if d.contains(x) {
                let j = choose|j: int| 0 <= j < d.len() && d[j] == x;
                let j1 = if j < k { j } else { j - 1 };
                assert(t.disabled[j1] == x);
            }
            if t.disabled.contains(x) {
                let j = choose|j: int| 0 <= j < t.disabled.len() && t.disabled[j] == x;
                let j0 = if j < k { j } else { j + 1 };
                assert(d[j0] == x);
            }
        }
    }
}

} // verus!
