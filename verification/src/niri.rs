//! Reading Niri's event stream for a fresh `ConfigLoaded` acknowledgement.
//! The stream is read in chunks by the caller; complete lines are decided here.
use crate::text::{index_of, lemma_index_of};
use vstd::prelude::*;

verus! {

/// What the `ConfigLoaded.failed` member of one JSON event line holds: a
/// boolean, nothing when the line is another event, or the parse error.
pub uninterp spec fn config_loaded_member(line: Seq<u8>) -> Result<Option<bool>, Seq<char>>;

/// `serde_json::from_slice::<serde_json::Value>` on one event line, then the
/// `ConfigLoaded`/`failed` member read as a boolean. The result, or the parse
/// error's text, is named `config_loaded_member` of the line.
#[verifier::external_body]
fn config_loaded_of(line: &[u8]) -> (r: Result<Option<bool>, String>)
    ensures
        match r {
            Ok(x) => config_loaded_member(line@) == Ok::<Option<bool>, Seq<char>>(x),
            Err(e) => config_loaded_member(line@) == Err::<Option<bool>, Seq<char>>(e@),
        },
{
    match serde_json::from_slice::<serde_json::Value>(line) {
        Ok(v) => Ok(v.get("ConfigLoaded").and_then(|e| e.get("failed")).and_then(|f| f.as_bool())),
        Err(e) => Err(e.to_string()),
    }
}

/// Consumes complete lines of `pending` until one is a `ConfigLoaded` event:
/// what is left, and whether the load succeeded (nothing yet when no complete
/// line was such an event).
pub open spec fn drain_events(pending: Seq<u8>) -> (Seq<u8>, Result<Option<bool>, Seq<char>>)
    decreases pending.len(),
{
    let i = index_of(pending, 10u8);
    if i < 0 {
        (pending, Ok(None))
    } else {
        proof {
            lemma_index_of(pending, 10u8);
        }
        let line = pending.take(i + 1);
        let rest = pending.skip(i + 1);
        match config_loaded_member(line) {
            Err(e) => (rest, Err(e)),
            Ok(Some(failed)) => (rest, Ok(Some(!failed))),
            Ok(None) => drain_events(rest),
        }
    }
}

/// Looks for a `ConfigLoaded` event among the complete lines received so far.
pub fn config_loaded(pending: &mut Vec<u8>) -> (r: Result<Option<bool>, String>)
    ensures
        (final(pending)@, match r {
            Ok(x) => Ok(x),
            Err(e) => Err(e@),
        }) == drain_events(old(pending)@),
    decreases old(pending)@.len(),
{
    let mut i: usize = 0;
    while i < pending.len() && pending[i] != 10u8
        invariant
            i <= pending.len(),
            forall|j: int| 0 <= j < i ==> pending@[j] != 10u8,
        decreases pending.len() - i,
    {
        i += 1;
    }
    proof {
        lemma_index_of(pending@, 10u8);
    }
    if i == pending.len() {
        assert(index_of(pending@, 10u8) < 0);
        return Ok(None);
    }
    assert(index_of(pending@, 10u8) == i);
    let ghost whole = pending@;
    let mut line: Vec<u8> = Vec::new();
    let mut rest: Vec<u8> = Vec::new();
    let mut k: usize = 0;
    while k < pending.len()
        invariant
            k <= pending.len(),
            i < pending.len(),
            pending@ == whole,
            k <= i + 1 ==> line@ == whole.take(k as int) && rest@.len() == 0,
            k > i + 1 ==> line@ == whole.take(i + 1) && rest@ == whole.subrange(i + 1, k as int),
        decreases pending.len() - k,
    {
        if k <= i {
            line.push(pending[k]);
            assert(line@ =~= whole.take(k + 1));
        } else {
            rest.push(pending[k]);
            assert(rest@ =~= whole.subrange(i + 1, k + 1));
        }
        k += 1;
    }
    assert(rest@ =~= whole.skip(i + 1));
    *pending = rest;
    match config_loaded_of(line.as_slice()) {
        Err(e) => Err(e),
        Ok(Some(failed)) => Ok(Some(!failed)),
        Ok(None) => config_loaded(pending),
    }
}

pub open spec fn event_bound() -> nat {
    2 * 1024 * 1024
}

pub open spec fn overflow_message() -> Seq<char> {
    "Niri event buffer exceeded bound"@
}

/// Takes a chunk read from the stream; refuses once the unconsumed bytes
/// reach two mebibytes.
pub fn receive(pending: &mut Vec<u8>, chunk: &[u8]) -> (r: Result<(), String>)
    ensures
        final(pending)@ == old(pending)@ + chunk@,
        r is Ok <==> final(pending)@.len() < event_bound(),
        r matches Err(e) ==> e@ == overflow_message(),
{
    let ghost start = pending@;
    let mut i: usize = 0;
    while i < chunk.len()
        invariant
            i <= chunk.len(),
            pending@ == start + chunk@.take(i as int),
        decreases chunk.len() - i,
    {
        pending.push(chunk[i]);
        assert(chunk@.take(i + 1) =~= chunk@.take(i as int).push(chunk@[i as int]));
        assert(pending@ =~= start + chunk@.take(i + 1));
        i += 1;
    }
    assert(chunk@.take(i as int) =~= chunk@);
    if pending.len() < 2 * 1024 * 1024 {
        Ok(())
    } else {
        proof {
            reveal_strlit("Niri event buffer exceeded bound");
        }
        Err("Niri event buffer exceeded bound".to_string())
    }
}

} // verus!
