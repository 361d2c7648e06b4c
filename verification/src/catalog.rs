//! The candidate list that commands act on: a scan's findings with the
//! installed registrations taking precedence, and lookup by id or name.
use crate::discovery::chars_before;
use crate::dup::Duplicate;
use crate::model::{Candidate, CandidateView};
use crate::text::{chars_of, concat, debug_quoted, debug_str, same};
use vstd::prelude::*;

verus! {

/// The candidates whose id is not `id`, in order.
pub open spec fn without_id(cs: Seq<CandidateView>, id: Seq<char>) -> Seq<CandidateView>
    decreases cs.len(),
{
    if cs.len() == 0 {
        seq![]
    } else if cs.last().id == id {
        without_id(cs.drop_last(), id)
    } else {
        without_id(cs.drop_last(), id).push(cs.last())
    }
}

/// The scan's candidates without those whose id `c` has, then `c`.
pub open spec fn replace_by(cs: Seq<CandidateView>, c: CandidateView) -> Seq<CandidateView> {
    without_id(cs, c.id).push(c)
}

/// The scan's candidates with every installed registration replacing
/// whatever carries its id, in installation order.
pub open spec fn with_installed(cs: Seq<CandidateView>, inst: Seq<CandidateView>) -> Seq<CandidateView>
    decreases inst.len(),
{
    if inst.len() == 0 {
        cs
    } else {
        replace_by(with_installed(cs, inst.drop_last()), inst.last())
    }
}

/// Where a stable insertion by name puts `x` into `s`.
pub open spec fn name_pos(s: Seq<CandidateView>, x: CandidateView) -> int
    decreases s.len(),
{
    if s.len() == 0 {
        0
    } else {
        let k = name_pos(s.drop_last(), x);
        if k < s.len() - 1 {
            k
        } else if chars_before(x.name, s.last().name) {
            s.len() - 1
        } else {
            s.len() as int
        }
    }
}

proof fn lemma_name_pos(s: Seq<CandidateView>, x: CandidateView)
    ensures
        0 <= name_pos(s, x) <= s.len(),
        forall|j: int| 0 <= j < name_pos(s, x) ==> !chars_before(x.name, (#[trigger] s[j]).name),
        name_pos(s, x) < s.len() ==> chars_before(x.name, s[name_pos(s, x)].name),
    decreases s.len(),
{
    if s.len() > 0 {
        lemma_name_pos(s.drop_last(), x);
        assert forall|j: int| 0 <= j < name_pos(s, x) && j < s.len() - 1 implies s.drop_last()[j]
            == s[j] by {}
    }
}

/// The candidates ordered by name, equal names in their original order.
pub open spec fn by_name(cs: Seq<CandidateView>) -> Seq<CandidateView>
    decreases cs.len(),
{
    if cs.len() == 0 {
        seq![]
    } else {
        let t = by_name(cs.drop_last());
        t.insert(name_pos(t, cs.last()), cs.last())
    }
}

proof fn lemma_by_name_len(cs: Seq<CandidateView>)
    ensures
        by_name(cs).len() == cs.len(),
    decreases cs.len(),
{
    if cs.len() > 0 {
        lemma_by_name_len(cs.drop_last());
        lemma_name_pos(by_name(cs.drop_last()), cs.last());
    }
}

fn name_before(a: &Candidate, b: &Candidate) -> (r: bool)
    ensures
        r == chars_before(a@.name, b@.name),
{
    let x = chars_of(a.name.as_str());
    let y = chars_of(b.name.as_str());
    let mut i: usize = 0;
    assert(x@.skip(0) =~= x@);
    assert(y@.skip(0) =~= y@);
    while i < x.len() && i < y.len() && x[i] == y[i]
        invariant
            i <= x.len(),
            i <= y.len(),
            chars_before(x@, y@) == chars_before(x@.skip(i as int), y@.skip(i as int)),
        decreases x.len() - i,
    {
        assert(x@.skip(i as int).drop_first() =~= x@.skip(i + 1));
        assert(y@.skip(i as int).drop_first() =~= y@.skip(i + 1));
        i += 1;
    }
    if i == x.len() {
        return i < y.len();
    }
    if i == y.len() {
        return false;
    }
    (x[i] as u32) < (y[i] as u32)
}

/// The scan's candidates merged with the installed registrations, ordered by name.
pub fn merged(cs: &Vec<Candidate>, inst: &Vec<Candidate>) -> (r: Vec<Candidate>)
    ensures
        r.deep_view() == by_name(with_installed(cs.deep_view(), inst.deep_view())),
{
    let mut all: Vec<Candidate> = Vec::new();
    let mut i: usize = 0;
    while i < cs.len()
        invariant
            i <= cs.len(),
            all.deep_view() == cs.deep_view().take(i as int),
        decreases cs.len() - i,
    {
        let ghost b = all.deep_view();
        all.push(cs[i].duplicate());
        assert(all.deep_view() =~= b.push(cs@[i as int]@));
        assert(cs.deep_view().take(i + 1) =~= cs.deep_view().take(i as int).push(cs@[i as int]@));
        i += 1;
    }
    assert(cs.deep_view().take(i as int) =~= cs.deep_view());
    let mut k: usize = 0;
    assert(inst.deep_view().take(0) =~= Seq::<CandidateView>::empty());
    while k < inst.len()
        invariant
            k <= inst.len(),
            all.deep_view() == with_installed(cs.deep_view(), inst.deep_view().take(k as int)),
        decreases inst.len() - k,
    {
        let c = &inst[k];
        let ghost t = inst.deep_view().take(k + 1);
        assert(t.drop_last() =~= inst.deep_view().take(k as int));
        assert(t.last() == c@);
        let ghost before = all.deep_view();
        let mut kept: Vec<Candidate> = Vec::new();
        let mut j: usize = 0;
        while j < all.len()
            invariant
                j <= all.len(),
                all.deep_view() == before,
                kept.deep_view() == without_id(before.take(j as int), c@.id),
            decreases all.len() - j,
        {
            let ghost w = before.take(j + 1);
            assert(w.drop_last() =~= before.take(j as int));
            assert(w.last() == all@[j as int]@);
            if !same(all[j].id.as_str(), c.id.as_str()) {
                kept.push(all[j].duplicate());
                assert(kept.deep_view() =~= without_id(before.take(j as int), c@.id).push(
                    all@[j as int]@,
                ));
            }
            j += 1;
        }
        assert(before.take(j as int) =~= before);
        let ghost kv = kept.deep_view();
        kept.push(c.duplicate());
        assert(kept.deep_view() =~= kv.push(c@));
        all = kept;
        k += 1;
    }
    assert(inst.deep_view().take(k as int) =~= inst.deep_view());
    sort_by_name(all)
}

fn sort_by_name(cs: Vec<Candidate>) -> (r: Vec<Candidate>)
    ensures
        r.deep_view() == by_name(cs.deep_view()),
{
    let ghost cv = cs.deep_view();
    let mut out: Vec<Candidate> = Vec::new();
    let mut i: usize = 0;
    assert(cv.take(0) =~= Seq::<CandidateView>::empty());
    assert(out.deep_view() =~= Seq::<CandidateView>::empty());
    while i < cs.len()
        invariant
            i <= cs.len(),
            cv == cs.deep_view(),
            out.deep_view() == by_name(cv.take(i as int)),
            out@.len() == i,
        decreases cs.len() - i,
    {
        let c = &cs[i];
        proof {
            let w = cv.take(i + 1);
            assert(w.drop_last() =~= cv.take(i as int));
            assert(w.last() == c@);
            lemma_name_pos(out.deep_view(), c@);
        }
        let ghost t = out.deep_view();
        let mut pos: usize = 0;
        while pos < out.len() && !name_before(c, &out[pos])
            invariant
                pos <= out@.len(),
                t == out.deep_view(),
                out@.len() == t.len(),
                forall|j: int| 0 <= j < pos ==> !chars_before(c@.name, (#[trigger] t[j]).name),
            decreases out.len() - pos,
        {
            assert(t[pos as int] == out@[pos as int]@);
            pos += 1;
        }
        proof {
            if pos < out@.len() {
                assert(t[pos as int] == out@[pos as int]@);
            }
            if pos < name_pos(t, c@) {
                assert(!chars_before(c@.name, t[pos as int].name));
            }
            if name_pos(t, c@) < pos {
                assert(!chars_before(c@.name, t[name_pos(t, c@)].name));
            }
        }
        out.insert(pos, c.duplicate());
        assert(out.deep_view() =~= t.insert(pos as int, c@));
        i += 1;
    }
    assert(cv.take(i as int) =~= cv);
    out
}

// ------------------------------------------------------------ lookup

pub open spec fn ambiguous_message() -> Seq<char> {
    "Ambiguous name; use the full candidate ID"@
}

pub open spec fn no_candidate_message(id: Seq<char>) -> Seq<char> {
    "No candidate "@ + debug_quoted(id) + "; run scan"@
}

/// The candidates whose id or name is `id`, by index.
pub open spec fn named(cs: Seq<CandidateView>, id: Seq<char>) -> Seq<int>
    decreases cs.len(),
{
    if cs.len() == 0 {
        seq![]
    } else {
        let r = named(cs.drop_last(), id);
        if cs.last().id == id || cs.last().name == id {
            r.push(cs.len() - 1)
        } else {
            r
        }
    }
}

/// The one candidate a command names by id or name.
pub open spec fn lookup(cs: Seq<CandidateView>, id: Seq<char>) -> Result<int, Seq<char>> {
    let m = named(cs, id);
    if m.len() > 1 {
        Err(ambiguous_message())
    } else if m.len() == 0 {
        Err(no_candidate_message(id))
    } else {
        Ok(m[0])
    }
}

/// Finds the candidate a command names, refusing an ambiguous name.
pub fn find_candidate(cs: &Vec<Candidate>, id: &str) -> (r: Result<usize, String>)
    ensures
        match (r, lookup(cs.deep_view(), id@)) {
            (Ok(i), Ok(j)) => i == j,
            (Err(e), Err(w)) => e@ == w,
            _ => false,
        },
{
    let mut hits: Vec<usize> = Vec::new();
    let mut i: usize = 0;
    while i < cs.len()
        invariant
            i <= cs.len(),
            hits@.len() == named(cs.deep_view().take(i as int), id@).len(),
            forall|k: int| 0 <= k < hits@.len() ==> hits@[k] as int == #[trigger] named(cs.deep_view().take(i as int), id@)[k],
        decreases cs.len() - i,
    {
        let ghost t = cs.deep_view().take(i + 1);
        assert(t.drop_last() =~= cs.deep_view().take(i as int));
        assert(t.last() == cs@[i as int]@);
        if same(cs[i].id.as_str(), id) || same(cs[i].name.as_str(), id) {
            hits.push(i);
        }
        i += 1;
    }
    assert(cs.deep_view().take(i as int) =~= cs.deep_view());
    proof {
        reveal_strlit("Ambiguous name; use the full candidate ID");
        reveal_strlit("No candidate ");
        reveal_strlit("; run scan");
    }
    if hits.len() > 1 {
        return Err("Ambiguous name; use the full candidate ID".to_string());
    }
    if hits.len() == 0 {
        let q = debug_str(id);
        let m = concat("No candidate ", q.as_str());
        return Err(concat(m.as_str(), "; run scan"));
    }
    Ok(hits[0])
}

} // verus!
