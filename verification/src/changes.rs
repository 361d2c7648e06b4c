//! Applying and undoing planned file changes. Each decision reads the content
//! a path holds at that moment: what was observed beforehand, overlaid by the
//! writes decided earlier in the same run.
use crate::dup::Duplicate;
use crate::ownership::{
    observed, snapshot_eq, Change, ChangeView, Disk, FileReadView, Snapshot, SnapshotView,
};
use crate::text::{concat, same};
use vstd::prelude::*;

verus! {

/// One file operation, performed in order by the caller.
#[derive(Debug)]
pub enum FileStep {
    /// Save what `path` holds under the recovery archive before it is overwritten.
    Archive { path: String },
    /// Replace what `path` holds.
    Write { path: String, content: Snapshot },
}

pub enum FileStepView {
    Archive { path: Seq<char> },
    Write { path: Seq<char>, content: SnapshotView },
}

impl View for FileStep {
    type V = FileStepView;

    open spec fn view(&self) -> FileStepView {
        match self {
            FileStep::Archive { path } => FileStepView::Archive { path: path@ },
            FileStep::Write { path, content } => FileStepView::Write {
                path: path@,
                content: content@,
            },
        }
    }
}

impl DeepView for FileStep {
    type V = FileStepView;

    open spec fn deep_view(&self) -> FileStepView {
        self@
    }
}

/// What `p` holds after the writes among `steps`: the last one to `p`, or the
/// observation when none wrote it.
pub open spec fn current(
    d: Seq<FileReadView>,
    steps: Seq<FileStepView>,
    p: Seq<char>,
) -> Result<SnapshotView, Seq<char>>
    decreases steps.len(),
{
    if steps.len() == 0 {
        observed(d, p)
    } else if steps.last() is Write && steps.last()->Write_path == p {
        Ok(steps.last()->Write_content)
    } else {
        current(d, steps.drop_last(), p)
    }
}

pub open spec fn external_change_message(p: Seq<char>) -> Seq<char> {
    "External change at "@ + p + "; run doctor / repair"@
}

/// The writes that applying `cs` in order performs, and the error that stops it:
/// each change requires its path to hold `before` and then writes `after`.
pub open spec fn applied_steps(
    d: Seq<FileReadView>,
    cs: Seq<ChangeView>,
) -> (Seq<FileStepView>, Option<Seq<char>>)
    decreases cs.len(),
{
    if cs.len() == 0 {
        (seq![], None)
    } else {
        let (w, e) = applied_steps(d, cs.drop_last());
        let c = cs.last();
        if e is Some {
            (w, e)
        } else {
            match current(d, w, c.path) {
                Err(m) => (w, Some(m)),
                Ok(s) => if s == c.before {
                    (w.push(FileStepView::Write { path: c.path, content: c.after }), None)
                } else {
                    (w, Some(external_change_message(c.path)))
                },
            }
        }
    }
}

/// The steps that undoing the last `k` changes of `cs`, last first, performs on
/// top of the writes `base`, and the error that stops it. A path holding
/// neither side of its change is archived first; a path not holding `before`
/// gets it back.
pub open spec fn restore_run(
    d: Seq<FileReadView>,
    base: Seq<FileStepView>,
    cs: Seq<ChangeView>,
    k: nat,
) -> (Seq<FileStepView>, Option<Seq<char>>)
    decreases k,
{
    if k == 0 {
        (seq![], None)
    } else {
        let (w, e) = restore_run(d, base, cs, (k - 1) as nat);
        let c = cs[cs.len() - k];
        if e is Some {
            (w, e)
        } else {
            match current(d, base + w, c.path) {
                Err(m) => (w, Some(m)),
                Ok(a) => {
                    let w1 = if a != c.before && a != c.after {
                        w.push(FileStepView::Archive { path: c.path })
                    } else {
                        w
                    };
                    let w2 = if a != c.before {
                        w1.push(FileStepView::Write { path: c.path, content: c.before })
                    } else {
                        w1
                    };
                    (w2, None)
                },
            }
        }
    }
}

/// What undoing all of `cs` performs, starting from the observation alone.
pub open spec fn restored_steps(
    d: Seq<FileReadView>,
    cs: Seq<ChangeView>,
) -> (Seq<FileStepView>, Option<Seq<char>>) {
    restore_run(d, seq![], cs, cs.len())
}

/// What `path` holds after `steps`, from the observation `disk`.
fn content_now(disk: &Disk, steps: &Vec<FileStep>, path: &String) -> (r: Result<Snapshot, String>)
    ensures
        match (r, current(disk@, steps.deep_view(), path@)) {
            (Ok(a), Ok(b)) => a@ == b,
            (Err(a), Err(b)) => a@ == b,
            _ => false,
        },
{
    let mut i: usize = steps.len();
    assert(steps.deep_view().take(i as int) =~= steps.deep_view());
    while i > 0
        invariant
            i <= steps.len(),
            current(disk@, steps.deep_view(), path@) == current(
                disk@,
                steps.deep_view().take(i as int),
                path@,
            ),
        decreases i,
    {
        let ghost t = steps.deep_view().take(i as int);
        assert(t.drop_last() =~= steps.deep_view().take(i - 1));
        assert(t.last() == steps@[i - 1]@);
        match &steps[i - 1] {
            FileStep::Write { path: p, content } => {
                if same(p.as_str(), path.as_str()) {
                    return Ok(content.duplicate());
                }
            },
            FileStep::Archive { .. } => {},
        }
        i -= 1;
    }
    assert(steps.deep_view().take(0) =~= Seq::<FileStepView>::empty());
    disk.lookup(path)
}

/// Applies `cs` in order: the writes to perform, and the error that stops the
/// run at the first change whose path does not hold its `before`.
pub fn apply_changes(cs: &Vec<Change>, disk: &Disk) -> (r: (Vec<FileStep>, Result<(), String>))
    ensures
        (r.0.deep_view(), match r.1 {
            Ok(()) => None::<Seq<char>>,
            Err(e) => Some(e@),
        }) == applied_steps(disk@, cs.deep_view()),
{
    let mut steps: Vec<FileStep> = Vec::new();
    let mut err: Option<String> = None;
    let mut i: usize = 0;
    while i < cs.len()
        invariant
            i <= cs.len(),
            (steps.deep_view(), match err {
                None => None::<Seq<char>>,
                Some(e) => Some(e@),
            }) == applied_steps(disk@, cs.deep_view().take(i as int)),
        decreases cs.len() - i,
    {
        let ghost t = cs.deep_view().take(i + 1);
        assert(t.drop_last() =~= cs.deep_view().take(i as int));
        assert(t.last() == cs@[i as int]@);
        if err.is_none() {
            let c = &cs[i];
            match content_now(disk, &steps, &c.path) {
                Err(m) => {
                    err = Some(m);
                },
                Ok(s) => {
                    if snapshot_eq(&s, &c.before) {
                        let ghost before = steps.deep_view();
                        steps.push(FileStep::Write { path: c.path.clone(), content: c.after.duplicate() });
                        assert(steps.deep_view() =~= before.push(
                            FileStepView::Write { path: c@.path, content: c@.after },
                        ));
                    } else {
                        let m = concat("External change at ", c.path.as_str());
                        let m = concat(m.as_str(), "; run doctor / repair");
                        proof {
                            reveal_strlit("External change at ");
                            reveal_strlit("; run doctor / repair");
                        }
                        err = Some(m);
                    }
                },
            }
        }
        i += 1;
    }
    assert(cs.deep_view().take(cs.len() as int) =~= cs.deep_view());
    match err {
        None => (steps, Ok(())),
        Some(e) => (steps, Err(e)),
    }
}

/// Undoes `cs`, last change first: the archive and write steps to perform, and
/// the error that stops the run.
pub fn restore_changes(cs: &Vec<Change>, disk: &Disk) -> (r: (Vec<FileStep>, Result<(), String>))
    ensures
        (r.0.deep_view(), match r.1 {
            Ok(()) => None::<Seq<char>>,
            Err(e) => Some(e@),
        }) == restored_steps(disk@, cs.deep_view()),
{
    let mut steps: Vec<FileStep> = Vec::new();
    let mut err: Option<String> = None;
    let mut k: usize = 0;
    while k < cs.len()
        invariant
            k <= cs.len(),
            (steps.deep_view(), match err {
                None => None::<Seq<char>>,
                Some(e) => Some(e@),
            }) == restore_run(disk@, seq![], cs.deep_view(), k as nat),
        decreases cs.len() - k,
    {
        let c = &cs[cs.len() - 1 - k];
        assert(cs.deep_view()[cs.len() - (k + 1)] == c@);
        assert(Seq::<FileStepView>::empty() + steps.deep_view() =~= steps.deep_view());
        if err.is_none() {
            match content_now(disk, &steps, &c.path) {
                Err(m) => {
                    err = Some(m);
                },
                Ok(a) => {
                    let at_before = snapshot_eq(&a, &c.before);
                    let at_after = snapshot_eq(&a, &c.after);
                    if !at_before && !at_after {
                        let ghost before = steps.deep_view();
                        steps.push(FileStep::Archive { path: c.path.clone() });
                        assert(steps.deep_view() =~= before.push(
                            FileStepView::Archive { path: c@.path },
                        ));
                    }
                    if !at_before {
                        let ghost before = steps.deep_view();
                        steps.push(FileStep::Write { path: c.path.clone(), content: c.before.duplicate() });
                        assert(steps.deep_view() =~= before.push(
                            FileStepView::Write { path: c@.path, content: c@.before },
                        ));
                    }
                },
            }
        }
        k += 1;
    }
    match err {
        None => (steps, Ok(())),
        Some(e) => (steps, Err(e)),
    }
}

/// An error in the application of a prefix stops the whole run.
proof fn lemma_error_persists(d: Seq<FileReadView>, cs: Seq<ChangeView>, m: int)
    requires
        0 <= m <= cs.len(),
        applied_steps(d, cs.take(m)).1 is Some,
    ensures
        applied_steps(d, cs).1 is Some,
    decreases cs.len() - m,
{
    if cs.len() == m {
        assert(cs.take(m) =~= cs);
    } else {
        assert(cs.drop_last().take(m) =~= cs.take(m));
        lemma_error_persists(d, cs.drop_last(), m);
    }
}

/// In a clean run, change `j` found its `before` and wrote its `after`.
proof fn lemma_applied_prefix(d: Seq<FileReadView>, cs: Seq<ChangeView>, j: int)
    requires
        applied_steps(d, cs).1 is None,
        0 <= j < cs.len(),
    ensures
        applied_steps(d, cs.take(j)).1 is None,
        applied_steps(d, cs.take(j + 1)).1 is None,
        current(d, applied_steps(d, cs.take(j)).0, cs[j].path) == Ok::<SnapshotView, Seq<char>>(
            cs[j].before,
        ),
        applied_steps(d, cs.take(j + 1)).0 == applied_steps(d, cs.take(j)).0.push(
            FileStepView::Write { path: cs[j].path, content: cs[j].after },
        ),
{
    if applied_steps(d, cs.take(j + 1)).1 is Some {
        lemma_error_persists(d, cs, j + 1);
    }
    let t = cs.take(j + 1);
    assert(t.drop_last() =~= cs.take(j));
    assert(t.last() == cs[j]);
}

/// Writing `p` changes what `p` holds and nothing else; archiving changes nothing.
proof fn lemma_current_push(d: Seq<FileReadView>, w: Seq<FileStepView>, x: FileStepView, q: Seq<char>)
    ensures
        current(d, w.push(x), q) == (if x is Write && x->Write_path == q {
            Ok(x->Write_content)
        } else {
            current(d, w, q)
        }),
{
    assert(w.push(x).drop_last() =~= w);
}

/// After undoing the last `k` changes of a clean run, every path holds what it
/// held before those `k` changes were applied.
proof fn lemma_restore_tracks(
    d: Seq<FileReadView>,
    after: Seq<FileReadView>,
    cs: Seq<ChangeView>,
    k: nat,
)
    requires
        applied_steps(d, cs).1 is None,
        forall|q: Seq<char>|
            #[trigger] observed(after, q) == current(d, applied_steps(d, cs).0, q),
        k <= cs.len(),
    ensures
        restore_run(after, seq![], cs, k).1 is None,
        forall|q: Seq<char>|
            #[trigger] current(after, restore_run(after, seq![], cs, k).0, q) == current(
                d,
                applied_steps(d, cs.take(cs.len() - k)).0,
                q,
            ),
    decreases k,
{
    let n = cs.len();
    if k == 0 {
        assert(cs.take(n as int) =~= cs);
        assert forall|q: Seq<char>|
            #[trigger] current(after, restore_run(after, seq![], cs, k).0, q) == current(
                d,
                applied_steps(d, cs.take(n - k)).0,
                q,
            ) by {
            assert(observed(after, q) == current(d, applied_steps(d, cs).0, q));
        }
    } else {
        lemma_restore_tracks(d, after, cs, (k - 1) as nat);
        let j = n - k;
        let c = cs[j];
        lemma_applied_prefix(d, cs, j);
        assert(n - (k - 1) == j + 1);
        let r = restore_run(after, seq![], cs, (k - 1) as nat).0;
        let wj = applied_steps(d, cs.take(j)).0;
        let wj1 = applied_steps(d, cs.take(j + 1)).0;
        assert(Seq::<FileStepView>::empty() + r =~= r);
        lemma_current_push(d, wj, FileStepView::Write { path: c.path, content: c.after }, c.path);
        assert(current(after, r, c.path) == current(d, wj1, c.path));
        assert(current(after, r, c.path) == Ok::<SnapshotView, Seq<char>>(c.after));
        let next = restore_run(after, seq![], cs, k).0;
        assert forall|q: Seq<char>| #[trigger] current(after, next, q) == current(d, wj, q) by {
            lemma_current_push(d, wj, FileStepView::Write { path: c.path, content: c.after }, q);
            assert(current(after, r, q) == current(d, wj1, q));
            if c.after != c.before {
                lemma_current_push(after, r, FileStepView::Write { path: c.path, content: c.before }, q);
            }
        }
    }
}

/// Undoing a change set that applied cleanly gives every path back what it held
/// before: restoring from an observation of the applied contents succeeds, and
/// afterwards each path holds what the first observation showed.
pub proof fn law_restore_undoes_apply(
    d: Seq<FileReadView>,
    after: Seq<FileReadView>,
    cs: Seq<ChangeView>,
)
    requires
        applied_steps(d, cs).1 is None,
        forall|q: Seq<char>|
            #[trigger] observed(after, q) == current(d, applied_steps(d, cs).0, q),
    ensures
        restored_steps(after, cs).1 is None,
        forall|q: Seq<char>|
            #[trigger] current(after, restored_steps(after, cs).0, q) == observed(d, q),
{
    lemma_restore_tracks(d, after, cs, cs.len());
    assert(cs.take(0) =~= Seq::<ChangeView>::empty());
    assert forall|q: Seq<char>|
        #[trigger] current(after, restored_steps(after, cs).0, q) == observed(d, q) by {
        assert(cs.len() - cs.len() == 0);
    }
}

/// Step `k` of `w` writes some change's `after` at its path over that change's `before`.
pub open spec fn planned_write(
    d: Seq<FileReadView>,
    cs: Seq<ChangeView>,
    w: Seq<FileStepView>,
    k: int,
) -> bool {
    &&& w[k] is Write
    &&& exists|j: int|
        0 <= j < cs.len() && (#[trigger] cs[j]).path == w[k]->Write_path && w[k]->Write_content
            == cs[j].after && current(d, w.take(k), cs[j].path) == Ok::<SnapshotView, Seq<char>>(
            cs[j].before,
        )
}

proof fn lemma_apply_writes_planned(d: Seq<FileReadView>, cs: Seq<ChangeView>)
    ensures
        forall|k: int|
            0 <= k < applied_steps(d, cs).0.len() ==> #[trigger] planned_write(
                d,
                cs,
                applied_steps(d, cs).0,
                k,
            ),
    decreases cs.len(),
{
    if cs.len() > 0 {
        let cs0 = cs.drop_last();
        lemma_apply_writes_planned(d, cs0);
        let w0 = applied_steps(d, cs0).0;
        let w = applied_steps(d, cs).0;
        assert forall|k: int| 0 <= k < w.len() implies #[trigger] planned_write(d, cs, w, k) by {
            if k < w0.len() {
                assert(planned_write(d, cs0, w0, k));
                assert(w[k] == w0[k]);
                assert(w.take(k) =~= w0.take(k));
                let j = choose|j: int|
                    0 <= j < cs0.len() && (#[trigger] cs0[j]).path == w0[k]->Write_path
                        && w0[k]->Write_content == cs0[j].after && current(d, w0.take(k), cs0[j].path)
                        == Ok::<SnapshotView, Seq<char>>(cs0[j].before);
                assert(cs[j] == cs0[j]);
            } else {
                let j = cs.len() - 1;
                assert(w =~= w0.push(FileStepView::Write { path: cs[j].path, content: cs[j].after }));
                assert(w.take(k) =~= w0);
                assert(cs[j] == cs.last());
            }
        }
    }
}

/// Applying changes writes nothing but what was planned, and only over the
/// content the plan expected: each write puts some change's `after` at its
/// path when that path held the change's `before`.
pub proof fn law_apply_writes_only_planned(d: Seq<FileReadView>, cs: Seq<ChangeView>)
    ensures
        forall|k: int|
            0 <= k < applied_steps(d, cs).0.len() ==> #[trigger] planned_write(
                d,
                cs,
                applied_steps(d, cs).0,
                k,
            ),
{
    lemma_apply_writes_planned(d, cs);
}

/// The content a write of a restore replaces was either written by the change
/// being undone, or was archived by the step just before.
pub open spec fn archived_or_own(
    d: Seq<FileReadView>,
    base: Seq<FileStepView>,
    cs: Seq<ChangeView>,
    w: Seq<FileStepView>,
    k: int,
) -> bool {
    exists|j: int|
        0 <= j < cs.len() && (#[trigger] cs[j]).path == w[k]->Write_path && w[k]->Write_content
            == cs[j].before && (current(d, base + w.take(k), cs[j].path) == Ok::<
            SnapshotView,
            Seq<char>,
        >(cs[j].after) || (k > 0 && w[k - 1] == FileStepView::Archive { path: cs[j].path }))
}

proof fn lemma_restore_archives(
    d: Seq<FileReadView>,
    base: Seq<FileStepView>,
    cs: Seq<ChangeView>,
    k: nat,
)
    requires
        k <= cs.len(),
    ensures
        forall|i: int|
            0 <= i < restore_run(d, base, cs, k).0.len() && (#[trigger] restore_run(
                d,
                base,
                cs,
                k,
            ).0[i]) is Write ==> archived_or_own(d, base, cs, restore_run(d, base, cs, k).0, i),
    decreases k,
{
    if k > 0 {
        lemma_restore_archives(d, base, cs, (k - 1) as nat);
        let w = restore_run(d, base, cs, (k - 1) as nat).0;
        let r = restore_run(d, base, cs, k).0;
        let c = cs[cs.len() - k];
        let j = cs.len() - k;
        assert forall|i: int|
            0 <= i < r.len() && (#[trigger] r[i]) is Write implies archived_or_own(
            d,
            base,
            cs,
            r,
            i,
        ) by {
            if i < w.len() {
                assert(r.take(i) =~= w.take(i));
                assert(r[i] == w[i]);
                if i > 0 {
                    assert(r[i - 1] == w[i - 1]);
                }
                let jj = choose|jj: int|
                    0 <= jj < cs.len() && (#[trigger] cs[jj]).path == w[i]->Write_path
                        && w[i]->Write_content == cs[jj].before && (current(d, base + w.take(i), cs[jj].path)
                        == Ok::<SnapshotView, Seq<char>>(cs[jj].after) || (i > 0 && w[i - 1]
                        == FileStepView::Archive { path: cs[jj].path }));
                assert(cs[jj].path == r[i]->Write_path);
            } else {
                let a = current(d, base + w, c.path)->Ok_0;
                if a != c.before && a != c.after {
                    let w1 = w.push(FileStepView::Archive { path: c.path });
                    assert(r =~= w1.push(FileStepView::Write { path: c.path, content: c.before }));
                    assert(i == w1.len());
                    assert(r[i - 1] == FileStepView::Archive { path: c.path });
                    assert(cs[j] == c);
                } else {
                    assert(r =~= w.push(FileStepView::Write { path: c.path, content: c.before }));
                    assert(i == w.len());
                    assert(r.take(i) =~= w);
                    assert(cs[j] == c);
                }
            }
        }
    }
}

/// Undoing changes never overwrites foreign content unseen: every write puts
/// back a change's `before` over either the `after` that change wrote or
/// content that the step just before archived.
pub proof fn law_restore_archives_foreign(d: Seq<FileReadView>, cs: Seq<ChangeView>)
    ensures
        forall|i: int|
            0 <= i < restored_steps(d, cs).0.len() && (#[trigger] restored_steps(d, cs).0[i]) is Write
                ==> archived_or_own(d, seq![], cs, restored_steps(d, cs).0, i),
{
    lemma_restore_archives(d, seq![], cs, cs.len());
}

} // verus!
