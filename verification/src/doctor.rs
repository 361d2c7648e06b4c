//! Laws of the doctor report: which findings it gives for a transaction and
//! for the selected and running shells.
use crate::diagnostics::{
    config_findings, debug_option, diagnostics_of, drifted, finding, intact, liveness_findings,
    only_if, phase_name, registration_findings, registrations_findings, DiagnosticView,
};
use crate::control::StateView;
use crate::model::CandidateView;
use crate::ownership::{FileReadView, OwnedFileView};
use crate::text::{ascii_lowered, decimal};
use vstd::prelude::*;

verus! {

// ------------------------------------------------------------ laws

/// Some finding carries `code`.
pub open spec fn has_code(ds: Seq<DiagnosticView>, code: Seq<char>) -> bool {
    exists|i: int| 0 <= i < ds.len() && (#[trigger] ds[i]).code == code
}

proof fn lemma_has_code_concat(a: Seq<DiagnosticView>, b: Seq<DiagnosticView>, x: Seq<char>)
    ensures
        has_code(a + b, x) == (has_code(a, x) || has_code(b, x)),
{
    let ab = a + b;
    if has_code(ab, x) {
        let i = choose|i: int| 0 <= i < ab.len() && (#[trigger] ab[i]).code == x;
        if i < a.len() {
            assert(a[i] == ab[i]);
        } else {
            assert(b[i - a.len()] == ab[i]);
        }
    }
    if has_code(a, x) {
        let i = choose|i: int| 0 <= i < a.len() && (#[trigger] a[i]).code == x;
        assert(ab[i] == a[i]);
    }
    if has_code(b, x) {
        let i = choose|i: int| 0 <= i < b.len() && (#[trigger] b[i]).code == x;
        assert(ab[i + a.len()] == b[i]);
    }
}

proof fn lemma_only_if_code(c: bool, f: DiagnosticView, x: Seq<char>)
    ensures
        has_code(only_if(c, f), x) == (c && f.code == x),
{
    if c {
        assert(only_if(c, f)[0] == f);
    }
}

proof fn lemma_drifted_code(d: Seq<FileReadView>, files: Seq<OwnedFileView>, code: Seq<char>, w: bool, x: Seq<char>)
    requires
        x != code,
    ensures
        !has_code(drifted(d, files, code, w), x),
    decreases files.len(),
{
    if files.len() > 0 {
        let f = files.last();
        lemma_drifted_code(d, files.drop_last(), code, w, x);
        lemma_has_code_concat(
            drifted(d, files.drop_last(), code, w),
            only_if(
                !intact(d, f.path, f.expected),
                finding(code, if w { f.owner + ": "@ + f.path } else { f.path }, "repair --yes"@),
            ),
            x,
        );
        lemma_only_if_code(
            !intact(d, f.path, f.expected),
            finding(code, if w { f.owner + ": "@ + f.path } else { f.path }, "repair --yes"@),
            x,
        );
    }
}

/// Codes that registrations never report.
pub open spec fn registration_code(x: Seq<char>) -> bool {
    x == "staged-config-drift"@ || x == "inactive-running"@ || x == "integration-gap"@
}

proof fn lemma_registrations_code(
    s: StateView,
    inst: Seq<CandidateView>,
    d: Seq<FileReadView>,
    running: Seq<Seq<u32>>,
    x: Seq<char>,
)
    requires
        !registration_code(x),
    ensures
        !has_code(registrations_findings(s, inst, d, running), x),
    decreases inst.len(),
{
    if inst.len() > 0 && running.len() >= inst.len() {
        let c = inst.last();
        let pids = running[inst.len() - 1];
        lemma_registrations_code(s, inst.drop_last(), d, running.take(inst.len() - 1), x);
        lemma_has_code_concat(
            registrations_findings(s, inst.drop_last(), d, running.take(inst.len() - 1)),
            registration_findings(s, c, d, pids),
            x,
        );
        match c.lifecycle {
            Some(l) => {
                lemma_drifted_code(d, l.frozen, "staged-config-drift"@, false, x);
                let live = if s.selected != Some(c.id) && !(s.pending matches Some(p) && p.target.id
                    == c.id) {
                    pids.map_values(
                        |pid: u32|
                            finding(
                                "inactive-running"@,
                                c.name + " PID "@ + decimal(pid as nat),
                                "disable "@ + c.id + " --yes"@,
                            ),
                    )
                } else {
                    Seq::empty()
                };
                lemma_has_code_concat(drifted(d, l.frozen, "staged-config-drift"@, false), live, x);
                if has_code(live, x) {
                    let i = choose|i: int| 0 <= i < live.len() && (#[trigger] live[i]).code == x;
                    assert(live[i].code == "inactive-running"@);
                }
            },
            None => {
                let g = registration_findings(s, c, d, pids);
                if has_code(g, x) {
                    let i = choose|i: int| 0 <= i < g.len() && (#[trigger] g[i]).code == x;
                    assert(g[i].code == "integration-gap"@);
                }
            },
        }
    }
}

/// The report's codes for `x` are those of its parts, in order.
proof fn lemma_report_code(
    s: StateView,
    files_pending: bool,
    active_healthy: bool,
    d: Seq<FileReadView>,
    running: Seq<Seq<u32>>,
    x: Seq<char>,
)
    requires
        x != "unowned-config"@,
        x != "unmanaged-active-shell"@,
        x != "interrupted-protection"@,
        x != "startup-drift"@,
        !registration_code(x),
    ensures
        has_code(diagnostics_of(s, files_pending, active_healthy, d, running), x) == (
        (s.pending is Some && x == "pending"@) || has_code(config_findings(s, d), x) || has_code(
            liveness_findings(s, active_healthy),
            x,
        )),
{
    let p1 = only_if(
        s.config is None && s.selected is Some,
        finding(
            "unowned-config"@,
            "A shell is selected while the Niri entrypoint is outside Shellswitch ownership"@,
            "enroll --config ~/.config/niri/config.kdl --user-config REVIEWED_BASELINE --policy preserve-user --yes"@,
        ),
    );
    let p2 = only_if(
        s.active is Some && s.active->0.candidate.lifecycle is None,
        finding(
            "unmanaged-active-shell"@,
            s.active->0.candidate.name + " is running without a lifecycle adapter"@,
            "adapter "@ + ascii_lowered(s.active->0.candidate.name) + " --shell-root "@
                + s.active->0.candidate.source + " > shellswitch.toml, review it, then install it"@,
        ),
    );
    let p3 = only_if(
        s.pending is Some,
        finding(
            "pending"@,
            phase_name(s.pending->0.phase) + ": "@ + s.pending->0.target.name,
            "recover (or keep/revert a healthy trial)"@,
        ),
    );
    let p4 = only_if(
        files_pending,
        finding("interrupted-protection"@, "A file operation was interrupted"@, "recover"@),
    );
    let p5 = drifted(d, s.protections, "startup-drift"@, true);
    let p6 = config_findings(s, d);
    let p7 = liveness_findings(s, active_healthy);
    let p8 = registrations_findings(s, s.installed, d, running);
    assert(diagnostics_of(s, files_pending, active_healthy, d, running) == p1 + p2 + p3 + p4 + p5
        + p6 + p7 + p8);
    lemma_only_if_code(
        s.config is None && s.selected is Some,
        finding(
            "unowned-config"@,
            "A shell is selected while the Niri entrypoint is outside Shellswitch ownership"@,
            "enroll --config ~/.config/niri/config.kdl --user-config REVIEWED_BASELINE --policy preserve-user --yes"@,
        ),
        x,
    );
    lemma_only_if_code(
        s.active is Some && s.active->0.candidate.lifecycle is None,
        finding(
            "unmanaged-active-shell"@,
            s.active->0.candidate.name + " is running without a lifecycle adapter"@,
            "adapter "@ + ascii_lowered(s.active->0.candidate.name) + " --shell-root "@
                + s.active->0.candidate.source + " > shellswitch.toml, review it, then install it"@,
        ),
        x,
    );
    lemma_only_if_code(
        s.pending is Some,
        finding(
            "pending"@,
            phase_name(s.pending->0.phase) + ": "@ + s.pending->0.target.name,
            "recover (or keep/revert a healthy trial)"@,
        ),
        x,
    );
    lemma_only_if_code(
        files_pending,
        finding("interrupted-protection"@, "A file operation was interrupted"@, "recover"@),
        x,
    );
    lemma_drifted_code(d, s.protections, "startup-drift"@, true, x);
    lemma_registrations_code(s, s.installed, d, running, x);
    lemma_has_code_concat(p1, p2, x);
    lemma_has_code_concat(p1 + p2, p3, x);
    lemma_has_code_concat(p1 + p2 + p3, p4, x);
    lemma_has_code_concat(p1 + p2 + p3 + p4, p5, x);
    lemma_has_code_concat(p1 + p2 + p3 + p4 + p5, p6, x);
    lemma_has_code_concat(p1 + p2 + p3 + p4 + p5 + p6, p7, x);
    lemma_has_code_concat(p1 + p2 + p3 + p4 + p5 + p6 + p7, p8, x);
}

proof fn lemma_config_code(s: StateView, d: Seq<FileReadView>, x: Seq<char>)
    requires
        x != "config-overwrite"@,
        x != "include-drift"@,
    ensures
        has_code(config_findings(s, d), x) == (x == "owner-mismatch"@ && s.config is Some
            && s.selected is Some && s.config->0.owner != s.selected && s.pending is None),
{
    match s.config {
        None => {},
        Some(c) => {
            let a = only_if(
                !intact(d, c.target, c.expected),
                finding(
                    "config-overwrite"@,
                    "Selected "@ + debug_option(s.selected)
                        + ", Niri entrypoint no longer matches saved ownership"@,
                    "repair --yes"@,
                ),
            );
            let b = drifted(d, c.user_files + c.dependencies, "include-drift"@, false);
            let e = only_if(
                s.selected is Some && c.owner != s.selected && s.pending is None,
                finding(
                    "owner-mismatch"@,
                    "Selected "@ + debug_option(s.selected) + ", config owner "@ + debug_option(c.owner),
                    "switch <selected-id> --yes"@,
                ),
            );
            assert(config_findings(s, d) == a + b + e);
            lemma_has_code_concat(a, b, x);
            lemma_has_code_concat(a + b, e, x);
            lemma_only_if_code(
                !intact(d, c.target, c.expected),
                finding(
                    "config-overwrite"@,
                    "Selected "@ + debug_option(s.selected)
                        + ", Niri entrypoint no longer matches saved ownership"@,
                    "repair --yes"@,
                ),
                x,
            );
            lemma_drifted_code(d, c.user_files + c.dependencies, "include-drift"@, false, x);
            lemma_only_if_code(
                s.selected is Some && c.owner != s.selected && s.pending is None,
                finding(
                    "owner-mismatch"@,
                    "Selected "@ + debug_option(s.selected) + ", config owner "@ + debug_option(c.owner),
                    "switch <selected-id> --yes"@,
                ),
                x,
            );
        },
    }
}

proof fn lemma_liveness_code(s: StateView, active_healthy: bool, x: Seq<char>)
    ensures
        has_code(liveness_findings(s, active_healthy), x) == (s.pending is None && ((x
            == "selected-not-running"@ && s.selected is Some && !(s.active is Some
            && s.active->0.candidate.id == s.selected->0 && active_healthy)) || (x
            == "unexpected-managed-process"@ && s.active is Some && active_healthy && s.selected
            != Some(s.active->0.candidate.id)))),
{
    if s.pending is None {
        let a = only_if(
            s.selected is Some && !(s.active is Some && s.active->0.candidate.id == s.selected->0
                && active_healthy),
            finding("selected-not-running"@, s.selected->0, "resume"@),
        );
        let b = only_if(
            s.active is Some && active_healthy && s.selected != Some(s.active->0.candidate.id),
            finding("unexpected-managed-process"@, s.active->0.candidate.id, "disable <id> --yes"@),
        );
        lemma_has_code_concat(a, b, x);
        lemma_only_if_code(
            s.selected is Some && !(s.active is Some && s.active->0.candidate.id == s.selected->0
                && active_healthy),
            finding("selected-not-running"@, s.selected->0, "resume"@),
            x,
        );
        lemma_only_if_code(
            s.active is Some && active_healthy && s.selected != Some(s.active->0.candidate.id),
            finding("unexpected-managed-process"@, s.active->0.candidate.id, "disable <id> --yes"@),
            x,
        );
    } else {
        assert(liveness_findings(s, active_healthy) =~= Seq::<DiagnosticView>::empty());
    }
}

proof fn lemma_code_of_interest(
    s: StateView,
    files_pending: bool,
    active_healthy: bool,
    d: Seq<FileReadView>,
    running: Seq<Seq<u32>>,
    x: Seq<char>,
)
    requires
        x == "pending"@ || x == "selected-not-running"@ || x == "owner-mismatch"@ || x
            == "unexpected-managed-process"@,
    ensures
        has_code(diagnostics_of(s, files_pending, active_healthy, d, running), x) == (
        (s.pending is Some && x == "pending"@) || (x == "owner-mismatch"@ && s.config is Some
            && s.selected is Some && s.config->0.owner != s.selected && s.pending is None) || (
        s.pending is None && ((x == "selected-not-running"@ && s.selected is Some && !(
        s.active is Some && s.active->0.candidate.id == s.selected->0 && active_healthy)) || (x
            == "unexpected-managed-process"@ && s.active is Some && active_healthy && s.selected
            != Some(s.active->0.candidate.id))))),
{
    reveal_strlit("pending");
    reveal_strlit("selected-not-running");
    reveal_strlit("owner-mismatch");
    reveal_strlit("unexpected-managed-process");
    reveal_strlit("unowned-config");
    reveal_strlit("unmanaged-active-shell");
    reveal_strlit("interrupted-protection");
    reveal_strlit("startup-drift");
    reveal_strlit("staged-config-drift");
    reveal_strlit("inactive-running");
    reveal_strlit("integration-gap");
    reveal_strlit("config-overwrite");
    reveal_strlit("include-drift");
    assert("owner-mismatch"@[0] != "unowned-config"@[0]);
    assert("pending"@.len() == 7 && "selected-not-running"@.len() == 20 && "owner-mismatch"@.len()
        == 14 && "unexpected-managed-process"@.len() == 26);
    assert("unowned-config"@.len() == 14 && "unmanaged-active-shell"@.len() == 22
        && "interrupted-protection"@.len() == 22 && "startup-drift"@.len() == 13
        && "staged-config-drift"@.len() == 19 && "inactive-running"@.len() == 16
        && "integration-gap"@.len() == 15 && "config-overwrite"@.len() == 16
        && "include-drift"@.len() == 13);
    lemma_report_code(s, files_pending, active_healthy, d, running, x);
    lemma_config_code(s, d, x);
    lemma_liveness_code(s, active_healthy, x);
}

/// Doctor reports a pending transaction exactly when one is open; it reports
/// the selected shell as not running exactly outside a transaction when a
/// shell is selected and the active instance is not that shell in good
/// health; and during a transaction it reports neither an owner mismatch nor
/// an unexpected managed process.
pub proof fn law_diagnostics_pending_and_liveness(
    s: StateView,
    files_pending: bool,
    active_healthy: bool,
    d: Seq<FileReadView>,
    running: Seq<Seq<u32>>,
)
    ensures
        has_code(diagnostics_of(s, files_pending, active_healthy, d, running), "pending"@) <==> s.pending is Some,
        has_code(diagnostics_of(s, files_pending, active_healthy, d, running), "selected-not-running"@)
            <==> (s.pending is None && s.selected is Some && !(s.active is Some
            && s.active->0.candidate.id == s.selected->0 && active_healthy)),
        s.pending is Some ==> !has_code(
            diagnostics_of(s, files_pending, active_healthy, d, running),
            "owner-mismatch"@,
        ) && !has_code(diagnostics_of(s, files_pending, active_healthy, d, running), "unexpected-managed-process"@),
{
    reveal_strlit("pending");
    reveal_strlit("selected-not-running");
    reveal_strlit("owner-mismatch");
    reveal_strlit("unexpected-managed-process");
    assert("pending"@.len() == 7 && "selected-not-running"@.len() == 20 && "owner-mismatch"@.len()
        == 14 && "unexpected-managed-process"@.len() == 26);
    lemma_code_of_interest(s, files_pending, active_healthy, d, running, "pending"@);
    lemma_code_of_interest(s, files_pending, active_healthy, d, running, "selected-not-running"@);
    lemma_code_of_interest(s, files_pending, active_healthy, d, running, "owner-mismatch"@);
    lemma_code_of_interest(s, files_pending, active_healthy, d, running, "unexpected-managed-process"@);
}

} // verus!
