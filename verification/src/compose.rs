//! The composed compositor entrypoint: the user's baseline and the selected
//! shell's frozen fragment, included in the precedence the policy names.
use crate::control::{first_failure, verify_all};
use crate::dup::duplicate_vec;
use crate::model::{Candidate, CandidateView};
use crate::ownership::{
    text, Config, ConfigView, Disk, FileReadView, OwnedFile, OwnedFileView, Policy, Snapshot,
    SnapshotView,
};
use crate::text::{append, contains_string, debug_list, debug_list_of, json_quote, json_string};
use vstd::prelude::*;
use vstd::utf8::encode_utf8;

verus! {

pub open spec fn compose_header() -> Seq<char> {
    "// Shellswitch owns this entrypoint. Edit your user baseline, then use config-update explicitly.\n"@
}

/// An `include` line for `p`.
pub open spec fn include_line(p: Seq<char>) -> Seq<char> {
    "include "@ + json_string(p) + "\n"@
}

/// The startup line that resumes the selected shell through this program.
pub open spec fn spawn_line(exe: Seq<char>, dir: Seq<char>) -> Seq<char> {
    "spawn-at-startup "@ + json_string(exe) + " \"--state-dir\" "@ + json_string(dir)
        + " \"resume\"\n"@
}

pub open spec fn autostart_message() -> Seq<char> {
    "Shell fragments must not own autostart; use the Shellswitch resume path"@
}

pub open spec fn conflict_message(c: Seq<Seq<char>>) -> Seq<char> {
    "Config sections conflict: "@ + debug_list(c)
        + ". Choose preserve-user or shell-wins explicitly; no bindings were replaced"@
}

/// The members of `a` that `b` holds, in the order of `a`.
pub open spec fn common(a: Seq<Seq<char>>, b: Seq<Seq<char>>) -> Seq<Seq<char>>
    decreases a.len(),
{
    if a.len() == 0 {
        Seq::empty()
    } else if b.contains(a.last()) {
        common(a.drop_last(), b).push(a.last())
    } else {
        common(a.drop_last(), b)
    }
}

/// The frozen Niri fragment of the selected shell, if it declares one.
pub open spec fn fragment_of(shell: Option<CandidateView>) -> Option<Seq<char>> {
    match shell {
        Some(c) => match c.lifecycle {
            Some(l) => l.niri_fragment,
            None => None,
        },
        None => None,
    }
}

/// The composed entrypoint text.
pub open spec fn composed_text(
    cfg: ConfigView,
    fragment: Option<Seq<char>>,
    exe: Seq<char>,
    dir: Seq<char>,
) -> Seq<char> {
    compose_header() + match fragment {
        None => include_line(cfg.user_root),
        Some(path) => if cfg.policy == Policy::ShellWins {
            include_line(cfg.user_root) + include_line(path)
        } else {
            include_line(path) + include_line(cfg.user_root)
        },
    } + spawn_line(exe, dir)
}

/// What composing yields: the entrypoint snapshot and the files it depends on,
/// or why the shell's fragment cannot be combined with the user's baseline.
pub open spec fn composition(
    cfg: ConfigView,
    shell: Option<CandidateView>,
    shell_sections: Seq<Seq<char>>,
    user_sections: Seq<Seq<char>>,
    exe: Seq<char>,
    dir: Seq<char>,
    d: Seq<FileReadView>,
) -> Result<(SnapshotView, Seq<OwnedFileView>), Seq<char>> {
    match first_failure(d, cfg.user_files) {
        Some(e) => Err(e),
        None => {
            let fragment = fragment_of(shell);
            let snapshot = SnapshotView::File {
                data: encode_utf8(composed_text(cfg, fragment, exe, dir)),
                mode: 0o600,
            };
            match fragment {
                None => Ok((snapshot, cfg.user_files)),
                Some(_) => {
                    let frozen = shell->0.lifecycle->0.frozen;
                    match first_failure(d, frozen) {
                        Some(e) => Err(e),
                        None => if shell_sections.contains("spawn-at-startup"@)
                            || shell_sections.contains("spawn-sh-at-startup"@) {
                            Err(autostart_message())
                        } else if cfg.policy == Policy::AbortConflicts && common(
                            shell_sections,
                            user_sections,
                        ).len() > 0 {
                            Err(conflict_message(common(shell_sections, user_sections)))
                        } else {
                            Ok((snapshot, cfg.user_files + frozen))
                        },
                    }
                },
            }
        },
    }
}

fn common_of(a: &Vec<String>, b: &Vec<String>) -> (r: Vec<String>)
    ensures
        r.deep_view() == common(a.deep_view(), b.deep_view()),
{
    let mut r: Vec<String> = Vec::new();
    let mut i: usize = 0;
    assert(a.deep_view().take(0) =~= Seq::<Seq<char>>::empty());
    assert(r.deep_view() =~= Seq::<Seq<char>>::empty());
    while i < a.len()
        invariant
            i <= a.len(),
            r.deep_view() == common(a.deep_view().take(i as int), b.deep_view()),
        decreases a.len() - i,
    {
        proof {
            let w = a.deep_view().take(i + 1);
            assert(w.drop_last() =~= a.deep_view().take(i as int));
            assert(w.last() == a@[i as int]@);
        }
        if contains_string(b, a[i].as_str()) {
            let ghost before = r.deep_view();
            r.push(a[i].clone());
            assert(r.deep_view() =~= before.push(a@[i as int]@));
        }
        i += 1;
    }
    assert(a.deep_view().take(i as int) =~= a.deep_view());
    r
}

fn include_text(p: &str) -> (r: String)
    ensures
        r@ == include_line(p@),
{
    proof {
        reveal_strlit("include ");
        reveal_strlit("\n");
    }
    let mut t = "include ".to_string();
    append(&mut t, json_quote(p).as_str());
    append(&mut t, "\n");
    t
}

/// Composes the entrypoint for the selected `shell` under `cfg`: the user's
/// files and the shell's frozen files must still hold their content;
/// `shell_sections` and `user_sections` are the section names of the two
/// include trees; `exe` and `dir` the program and state directory that the
/// startup line resumes through.
pub fn compose(
    cfg: &Config,
    shell: Option<&Candidate>,
    shell_sections: &Vec<String>,
    user_sections: &Vec<String>,
    exe: &str,
    dir: &str,
    disk: &Disk,
) -> (r: Result<(Snapshot, Vec<OwnedFile>), String>)
    ensures
        match (
            r,
            composition(
                cfg@,
                match shell {
                    Some(c) => Some(c@),
                    None => None,
                },
                shell_sections.deep_view(),
                user_sections.deep_view(),
                exe@,
                dir@,
                disk@,
            ),
        ) {
            (Ok((s, f)), Ok((t, g))) => s@ == t && f.deep_view() == g,
            (Err(e), Err(w)) => e@ == w,
            _ => false,
        },
        (shell matches Some(c) && c@.lifecycle matches Some(l) && l.niri_fragment is Some) && (
        shell_sections.deep_view().contains("spawn-at-startup"@)
            || shell_sections.deep_view().contains("spawn-sh-at-startup"@)) ==> r is Err,
{
    proof {
        reveal_strlit(
            "// Shellswitch owns this entrypoint. Edit your user baseline, then use config-update explicitly.\n",
        );
        reveal_strlit("spawn-at-startup ");
        reveal_strlit(" \"--state-dir\" ");
        reveal_strlit(" \"resume\"\n");
        reveal_strlit("spawn-sh-at-startup");
        reveal_strlit("spawn-at-startup");
        reveal_strlit("Shell fragments must not own autostart; use the Shellswitch resume path");
        reveal_strlit("Config sections conflict: ");
        reveal_strlit(". Choose preserve-user or shell-wins explicitly; no bindings were replaced");
    }
    verify_all(&cfg.user_files, disk)?;
    let mut deps = duplicate_vec(&cfg.user_files);
    let mut source = "// Shellswitch owns this entrypoint. Edit your user baseline, then use config-update explicitly.\n".to_string();
    let mut fragment: Option<&String> = None;
    if let Some(c) = shell {
        if let Some(l) = &c.lifecycle {
            if let Some(p) = &l.niri_fragment {
                fragment = Some(p);
            }
        }
    }
    match fragment {
        Some(path) => {
            let c = shell.unwrap();
            let l = c.lifecycle.as_ref().unwrap();
            verify_all(&l.frozen, disk)?;
            let mut more = duplicate_vec(&l.frozen);
            let ghost before = deps.deep_view();
            deps.append(&mut more);
            assert(deps.deep_view() =~= before + l@.frozen);
            if contains_string(shell_sections, "spawn-at-startup") || contains_string(
                shell_sections,
                "spawn-sh-at-startup",
            ) {
                return Err(
                    "Shell fragments must not own autostart; use the Shellswitch resume path".to_string(),
                );
            }
            if cfg.policy == Policy::AbortConflicts {
                let conflicts = common_of(shell_sections, user_sections);
                if conflicts.len() > 0 {
                    let mut m = "Config sections conflict: ".to_string();
                    append(&mut m, debug_list_of(&conflicts).as_str());
                    append(
                        &mut m,
                        ". Choose preserve-user or shell-wins explicitly; no bindings were replaced",
                    );
                    return Err(m);
                }
            }
            if cfg.policy == Policy::ShellWins {
                append(&mut source, include_text(cfg.user_root.as_str()).as_str());
                append(&mut source, include_text(path.as_str()).as_str());
            } else {
                append(&mut source, include_text(path.as_str()).as_str());
                append(&mut source, include_text(cfg.user_root.as_str()).as_str());
            }
        },
        None => {
            append(&mut source, include_text(cfg.user_root.as_str()).as_str());
        },
    }
    append(&mut source, "spawn-at-startup ");
    append(&mut source, json_quote(exe).as_str());
    append(&mut source, " \"--state-dir\" ");
    append(&mut source, json_quote(dir).as_str());
    append(&mut source, " \"resume\"\n");
    assert(source@ =~= composed_text(
        cfg@,
        fragment_of(
            match shell {
                Some(c) => Some(c@),
                None => None,
            },
        ),
        exe@,
        dir@,
    ));
    Ok((text(source.as_str(), 0o600), deps))
}

} // verus!

verus! {

// ------------------------------------------------------------ laws

/// A shell fragment never owns autostart: when the selected shell brings a
/// fragment whose sections include `spawn-at-startup` or
/// `spawn-sh-at-startup`, composing yields no entrypoint; once the user's and
/// the shell's frozen files are verified, the refusal is the autostart one.
pub proof fn law_fragment_autostart_refused(
    cfg: ConfigView,
    shell: Option<CandidateView>,
    shell_sections: Seq<Seq<char>>,
    user_sections: Seq<Seq<char>>,
    exe: Seq<char>,
    dir: Seq<char>,
    d: Seq<FileReadView>,
)
    requires
        shell matches Some(c) && c.lifecycle matches Some(l) && l.niri_fragment is Some,
        shell_sections.contains("spawn-at-startup"@) || shell_sections.contains(
            "spawn-sh-at-startup"@,
        ),
    ensures
        composition(cfg, shell, shell_sections, user_sections, exe, dir, d) is Err,
        first_failure(d, cfg.user_files) is None && first_failure(
            d,
            shell->0.lifecycle->0.frozen,
        ) is None ==> composition(cfg, shell, shell_sections, user_sections, exe, dir, d) == Err::<
            (SnapshotView, Seq<OwnedFileView>),
            Seq<char>,
        >("Shell fragments must not own autostart; use the Shellswitch resume path"@),
{
}

proof fn lemma_common_holds(a: Seq<Seq<char>>, b: Seq<Seq<char>>, x: Seq<char>)
    requires
        a.contains(x),
        b.contains(x),
    ensures
        common(a, b).len() > 0,
    decreases a.len(),
{
    if a.last() != x {
        let k = choose|k: int| 0 <= k < a.len() && a[k] == x;
        assert(a.drop_last()[k] == x);
        lemma_common_holds(a.drop_last(), b, x);
    }
}

/// Without a shell fragment the entrypoint includes only the user's baseline:
/// neither the section names nor the conflict policy matter, and once the
/// user's files are verified the dependencies are exactly those files.
pub proof fn law_compose_without_fragment(
    cfg: ConfigView,
    policy: Policy,
    shell: Option<CandidateView>,
    shell_sections: Seq<Seq<char>>,
    user_sections: Seq<Seq<char>>,
    other_shell_sections: Seq<Seq<char>>,
    other_user_sections: Seq<Seq<char>>,
    exe: Seq<char>,
    dir: Seq<char>,
    d: Seq<FileReadView>,
)
    requires
        !(shell matches Some(c) && c.lifecycle matches Some(l) && l.niri_fragment is Some),
    ensures
        composition(cfg, shell, shell_sections, user_sections, exe, dir, d) == composition(
            ConfigView { policy, ..cfg },
            shell,
            other_shell_sections,
            other_user_sections,
            exe,
            dir,
            d,
        ),
        first_failure(d, cfg.user_files) is None ==> (composition(
            cfg,
            shell,
            shell_sections,
            user_sections,
            exe,
            dir,
            d,
        ) matches Ok((_, deps)) && deps == cfg.user_files),
{
}

/// A section both the shell fragment and the user's baseline define is a
/// conflict only under the abort-on-conflict policy: there composing is
/// refused, while preserve-user and shell-wins compose the entrypoint with the
/// user's and the shell's frozen files as its dependencies.
pub proof fn law_shared_section_conflicts_only_when_asked(
    cfg: ConfigView,
    shell: Option<CandidateView>,
    shell_sections: Seq<Seq<char>>,
    user_sections: Seq<Seq<char>>,
    exe: Seq<char>,
    dir: Seq<char>,
    d: Seq<FileReadView>,
    shared: Seq<char>,
)
    requires
        shell matches Some(c) && c.lifecycle matches Some(l) && l.niri_fragment is Some,
        first_failure(d, cfg.user_files) is None,
        first_failure(d, shell->0.lifecycle->0.frozen) is None,
        !shell_sections.contains("spawn-at-startup"@),
        !shell_sections.contains("spawn-sh-at-startup"@),
        shell_sections.contains(shared),
        user_sections.contains(shared),
    ensures
        cfg.policy == Policy::AbortConflicts ==> composition(
            cfg,
            shell,
            shell_sections,
            user_sections,
            exe,
            dir,
            d,
        ) is Err,
        cfg.policy != Policy::AbortConflicts ==> (composition(
            cfg,
            shell,
            shell_sections,
            user_sections,
            exe,
            dir,
            d,
        ) matches Ok((_, deps)) && deps == cfg.user_files + shell->0.lifecycle->0.frozen),
{
    lemma_common_holds(shell_sections, user_sections, shared);
}

} // verus!
