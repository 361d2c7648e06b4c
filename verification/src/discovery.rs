//! Evidence-based discovery: what a file found under the scanned roots says
//! about a desktop shell. Declarations are recorded as evidence, never
//! executed, and a lifecycle comes only from an explicit manifest.
use crate::dup::{duplicate_option, duplicate_vec, Duplicate};
use crate::model::{
    fnv1a, hex16, stable_id, Backend, BackendView, Candidate, CandidateView, Kind, Session,
};
use crate::ownership::{Lifecycle, LifecycleView};
use crate::path::{file_name, file_name_of, join, join_path, parent, parent_of, untrail, last_slash, lemma_last_slash};
use crate::text::{
    append, chars_of, concat, has_sub, index_of, lemma_index_of, lines, lines_of, lowercase,
    same, split_chars, split_on, starts_with, str_contains, string_of, to_lowercase, trim,
    trim_chars,
};
use vstd::prelude::*;
use vstd::utf8::encode_utf8;
use vstd::string::StringSliceAdditionalSpecFns;

verus! {

/// What one discovery scan found: the session it ran in, the candidates in
/// listing order, its warnings and how many files it visited.
#[derive(Debug)]
pub struct Report {
    pub session: Session,
    pub candidates: Vec<Candidate>,
    pub warnings: Vec<String>,
    pub files_visited: usize,
}

pub open spec fn file_budget() -> nat {
    30000
}

pub open spec fn file_budget_message() -> Seq<char> {
    "Scan reached 30000-file budget; scan narrower --root paths"@
}

/// The warning a scan adds when it visited as many files as its budget allows.
pub fn file_budget_note(visited: usize) -> (r: Option<String>)
    ensures
        r is Some <==> visited >= file_budget(),
        r matches Some(w) ==> w@ == file_budget_message(),
{
    if visited >= 30000 {
        proof {
            reveal_strlit("Scan reached 30000-file budget; scan narrower --root paths");
        }
        Some("Scan reached 30000-file budget; scan narrower --root paths".to_string())
    } else {
        None
    }
}

// ------------------------------------------------------------ candidates

pub open spec fn review_reason() -> Seq<char> {
    "Lifecycle has not been established; add a shellswitch.toml manifest"@
}

/// A fresh candidate for `path`: identified by the path, nothing inferred yet,
/// and launchable only after review.
pub open spec fn base_of(path: Seq<char>, name: Seq<char>, framework: Seq<char>, kind: Kind) -> CandidateView {
    CandidateView {
        id: hex16(fnv1a(encode_utf8(path))),
        name,
        kind,
        framework,
        source: path,
        evidence: Seq::empty(),
        protocols: Seq::empty(),
        compositors: Seq::empty(),
        backend: BackendView::Review { reason: review_reason() },
        required_globals: Seq::empty(),
        lifecycle: None,
        declared: false,
        running_pids: Seq::empty(),
    }
}

/// A fresh candidate for `path` named `name`.
pub fn base(path: &str, name: String, framework: &str, kind: Kind) -> (c: Candidate)
    ensures
        c@ == base_of(path@, name@, framework@, kind),
{
    proof {
        reveal_strlit("Lifecycle has not been established; add a shellswitch.toml manifest");
    }
    let c = Candidate {
        id: stable_id(path),
        name,
        kind,
        framework: framework.to_string(),
        source: path.to_string(),
        evidence: Vec::new(),
        protocols: Vec::new(),
        compositors: Vec::new(),
        backend: Backend::Review {
            reason: "Lifecycle has not been established; add a shellswitch.toml manifest".to_string(),
        },
        required_globals: Vec::new(),
        lifecycle: None,
        declared: false,
        running_pids: Vec::new(),
    };
    assert(c@.evidence =~= Seq::<Seq<char>>::empty());
    assert(c@.protocols =~= Seq::<Seq<char>>::empty());
    assert(c@.compositors =~= Seq::<Seq<char>>::empty());
    assert(c@.required_globals =~= Seq::<Seq<char>>::empty());
    assert(c@.running_pids =~= Seq::<u32>::empty());
    c
}

// ------------------------------------------------------------ desktop entries

/// The section a line belongs to: the last `[...]` header before line `j`.
pub open spec fn section_at(ls: Seq<Seq<char>>, j: int) -> Seq<char>
    decreases j,
{
    if j <= 0 || j > ls.len() {
        Seq::empty()
    } else if starts_with(ls[j - 1], "["@) {
        ls[j - 1]
    } else {
        section_at(ls, j - 1)
    }
}

/// The `[Desktop Entry]` key `key` set on line `j`, if it is.
pub open spec fn sets_key(ls: Seq<Seq<char>>, j: int, key: Seq<char>) -> bool {
    let l = ls[j];
    !starts_with(l, "["@) && section_at(ls, j) == "[Desktop Entry]"@ && index_of(l, '=') >= 0
        && l.take(index_of(l, '=')) == key
}

/// The value of `key` in the `[Desktop Entry]` section among the first `j`
/// lines: the last assignment wins.
pub open spec fn entry_field(ls: Seq<Seq<char>>, key: Seq<char>, j: int) -> Option<Seq<char>>
    decreases j,
{
    if j <= 0 || j > ls.len() {
        None
    } else if sets_key(ls, j - 1, key) {
        Some(ls[j - 1].skip(index_of(ls[j - 1], '=') + 1))
    } else {
        entry_field(ls, key, j - 1)
    }
}

/// The trimmed lines of a desktop file.
pub open spec fn desktop_lines(text: Seq<char>) -> Seq<Seq<char>> {
    lines_of(text).map_values(|l: Seq<char>| trim(l))
}

pub open spec fn field_or(v: Option<Seq<char>>, d: Seq<char>) -> Seq<char> {
    match v {
        Some(x) => x,
        None => d,
    }
}

/// The lower-cased description a desktop entry is judged by.
pub open spec fn desktop_description(ls: Seq<Seq<char>>) -> Seq<char> {
    lowercase(
        field_or(entry_field(ls, "Name"@, ls.len() as int), ""@) + " "@ + field_or(
            entry_field(ls, "Comment"@, ls.len() as int),
            ""@,
        ) + " "@ + field_or(entry_field(ls, "Categories"@, ls.len() as int), ""@),
    )
}

/// The path lies in a display-manager session directory.
pub open spec fn session_path(path: Seq<char>) -> bool {
    split_on(path, '/').contains("wayland-sessions"@) || split_on(path, '/').contains("xsessions"@)
}

pub open spec fn session_reason() -> Seq<char> {
    "Desktop session; use your display manager. Never replace a live compositor from a panel switch."@
}

pub open spec fn metadata_reason() -> Seq<char> {
    "Desktop metadata alone cannot establish a shell or its lifecycle. Review Exec and add a manifest."@
}

/// What a desktop entry says: a session, or a shell-like entry to review.
/// Its `Exec` is evidence only; the backend always asks for review.
pub open spec fn desktop_of(path: Seq<char>, text: Seq<char>) -> Option<CandidateView> {
    let ls = desktop_lines(text);
    let desc = desktop_description(ls);
    let session = session_path(path);
    if entry_field(ls, "Hidden"@, ls.len() as int) == Some("true"@) {
        None
    } else if !session && !(has_sub(desc, "desktop shell"@) || has_sub(desc, "panel"@) || has_sub(
        desc,
        "dock"@,
    ) || has_sub(desc, "shell;"@)) {
        None
    } else {
        let b = base_of(
            path,
            field_or(entry_field(ls, "Name"@, ls.len() as int), "Unnamed desktop entry"@),
            "desktop-entry"@,
            if session {
                Kind::Session
            } else {
                Kind::Candidate
            },
        );
        Some(
            CandidateView {
                evidence: seq!["Desktop entry: "@ + desc] + match entry_field(
                    ls,
                    "Exec"@,
                    ls.len() as int,
                ) {
                    Some(e) => seq!["Declared Exec (not evaluated): "@ + e],
                    None => Seq::empty(),
                },
                backend: BackendView::Review {
                    reason: if session {
                        session_reason()
                    } else {
                        metadata_reason()
                    },
                },
                ..b
            },
        )
    }
}

fn chars_start_with(l: &Vec<char>, p: &str) -> (r: bool)
    ensures
        r == starts_with(l@, p@),
{
    let pc = chars_of(p);
    crate::text::starts_with_chars(l, &pc)
}

fn chars_equal(l: &Vec<char>, p: &str) -> (r: bool)
    ensures
        r == (l@ == p@),
{
    let s = string_of(l);
    same(s.as_str(), p)
}

fn eq_index(l: &Vec<char>) -> (r: Option<usize>)
    ensures
        match r {
            Some(k) => index_of(l@, '=') == k && k < l@.len(),
            None => index_of(l@, '=') == -1,
        },
{
    proof {
        crate::text::lemma_index_of(l@, '=');
    }
    let mut k: usize = 0;
    while k < l.len()
        invariant
            k <= l.len(),
            forall|j: int| 0 <= j < k ==> l@[j] != '=',
            -1 <= index_of(l@, '=') < l@.len(),
            index_of(l@, '=') >= 0 ==> l@[index_of(l@, '=')] == '=',
            forall|j: int| 0 <= j < l@.len() && (index_of(l@, '=') < 0 || j < index_of(l@, '=')) ==> l@[j] != '=',
        decreases l.len() - k,
    {
        if l[k] == '=' {
            return Some(k);
        }
        k += 1;
    }
    None
}

/// The value of `key` in the `[Desktop Entry]` section of the trimmed lines `ls`.
fn entry_value(ls: &Vec<Vec<char>>, key: &str) -> (r: Option<String>)
    ensures
        match r {
            Some(v) => entry_field(ls.deep_view(), key@, ls@.len() as int) == Some(v@),
            None => entry_field(ls.deep_view(), key@, ls@.len() as int) is None,
        },
{
    proof {
        reveal_strlit("[");
        reveal_strlit("[Desktop Entry]");
    }
    let ghost lv = ls.deep_view();
    let mut section: Vec<char> = Vec::new();
    let mut found: Option<String> = None;
    let mut j: usize = 0;
    while j < ls.len()
        invariant
            j <= ls.len(),
            lv == ls.deep_view(),
            section@ == section_at(lv, j as int),
            match found {
                Some(v) => entry_field(lv, key@, j as int) == Some(v@),
                None => entry_field(lv, key@, j as int) is None,
            },
        decreases ls.len() - j,
    {
        let l = &ls[j];
        assert(lv[j as int] == l@);
        if chars_start_with(l, "[") {
            section = l.clone();
            assert(section@ =~= l@);
        } else if chars_equal(&section, "[Desktop Entry]") {
            if let Some(k) = eq_index(l) {
                let name = string_of(&l.as_slice().split_at(k).0);
                proof {
                    assert(name@ =~= l@.take(k as int));
                }
                if same(name.as_str(), key) {
                    let n = l.len();
                    assert(k < n);
                    let mut v = String::new();
                    let mut t = k + 1;
                    while t < l.len()
                        invariant
                            k + 1 <= t <= l@.len(),
                            v@ == l@.subrange(k + 1, t as int),
                        decreases l.len() - t,
                    {
                        crate::text::push_char(&mut v, l[t]);
                        t += 1;
                        assert(v@ =~= l@.subrange(k + 1, t as int));
                    }
                    assert(v@ =~= l@.skip(k + 1));
                    found = Some(v);
                }
            }
        }
        j += 1;
    }
    found
}

fn desktop_lines_of(text: &str) -> (r: Vec<Vec<char>>)
    ensures
        r.deep_view() == desktop_lines(text@),
{
    let cs = chars_of(text);
    let ls = lines(&cs);
    let mut out: Vec<Vec<char>> = Vec::new();
    let mut k: usize = 0;
    while k < ls.len()
        invariant
            k <= ls@.len(),
            cs@ == text@,
            ls@.len() == lines_of(cs@).len(),
            forall|j: int| 0 <= j < ls@.len() ==> #[trigger] ls@[j]@ == lines_of(cs@)[j],
            out@.len() == k,
            forall|j: int| 0 <= j < k ==> #[trigger] out@[j]@ == trim(lines_of(text@)[j]),
        decreases ls.len() - k,
    {
        let t = trim_chars(&ls[k]);
        out.push(t);
        k += 1;
    }
    assert forall|j: int| 0 <= j < out@.len() implies #[trigger] out.deep_view()[j] == desktop_lines(
        text@,
    )[j] by {
        assert(out@[j].deep_view() =~= out@[j]@);
    }
    assert(out.deep_view() =~= desktop_lines(text@));
    out
}

fn contains_any_of_four(desc: &str) -> (r: bool)
    ensures
        r == (has_sub(desc@, "desktop shell"@) || has_sub(desc@, "panel"@) || has_sub(desc@, "dock"@)
            || has_sub(desc@, "shell;"@)),
{
    str_contains(desc, "desktop shell") || str_contains(desc, "panel") || str_contains(desc, "dock")
        || str_contains(desc, "shell;")
}

fn in_session_dir(path: &str) -> (r: bool)
    ensures
        r == session_path(path@),
{
    let cs = chars_of(path);
    let parts = split_chars(&cs, '/');
    let mut k: usize = 0;
    let mut found = false;
    while k < parts.len()
        invariant
            k <= parts@.len(),
            cs@ == path@,
            parts@.len() == split_on(cs@, '/').len(),
            forall|j: int| 0 <= j < parts@.len() ==> #[trigger] parts@[j]@ == split_on(cs@, '/')[j],
            found == exists|j: int| 0 <= j < k && (split_on(path@, '/')[j] == "wayland-sessions"@
                || split_on(path@, '/')[j] == "xsessions"@),
        decreases parts.len() - k,
    {
        let hit = chars_equal(&parts[k], "wayland-sessions") || chars_equal(&parts[k], "xsessions");
        if hit {
            found = true;
        }
        k += 1;
    }
    proof {
        let sp = split_on(path@, '/');
        if found {
            let j = choose|j: int| 0 <= j < k && (sp[j] == "wayland-sessions"@ || sp[j] == "xsessions"@);
            if sp[j] == "wayland-sessions"@ {
                assert(sp.contains("wayland-sessions"@));
            } else {
                assert(sp.contains("xsessions"@));
            }
        } else {
            if sp.contains("wayland-sessions"@) {
                let j = choose|j: int| 0 <= j < sp.len() && sp[j] == "wayland-sessions"@;
                assert(sp[j] == "wayland-sessions"@);
            }
            if sp.contains("xsessions"@) {
                let j = choose|j: int| 0 <= j < sp.len() && sp[j] == "xsessions"@;
                assert(sp[j] == "xsessions"@);
            }
        }
    }
    found
}

/// Reads a desktop entry at `path`: a session or a shell-like entry to review,
/// or nothing when hidden or unrelated.
pub fn desktop(path: &str, text: &str) -> (r: Option<Candidate>)
    ensures
        match r {
            Some(c) => desktop_of(path@, text@) == Some(c@),
            None => desktop_of(path@, text@) is None,
        },
{
    proof {
        reveal_strlit(" ");
        reveal_strlit("");
        reveal_strlit("true");
        reveal_strlit("Desktop entry: ");
        reveal_strlit("Declared Exec (not evaluated): ");
        reveal_strlit(
            "Desktop session; use your display manager. Never replace a live compositor from a panel switch.",
        );
        reveal_strlit(
            "Desktop metadata alone cannot establish a shell or its lifecycle. Review Exec and add a manifest.",
        );
    }
    let ls = desktop_lines_of(text);
    let ghost lv = ls.deep_view();
    assert(ls@.len() == lv.len());
    if let Some(h) = entry_value(&ls, "Hidden") {
        if same(h.as_str(), "true") {
            return None;
        }
    }
    let session = in_session_dir(path);
    let name = entry_value(&ls, "Name");
    let comment = entry_value(&ls, "Comment");
    let categories = entry_value(&ls, "Categories");
    let mut d = match &name {
        Some(x) => x.clone(),
        None => String::new(),
    };
    append(&mut d, " ");
    match &comment {
        Some(x) => append(&mut d, x.as_str()),
        None => {},
    }
    append(&mut d, " ");
    match &categories {
        Some(x) => append(&mut d, x.as_str()),
        None => {},
    }
    let desc = to_lowercase(d.as_str());
    assert(desc@ == desktop_description(lv));
    if !session && !contains_any_of_four(desc.as_str()) {
        return None;
    }
    let title = match name {
        Some(x) => x,
        None => "Unnamed desktop entry".to_string(),
    };
    let mut c = base(
        path,
        title,
        "desktop-entry",
        if session {
            Kind::Session
        } else {
            Kind::Candidate
        },
    );
    c.evidence.push(concat("Desktop entry: ", desc.as_str()));
    if let Some(exec) = entry_value(&ls, "Exec") {
        c.evidence.push(concat("Declared Exec (not evaluated): ", exec.as_str()));
    }
    c.backend = Backend::Review {
        reason: if session {
            "Desktop session; use your display manager. Never replace a live compositor from a panel switch.".to_string()
        } else {
            "Desktop metadata alone cannot establish a shell or its lifecycle. Review Exec and add a manifest.".to_string()
        },
    };
    assert(c@.evidence =~= desktop_of(path@, text@)->0.evidence);
    Some(c)
}


// ------------------------------------------------------------ source capabilities

/// Some needle occurs in `s`.
pub open spec fn mentions_any(s: Seq<char>, needles: Seq<Seq<char>>) -> bool {
    exists|k: int| 0 <= k < needles.len() && has_sub(s, #[trigger] needles[k])
}

fn mentions(s: &str, needles: &[&str]) -> (r: bool)
    ensures
        r == mentions_any(s@, needles@.map_values(|x: &str| x@)),
{
    let ghost nv = needles@.map_values(|x: &str| x@);
    let mut k: usize = 0;
    while k < needles.len()
        invariant
            k <= needles@.len(),
            nv == needles@.map_values(|x: &str| x@),
            forall|j: int| 0 <= j < k ==> !has_sub(s@, #[trigger] nv[j]),
        decreases needles.len() - k,
    {
        if str_contains(s, needles[k]) {
            assert(has_sub(s@, nv[k as int]));
            return true;
        }
        k += 1;
    }
    false
}

pub open spec fn surface_needles() -> Seq<Seq<char>> {
    seq!["panelwindow"@, "layershell"@, "layer_shell"@, "layer-shell"@, "astal.window"@, "exclusivity"@, ":exclusive"@]
}

pub open spec fn tray_needles() -> Seq<Seq<char>> {
    seq!["systemtray"@, "system_tray"@, "statusnotifier"@, "astaltray"@]
}

pub open spec fn workspace_needles() -> Seq<Seq<char>> {
    seq!["workspaces"@, "hyprland"@, "niri msg"@, "swaymsg"@]
}

pub open spec fn notification_needles() -> Seq<Seq<char>> {
    seq!["notificationserver"@, "astalnotifd"@, "notifications"@]
}

pub open spec fn launcher_needles() -> Seq<Seq<char>> {
    seq!["desktopentries"@, "astalapps"@, "applications"@]
}

pub open spec fn hyprland_needles() -> Seq<Seq<char>> {
    seq!["quickshell.hyprland"@, "hyprctl"@, "gi://astalhyprland"@]
}

pub open spec fn niri_needles() -> Seq<Seq<char>> {
    seq!["niri msg"@, "niri\", \"msg"@, "niri', 'msg"@]
}

pub open spec fn sway_needles() -> Seq<Seq<char>> {
    seq!["swaymsg"@, "swaysock"@]
}

/// `x` when `b` holds.
pub open spec fn when(b: bool, x: Seq<char>) -> Seq<Seq<char>> {
    if b {
        seq![x]
    } else {
        Seq::empty()
    }
}

pub open spec fn compositor_note(wm: Seq<char>) -> Seq<char> {
    "Compositor API reference: "@ + wm + " (inferred constraint; manifest can override)"@
}

/// The capabilities a candidate's source references, as evidence.
pub open spec fn feature_evidence(s: Seq<char>) -> Seq<Seq<char>> {
    when(mentions_any(s, surface_needles()), "Source references panel/layer surface"@)
        + when(mentions_any(s, tray_needles()), "Source references system tray"@)
        + when(mentions_any(s, workspace_needles()), "Source references workspace integration"@)
        + when(mentions_any(s, notification_needles()), "Source references notifications"@)
        + when(mentions_any(s, launcher_needles()), "Source references launcher"@)
}

/// The compositor APIs a candidate's source calls, as evidence.
pub open spec fn compositor_evidence(s: Seq<char>) -> Seq<Seq<char>> {
    when(mentions_any(s, hyprland_needles()), compositor_note("hyprland"@))
        + when(mentions_any(s, niri_needles()), compositor_note("niri"@))
        + when(mentions_any(s, sway_needles()), compositor_note("sway"@))
}

/// The evidence a candidate's source adds: the capabilities it references,
/// then the compositor APIs it calls.
pub open spec fn capability_evidence(s: Seq<char>) -> Seq<Seq<char>> {
    feature_evidence(s) + compositor_evidence(s)
}

/// `set` with `x` added when `b` holds and `x` is not yet present.
pub open spec fn member_if(set: Seq<Seq<char>>, b: bool, x: Seq<char>) -> Seq<Seq<char>> {
    if b {
        crate::wayland::with_member(set, x)
    } else {
        set
    }
}

/// The compositors of `set` and those the source `s` calls into.
pub open spec fn with_compositor_refs(set: Seq<Seq<char>>, s: Seq<char>) -> Seq<Seq<char>> {
    member_if(
        member_if(member_if(set, mentions_any(s, hyprland_needles()), "hyprland"@), mentions_any(s, niri_needles()), "niri"@),
        mentions_any(s, sway_needles()),
        "sway"@,
    )
}

fn add_member(set: &mut Vec<String>, x: &str)
    ensures
        final(set).deep_view() == crate::wayland::with_member(old(set).deep_view(), x@),
{
    if !crate::text::contains_string(set, x) {
        let ghost before = set.deep_view();
        set.push(x.to_string());
        assert(set.deep_view() =~= before.push(x@));
    }
}

fn note(c: &mut Candidate, b: bool, x: &str)
    ensures
        final(c)@ == (CandidateView { evidence: old(c)@.evidence + when(b, x@), ..old(c)@ }),
{
    if b {
        let ghost before = c.evidence.deep_view();
        c.evidence.push(x.to_string());
        assert(c.evidence.deep_view() =~= before + when(b, x@));
    } else {
        assert(c.evidence.deep_view() =~= c.evidence.deep_view() + when(b, x@));
    }
}

fn compositor(c: &mut Candidate, b: bool, wm: &str)
    ensures
        final(c)@ == (CandidateView {
            evidence: old(c)@.evidence + when(b, compositor_note(wm@)),
            compositors: if b {
                crate::wayland::with_member(old(c)@.compositors, wm@)
            } else {
                old(c)@.compositors
            },
            ..old(c)@
        }),
{
    proof {
        reveal_strlit("Compositor API reference: ");
        reveal_strlit(" (inferred constraint; manifest can override)");
    }
    if b {
        add_member(&mut c.compositors, wm);
        let m = concat("Compositor API reference: ", wm);
        let m = concat(m.as_str(), " (inferred constraint; manifest can override)");
        let ghost before = c.evidence.deep_view();
        c.evidence.push(m);
        assert(c.evidence.deep_view() =~= before + when(b, compositor_note(wm@)));
    } else {
        assert(c.evidence.deep_view() =~= c.evidence.deep_view() + when(b, compositor_note(wm@)));
    }
}

fn note_features(c: &mut Candidate, t: &str)
    ensures
        final(c)@ == (CandidateView {
            evidence: old(c)@.evidence + feature_evidence(t@),
            ..old(c)@
        }),
{
    let surface = ["panelwindow", "layershell", "layer_shell", "layer-shell", "astal.window", "exclusivity", ":exclusive"];
    let tray = ["systemtray", "system_tray", "statusnotifier", "astaltray"];
    let workspace = ["workspaces", "hyprland", "niri msg", "swaymsg"];
    let notifications = ["notificationserver", "astalnotifd", "notifications"];
    let launcher = ["desktopentries", "astalapps", "applications"];
    assert(surface@.map_values(|x: &str| x@) =~= surface_needles());
    assert(tray@.map_values(|x: &str| x@) =~= tray_needles());
    assert(workspace@.map_values(|x: &str| x@) =~= workspace_needles());
    assert(notifications@.map_values(|x: &str| x@) =~= notification_needles());
    assert(launcher@.map_values(|x: &str| x@) =~= launcher_needles());
    let ghost c0 = c@;
    let a = mentions(t, &surface);
    let b = mentions(t, &tray);
    let d = mentions(t, &workspace);
    let e = mentions(t, &notifications);
    let f = mentions(t, &launcher);
    note(c, a, "Source references panel/layer surface");
    note(c, b, "Source references system tray");
    note(c, d, "Source references workspace integration");
    note(c, e, "Source references notifications");
    note(c, f, "Source references launcher");
    assert(c@.evidence =~= c0.evidence + feature_evidence(t@));
}

fn note_compositors(c: &mut Candidate, t: &str)
    ensures
        final(c)@ == (CandidateView {
            evidence: old(c)@.evidence + compositor_evidence(t@),
            compositors: with_compositor_refs(old(c)@.compositors, t@),
            ..old(c)@
        }),
{
    let hypr = ["quickshell.hyprland", "hyprctl", "gi://astalhyprland"];
    let niri = ["niri msg", "niri\", \"msg", "niri', 'msg"];
    let sway = ["swaymsg", "swaysock"];
    assert(hypr@.map_values(|x: &str| x@) =~= hyprland_needles());
    assert(niri@.map_values(|x: &str| x@) =~= niri_needles());
    assert(sway@.map_values(|x: &str| x@) =~= sway_needles());
    let h = mentions(t, &hypr);
    let n = mentions(t, &niri);
    let w = mentions(t, &sway);
    let ghost c0 = c@;
    compositor(c, h, "hyprland");
    compositor(c, n, "niri");
    compositor(c, w, "sway");
    assert(c@.evidence =~= c0.evidence + compositor_evidence(t@));
}

/// Records what the (lower-cased) source text of `c` references: capabilities
/// as evidence, and called compositor APIs as inferred constraints.
pub fn capabilities(c: &mut Candidate, source: &str)
    ensures
        final(c)@ == (CandidateView {
            evidence: old(c)@.evidence + capability_evidence(lowercase(source@)),
            compositors: with_compositor_refs(old(c)@.compositors, lowercase(source@)),
            ..old(c)@
        }),
{
    let s = to_lowercase(source);
    let ghost c0 = c@;
    note_features(c, s.as_str());
    note_compositors(c, s.as_str());
    assert(c@.evidence =~= c0.evidence + capability_evidence(s@));
}


// ------------------------------------------------------------ names

/// The last component of `p`, or the empty string.
pub open spec fn name_or_empty(p: Seq<char>) -> Seq<char> {
    field_or(file_name(p), Seq::empty())
}

pub proof fn lemma_untrail(p: Seq<char>)
    ensures
        untrail(p).len() <= p.len(),
        p.len() > 0 ==> untrail(p).len() > 0,
    decreases p.len(),
{
    if p.len() > 1 && p.last() == '/' {
        lemma_untrail(p.drop_last());
    }
}

/// A parent path is shorter than the path.
pub proof fn lemma_parent_shorter(p: Seq<char>)
    ensures
        parent(p) matches Some(a) ==> a.len() < p.len(),
{
    lemma_untrail(p);
    let q = untrail(p);
    lemma_last_slash(q);
    if q.len() == 1 && q[0] == '/' {
        assert(q =~= seq!['/']);
    }
}

/// Directory names that say nothing about which shell a tree holds.
pub open spec fn generic_dir(n: Seq<char>) -> bool {
    n.len() == 0 || n == "src"@ || n == "config"@ || n == ".config"@ || n == "shell"@ || n == "share"@
}

/// The first ancestor above `p` whose name is not generic.
pub open spec fn meaningful_ancestor(p: Seq<char>) -> Option<Seq<char>>
    decreases p.len(),
{
    match parent(p) {
        None => None,
        Some(a) => {
            proof {
                lemma_parent_shorter(p);
            }
            if !generic_dir(name_or_empty(a)) {
                Some(name_or_empty(a))
            } else {
                meaningful_ancestor(a)
            }
        },
    }
}

/// The display name of a shell found at entry file `path`: its directory's
/// name; for a `quickshell` directory, the default configuration's label or
/// the first meaningful ancestor's name. `config_home` is the configuration
/// directory the default lives in.
pub open spec fn folder_name_of(path: Seq<char>, config_home: Seq<char>) -> Seq<char> {
    let q = field_or(parent(path), path);
    let name = name_or_empty(q);
    if name == "quickshell"@ {
        if q == join(config_home, "quickshell"@) {
            "Quickshell · default"@
        } else {
            field_or(meaningful_ancestor(q), name)
        }
    } else {
        name
    }
}

fn name_of(p: &str) -> (r: String)
    ensures
        r@ == name_or_empty(p@),
{
    match file_name_of(p) {
        Some(n) => n,
        None => String::new(),
    }
}

fn generic_name(n: &str) -> (r: bool)
    ensures
        r == generic_dir(n@),
{
    proof {
        reveal_strlit("");
    }
    chars_of(n).len() == 0 || same(n, "src") || same(n, "config") || same(n, ".config") || same(n, "shell")
        || same(n, "share")
}

/// The display name of a shell found at entry file `path`.
pub fn folder_name(path: &str, config_home: &str) -> (r: String)
    ensures
        r@ == folder_name_of(path@, config_home@),
{
    proof {
        reveal_strlit("quickshell");
        reveal_strlit("Quickshell · default");
    }
    let q = match parent_of(path) {
        Some(q) => q,
        None => path.to_string(),
    };
    let name = name_of(q.as_str());
    if !same(name.as_str(), "quickshell") {
        return name;
    }
    let default = join_path(config_home, "quickshell");
    if same(q.as_str(), default.as_str()) {
        return "Quickshell · default".to_string();
    }
    let ghost q0 = q@;
    let mut cur = q;
    loop
        invariant
            q0 == field_or(parent(path@), path@),
            name@ == name_or_empty(q0),
            name@ == "quickshell"@,
            q0 != join(config_home@, "quickshell"@),
            meaningful_ancestor(cur@) == meaningful_ancestor(q0),
        decreases cur@.len(),
    {
        proof {
            lemma_parent_shorter(cur@);
        }
        match parent_of(cur.as_str()) {
            None => {
                return name;
            },
            Some(a) => {
                let n = name_of(a.as_str());
                if !generic_name(n.as_str()) {
                    return n;
                }
                cur = a;
            },
        }
    }
}

// ------------------------------------------------------------ manifests

/// A local shell manifest as parsed: the declaration a user wrote for a shell.
#[derive(Debug)]
pub struct Manifest {
    pub name: String,
    pub id: Option<String>,
    pub lifecycle: Option<Lifecycle>,
    pub kind: Kind,
    pub protocols: Vec<String>,
    pub compositors: Vec<String>,
    pub argv: Vec<String>,
    pub cwd: Option<String>,
    pub systemd_unit: Option<String>,
    pub required_globals: Vec<String>,
}

pub struct ManifestView {
    pub name: Seq<char>,
    pub id: Option<Seq<char>>,
    pub lifecycle: Option<LifecycleView>,
    pub kind: Kind,
    pub protocols: Seq<Seq<char>>,
    pub compositors: Seq<Seq<char>>,
    pub argv: Seq<Seq<char>>,
    pub cwd: Option<Seq<char>>,
    pub systemd_unit: Option<Seq<char>>,
    pub required_globals: Seq<Seq<char>>,
}

impl View for Manifest {
    type V = ManifestView;

    open spec fn view(&self) -> ManifestView {
        ManifestView {
            name: self.name@,
            id: self.id.deep_view(),
            lifecycle: self.lifecycle.deep_view(),
            kind: self.kind,
            protocols: self.protocols.deep_view(),
            compositors: self.compositors.deep_view(),
            argv: self.argv.deep_view(),
            cwd: self.cwd.deep_view(),
            systemd_unit: self.systemd_unit.deep_view(),
            required_globals: self.required_globals.deep_view(),
        }
    }
}

pub open spec fn empty_name_message() -> Seq<char> {
    "Manifest name cannot be empty"@
}

pub open spec fn launch_choice_message() -> Seq<char> {
    "Specify exactly one of argv or systemd_unit"@
}

pub open spec fn invalid_id_message() -> Seq<char> {
    "Invalid shell id"@
}

pub open spec fn service_names_message() -> Seq<char> {
    "Expected dedicated user .service names"@
}

pub open spec fn matcher_message() -> Seq<char> {
    "Process matcher requires an absolute executable plus exact identifying arguments"@
}

pub open spec fn gate_path_message() -> Seq<char> {
    "CLI gate paths must be absolute"@
}

pub open spec fn route_message() -> Seq<char> {
    "CLI routes require a non-empty prefix and argv"@
}

pub open spec fn unit_name_message() -> Seq<char> {
    "Expected a user .service unit name"@
}

pub open spec fn declared_evidence() -> Seq<char> {
    "Explicit local shell manifest; declaration is not independent verification"@
}

/// A dedicated user service unit name.
pub open spec fn unit_ok(u: Seq<char>) -> bool {
    crate::text::ends_with(u, ".service"@) && !starts_with(u, "-"@) && !u.contains('/') && !(exists|k: int|
        0 <= k < u.len() && crate::text::whitespace(#[trigger] u[k]))
}

/// A shell id of ASCII letters, digits, `-` and `_`.
pub open spec fn id_char(c: char) -> bool {
    ('a' <= c <= 'z') || ('A' <= c <= 'Z') || ('0' <= c <= '9') || c == '-' || c == '_'
}

pub open spec fn id_ok(id: Seq<char>) -> bool {
    id.len() > 0 && forall|k: int| 0 <= k < id.len() ==> id_char(#[trigger] id[k])
}

/// A route forwards a non-empty prefix to a non-empty argv.
pub open spec fn route_ok(r: crate::ownership::RouteView) -> bool {
    r.prefix.len() > 0 && r.argv.len() > 0
}

/// A process matcher names an absolute executable and at least one argument.
pub open spec fn matcher_ok(p: crate::ownership::ProcessMatchView) -> bool {
    p.argv_prefix.len() >= 2 && crate::path::absolute(p.argv_prefix[0])
}

/// The first reason a declared lifecycle is refused, if any.
pub open spec fn lifecycle_refusal(l: LifecycleView) -> Option<Seq<char>> {
    if exists|k: int| 0 <= k < l.services.len() && !unit_ok(#[trigger] l.services[k]) {
        Some(service_names_message())
    } else if exists|k: int| 0 <= k < l.processes.len() && !matcher_ok(#[trigger] l.processes[k]) {
        Some(matcher_message())
    } else {
        commands_refusal(l.commands)
    }
}

/// The first refused gate or route, in declaration order.
pub open spec fn commands_refusal(cmds: Seq<crate::ownership::CommandGateView>) -> Option<Seq<char>>
    decreases cmds.len(),
{
    if cmds.len() == 0 {
        None
    } else {
        match commands_refusal(cmds.drop_last()) {
            Some(e) => Some(e),
            None => {
                let g = cmds.last();
                if !crate::path::absolute(g.path) {
                    Some(gate_path_message())
                } else if exists|k: int| 0 <= k < g.routes.len() && !route_ok(#[trigger] g.routes[k]) {
                    Some(route_message())
                } else {
                    None
                }
            },
        }
    }
}

/// A relative Niri fragment is taken from the manifest's directory.
pub open spec fn anchored(l: LifecycleView, dir: Seq<char>) -> LifecycleView {
    LifecycleView {
        niri_fragment: match l.niri_fragment {
            Some(p) => if crate::path::absolute(p) {
                Some(p)
            } else {
                Some(join(dir, p))
            },
            None => None,
        },
        ..l
    }
}

/// The backend a manifest declares: its user unit, or its argv run from its
/// working directory (relative to the manifest), a leading `./` program
/// resolved against that directory.
pub open spec fn declared_backend(m: ManifestView, dir: Seq<char>) -> BackendView {
    match m.systemd_unit {
        Some(unit) => BackendView::Systemd { unit },
        None => {
            let cwd = match m.cwd {
                Some(p) => if crate::path::absolute(p) {
                    p
                } else {
                    join(dir, p)
                },
                None => dir,
            };
            let argv = if starts_with(m.argv[0], "."@) {
                m.argv.update(0, join(cwd, m.argv[0]))
            } else {
                m.argv
            };
            BackendView::Process { argv, cwd }
        },
    }
}

/// The candidate a manifest at `path` declares, or why it is refused.
pub open spec fn manifest_of(path: Seq<char>, m: ManifestView) -> Result<CandidateView, Seq<char>> {
    let dir = parent(path)->0;
    if trim(m.name).len() == 0 {
        Err(empty_name_message())
    } else if (m.argv.len() == 0) == (m.systemd_unit is None) {
        Err(launch_choice_message())
    } else if m.id matches Some(id) && !id_ok(id) {
        Err(invalid_id_message())
    } else if m.lifecycle is Some && lifecycle_refusal(anchored(m.lifecycle->0, dir)) is Some {
        Err(lifecycle_refusal(anchored(m.lifecycle->0, dir))->0)
    } else if m.systemd_unit matches Some(u) && !unit_ok(u) {
        Err(unit_name_message())
    } else {
        let b = base_of(path, m.name, "manifest"@, m.kind);
        Ok(
            CandidateView {
                id: match m.id {
                    Some(id) => id,
                    None => b.id,
                },
                lifecycle: match m.lifecycle {
                    Some(l) => Some(anchored(l, dir)),
                    None => None,
                },
                required_globals: m.required_globals,
                declared: true,
                protocols: m.protocols,
                compositors: m.compositors,
                evidence: seq![declared_evidence()],
                backend: declared_backend(m, dir),
                ..b
            },
        )
    }
}

fn unit_name_ok(u: &str) -> (r: bool)
    ensures
        r == unit_ok(u@),
{
    if !crate::text::str_ends_with(u, ".service") || crate::text::str_starts_with(u, "-")
        || crate::text::has_char(u, '/') {
        return false;
    }
    let cs = chars_of(u);
    let mut k: usize = 0;
    while k < cs.len()
        invariant
            k <= cs@.len(),
            cs@ == u@,
            forall|j: int| 0 <= j < k ==> !crate::text::whitespace(#[trigger] u@[j]),
        decreases cs.len() - k,
    {
        if crate::text::is_whitespace(cs[k]) {
            assert(crate::text::whitespace(u@[k as int]));
            return false;
        }
        k += 1;
    }
    true
}

fn id_valid(id: &str) -> (r: bool)
    ensures
        r == id_ok(id@),
{
    let cs = chars_of(id);
    if cs.len() == 0 {
        return false;
    }
    let mut k: usize = 0;
    while k < cs.len()
        invariant
            k <= cs@.len(),
            cs@ == id@,
            forall|j: int| 0 <= j < k ==> id_char(#[trigger] id@[j]),
        decreases cs.len() - k,
    {
        let c = cs[k];
        if !(('a' <= c && c <= 'z') || ('A' <= c && c <= 'Z') || ('0' <= c && c <= '9') || c == '-'
            || c == '_') {
            assert(!id_char(id@[k as int]));
            return false;
        }
        k += 1;
    }
    true
}

fn routes_ok(routes: &Vec<crate::ownership::Route>) -> (r: bool)
    ensures
        r == !(exists|k: int| 0 <= k < routes.deep_view().len() && !route_ok(#[trigger] routes.deep_view()[k])),
{
    let mut k: usize = 0;
    while k < routes.len()
        invariant
            k <= routes.len(),
            forall|j: int| 0 <= j < k ==> route_ok(#[trigger] routes.deep_view()[j]),
        decreases routes.len() - k,
    {
        assert(routes.deep_view()[k as int] == routes@[k as int]@);
        assert(routes.deep_view()[k as int].prefix.len() == routes[k as int].prefix.len());
        assert(routes.deep_view()[k as int].argv.len() == routes[k as int].argv.len());
        if routes[k].prefix.len() == 0 || routes[k].argv.len() == 0 {
            return false;
        }
        k += 1;
    }
    true
}

fn commands_ok(cmds: &Vec<crate::ownership::CommandGate>) -> (r: Option<String>)
    ensures
        match r {
            Some(e) => commands_refusal(cmds.deep_view()) == Some(e@),
            None => commands_refusal(cmds.deep_view()) is None,
        },
{
    proof {
        reveal_strlit("CLI gate paths must be absolute");
        reveal_strlit("CLI routes require a non-empty prefix and argv");
    }
    let ghost cv = cmds.deep_view();
    let mut i: usize = 0;
    assert(cv.take(0) =~= Seq::<crate::ownership::CommandGateView>::empty());
    while i < cmds.len()
        invariant
            i <= cmds.len(),
            cv == cmds.deep_view(),
            commands_refusal(cv.take(i as int)) is None,
        decreases cmds.len() - i,
    {
        let g = &cmds[i];
        proof {
            let w = cv.take(i + 1);
            assert(w.drop_last() =~= cv.take(i as int));
            assert(w.last() == g@);
        }
        if !crate::path::is_absolute(g.path.as_str()) {
            proof {
                lemma_commands_refusal(cv, i + 1);
            }
            return Some("CLI gate paths must be absolute".to_string());
        }
        if !routes_ok(&g.routes) {
            proof {
                let k0 = choose|k: int|
                    0 <= k < g.routes.deep_view().len() && !route_ok(#[trigger] g.routes.deep_view()[k]);
                assert(!route_ok(g@.routes[k0]));
                assert(cv.take(i + 1).last() == g@);
                assert(commands_refusal(cv.take(i + 1)) == Some(route_message()));
                lemma_commands_refusal(cv, i + 1);
            }
            return Some("CLI routes require a non-empty prefix and argv".to_string());
        }
        i += 1;
    }
    assert(cv.take(i as int) =~= cv);
    None
}

/// A refusal among the first `k` gates is the refusal of all of them.
pub proof fn lemma_commands_refusal(cmds: Seq<crate::ownership::CommandGateView>, k: int)
    requires
        0 <= k <= cmds.len(),
        commands_refusal(cmds.take(k)) is Some,
    ensures
        commands_refusal(cmds) == commands_refusal(cmds.take(k)),
    decreases cmds.len() - k,
{
    if k < cmds.len() {
        assert(cmds.take(k + 1).drop_last() =~= cmds.take(k));
        lemma_commands_refusal(cmds, k + 1);
    } else {
        assert(cmds.take(k) =~= cmds);
    }
}

fn lifecycle_ok(l: &Lifecycle) -> (r: Option<String>)
    ensures
        match r {
            Some(e) => lifecycle_refusal(l@) == Some(e@),
            None => lifecycle_refusal(l@) is None,
        },
{
    proof {
        reveal_strlit("Expected dedicated user .service names");
        reveal_strlit(
            "Process matcher requires an absolute executable plus exact identifying arguments",
        );
    }
    let mut k: usize = 0;
    while k < l.services.len()
        invariant
            k <= l.services.len(),
            forall|j: int| 0 <= j < k ==> unit_ok(#[trigger] l@.services[j]),
        decreases l.services.len() - k,
    {
        assert(l@.services[k as int] == l.services@[k as int]@);
        if !unit_name_ok(l.services[k].as_str()) {
            return Some("Expected dedicated user .service names".to_string());
        }
        k += 1;
    }
    let mut k: usize = 0;
    while k < l.processes.len()
        invariant
            k <= l.processes.len(),
            forall|j: int| 0 <= j < l@.services.len() ==> unit_ok(#[trigger] l@.services[j]),
            forall|j: int| 0 <= j < k ==> matcher_ok(#[trigger] l@.processes[j]),
        decreases l.processes.len() - k,
    {
        let p = &l.processes[k];
        assert(l@.processes[k as int] == p@);
        let ok = p.argv_prefix.len() >= 2 && crate::path::is_absolute(p.argv_prefix[0].as_str());
        proof {
            if p.argv_prefix.len() >= 2 {
                assert(p@.argv_prefix[0] == p.argv_prefix@[0]@);
            }
        }
        if !ok {
            assert(!matcher_ok(l@.processes[k as int]));
            return Some(
                "Process matcher requires an absolute executable plus exact identifying arguments".to_string(),
            );
        }
        k += 1;
    }
    commands_ok(&l.commands)
}


/// Builds the candidate a parsed manifest at `path` declares, refusing names,
/// ids, unit names, process matchers and gates that do not fit.
pub fn manifest(path: &str, m: Manifest) -> (r: Result<Candidate, String>)
    requires
        parent(path@) is Some,
    ensures
        match (r, manifest_of(path@, m@)) {
            (Ok(c), Ok(v)) => c@ == v,
            (Err(e), Err(w)) => e@ == w,
            _ => false,
        },
{
    proof {
        reveal_strlit("Manifest name cannot be empty");
        reveal_strlit("Specify exactly one of argv or systemd_unit");
        reveal_strlit("Invalid shell id");
        reveal_strlit("Expected a user .service unit name");
        reveal_strlit("Explicit local shell manifest; declaration is not independent verification");
        reveal_strlit(".");
    }
    let ghost mv = m@;
    let dir = match parent_of(path) {
        Some(d) => d,
        None => {
            return Err("Manifest has no parent".to_string());
        },
    };
    let Manifest {
        name,
        id,
        lifecycle,
        kind,
        protocols,
        compositors,
        argv,
        cwd,
        systemd_unit,
        required_globals,
    } = m;
    let nc = chars_of(name.as_str());
    if trim_chars(&nc).len() == 0 {
        return Err("Manifest name cannot be empty".to_string());
    }
    if (argv.len() == 0) == systemd_unit.is_none() {
        return Err("Specify exactly one of argv or systemd_unit".to_string());
    }
    if let Some(x) = &id {
        if !id_valid(x.as_str()) {
            return Err("Invalid shell id".to_string());
        }
    }
    let mut lc = lifecycle;
    if let Some(l) = &mut lc {
        let anchored_fragment = match &l.niri_fragment {
            Some(p) => if crate::path::is_absolute(p.as_str()) {
                Some(p.clone())
            } else {
                Some(join_path(dir.as_str(), p.as_str()))
            },
            None => None,
        };
        l.niri_fragment = anchored_fragment;
        if let Some(e) = lifecycle_ok(l) {
            return Err(e);
        }
    }
    assert(lc.deep_view() == match mv.lifecycle {
        Some(l) => Some(anchored(l, dir@)),
        None => None,
    });
    if let Some(u) = &systemd_unit {
        if !unit_name_ok(u.as_str()) {
            return Err("Expected a user .service unit name".to_string());
        }
    }
    let mut c = base(path, name, "manifest", kind);
    if let Some(x) = id {
        c.id = x;
    }
    c.lifecycle = lc;
    c.required_globals = required_globals;
    c.declared = true;
    c.protocols = protocols;
    c.compositors = compositors;
    c.evidence.push(
        "Explicit local shell manifest; declaration is not independent verification".to_string(),
    );
    assert(c@.evidence =~= seq![declared_evidence()]);
    c.backend = match systemd_unit {
        Some(unit) => Backend::Systemd { unit },
        None => {
            let wd = match cwd {
                Some(p) => if crate::path::is_absolute(p.as_str()) {
                    p
                } else {
                    join_path(dir.as_str(), p.as_str())
                },
                None => dir,
            };
            let mut a = argv;
            if crate::text::str_starts_with(a[0].as_str(), ".") {
                let first = join_path(wd.as_str(), a[0].as_str());
                a.set(0, first);
            }
            assert(a.deep_view() =~= (if starts_with(mv.argv[0], "."@) {
                mv.argv.update(0, join(wd@, mv.argv[0]))
            } else {
                mv.argv
            }));
            Backend::Process { argv: a, cwd: wd }
        },
    };
    Ok(c)
}


// ------------------------------------------------------------ classifying files

/// A file the scan reads as a manifest: `shellswitch.toml`, or a `.toml` file
/// in a `shellswitch/shells` directory.
pub open spec fn manifest_path(path: Seq<char>) -> bool {
    name_or_empty(path) == "shellswitch.toml"@ || (crate::path::extension(path) == Some("toml"@)
        && match parent(path) {
        Some(q) => untrail(q) == "shellswitch/shells"@ || crate::text::ends_with(
            untrail(q),
            "/shellswitch/shells"@,
        ),
        None => false,
    })
}

/// A file whose name or extension makes it worth reading.
pub open spec fn relevant_path(path: Seq<char>) -> bool {
    let name = name_or_empty(path);
    let ext = crate::path::extension(path);
    crate::text::ascii_lowered(name) == "shell.qml"@ || name == "eww.yuck"@ || name == "app.ts"@
        || name == "app.tsx"@ || name == "config.js"@ || name == "config.ts"@ || name == "main.py"@
        || ext == Some("desktop"@) || ext == Some("service"@) || ext == Some("sh"@)
}

fn name_is_any(name: &str, options: &[&str]) -> (r: bool)
    ensures
        r == options@.map_values(|x: &str| x@).contains(name@),
{
    let ghost ov = options@.map_values(|x: &str| x@);
    let mut k: usize = 0;
    while k < options.len()
        invariant
            k <= options@.len(),
            ov == options@.map_values(|x: &str| x@),
            forall|j: int| 0 <= j < k ==> ov[j] != name@,
        decreases options.len() - k,
    {
        if same(name, options[k]) {
            assert(ov[k as int] == name@);
            return true;
        }
        k += 1;
    }
    false
}

/// Is `path` read as a manifest?
pub fn is_manifest_path(path: &str) -> (r: bool)
    ensures
        r == manifest_path(path@),
{
    proof {
        reveal_strlit("shellswitch/shells");
        reveal_strlit("/shellswitch/shells");
    }
    let name = name_of(path);
    if same(name.as_str(), "shellswitch.toml") {
        return true;
    }
    let toml = match crate::path::extension_of(path) {
        Some(e) => same(e.as_str(), "toml"),
        None => false,
    };
    if !toml {
        return false;
    }
    match parent_of(path) {
        None => false,
        Some(q) => {
            let t = crate::path::untrail_of(q.as_str());
            same(t.as_str(), "shellswitch/shells") || crate::text::str_ends_with(
                t.as_str(),
                "/shellswitch/shells",
            )
        },
    }
}

/// Is `path` worth reading during a scan?
pub fn is_relevant(path: &str) -> (r: bool)
    ensures
        r == relevant_path(path@),
{
    let name = name_of(path);
    let lower = crate::text::to_ascii_lowercase(name.as_str());
    let names = ["eww.yuck", "app.ts", "app.tsx", "config.js", "config.ts", "main.py"];
    let exts = ["desktop", "service", "sh"];
    assert(names@.map_values(|x: &str| x@) =~= seq!["eww.yuck"@, "app.ts"@, "app.tsx"@, "config.js"@, "config.ts"@, "main.py"@]);
    assert(exts@.map_values(|x: &str| x@) =~= seq!["desktop"@, "service"@, "sh"@]);
    let ext_hit = match crate::path::extension_of(path) {
        Some(e) => name_is_any(e.as_str(), &exts),
        None => false,
    };
    let r = same(lower.as_str(), "shell.qml") || name_is_any(name.as_str(), &names) || ext_hit;
    proof {
        let nv = seq!["eww.yuck"@, "app.ts"@, "app.tsx"@, "config.js"@, "config.ts"@, "main.py"@];
        let ev = seq!["desktop"@, "service"@, "sh"@];
        if nv.contains(name@) {
            let j = choose|j: int| 0 <= j < nv.len() && nv[j] == name@;
            assert(nv[j] == name@);
        }
        if name@ == "eww.yuck"@ { assert(nv[0] == name@); }
        if name@ == "app.ts"@ { assert(nv[1] == name@); }
        if name@ == "app.tsx"@ { assert(nv[2] == name@); }
        if name@ == "config.js"@ { assert(nv[3] == name@); }
        if name@ == "config.ts"@ { assert(nv[4] == name@); }
        if name@ == "main.py"@ { assert(nv[5] == name@); }
        match crate::path::extension(path@) {
            Some(e) => {
                if ev.contains(e) {
                    let j = choose|j: int| 0 <= j < ev.len() && ev[j] == e;
                    assert(ev[j] == e);
                }
                if e == "desktop"@ { assert(ev[0] == e); }
                if e == "service"@ { assert(ev[1] == e); }
                if e == "sh"@ { assert(ev[2] == e); }
            },
            None => {},
        }
    }
    r
}


pub open spec fn surface_evidence() -> Seq<char> {
    "Entrypoint tree contains a panel surface; static evidence, not runtime proof"@
}

pub open spec fn root_evidence() -> Seq<char> {
    "Quickshell entrypoint declares a shell root; static evidence, not runtime proof"@
}

/// A Quickshell entry file that imports its runtime. `source` is the text of
/// its source tree, `qs` the Quickshell executable if one is installed, and
/// `wayland` whether the session is a Wayland one.
pub open spec fn quickshell_of(
    path: Seq<char>,
    text: Seq<char>,
    source: Seq<char>,
    qs: Option<Seq<char>>,
    wayland: bool,
    config_home: Seq<char>,
) -> CandidateView {
    let b = base_of(path, folder_name_of(path, config_home), "Quickshell"@, Kind::Shell);
    let evidence = seq!["Quickshell entrypoint imports its shell runtime"@] + capability_evidence(
        lowercase(source),
    );
    let compositors = with_compositor_refs(Seq::empty(), lowercase(source));
    let protocols = when(has_sub(source, "WlrLayershell"@) || has_sub(source, "Quickshell.Hyprland"@), "wayland"@);
    let globals = when(wayland, "zwlr_layer_shell_v1"@);
    let shell_root = has_sub(text, "ShellRoot"@) || has_sub(text, "Shell {"@);
    let surfaces = has_sub(source, "PanelWindow"@) || has_sub(source, "WlrLayershell"@);
    if surfaces || shell_root {
        let ev = evidence.push(if surfaces { surface_evidence() } else { root_evidence() });
        match qs {
            Some(q) => CandidateView {
                evidence: ev,
                compositors,
                protocols,
                required_globals: globals,
                backend: BackendView::Process { argv: seq![q, "-p"@, path], cwd: parent(path)->0 },
                ..b
            },
            None => CandidateView {
                evidence: ev.push("Missing Quickshell executable"@),
                compositors,
                protocols,
                required_globals: globals,
                ..b
            },
        }
    } else {
        CandidateView {
            kind: Kind::Candidate,
            evidence,
            compositors,
            protocols,
            required_globals: globals,
            ..b
        }
    }
}

/// The lines of a systemd unit that describe how it starts.
pub open spec fn unit_lines(ls: Seq<Seq<char>>) -> Seq<Seq<char>>
    decreases ls.len(),
{
    if ls.len() == 0 {
        Seq::empty()
    } else {
        unit_lines(ls.drop_last()) + when(
            starts_with(ls.last(), "Description="@) || starts_with(ls.last(), "ExecStart="@)
                || starts_with(ls.last(), "ExecStop="@),
            ls.last(),
        )
    }
}

/// A script line that launches a shell runtime.
pub open spec fn launch_line(l: Seq<char>) -> bool {
    has_sub(l, "quickshell"@) || has_sub(l, "ags run"@) || has_sub(l, "eww open"@) || has_sub(l, "exec "@)
}

pub open spec fn launch_lines(ls: Seq<Seq<char>>) -> Seq<Seq<char>>
    decreases ls.len(),
{
    if ls.len() == 0 {
        Seq::empty()
    } else {
        launch_lines(ls.drop_last()) + when(launch_line(ls.last()), ls.last())
    }
}

/// At most the first `n` items.
pub open spec fn first_n<T>(s: Seq<T>, n: nat) -> Seq<T> {
    if s.len() <= n {
        s
    } else {
        s.take(n as int)
    }
}

/// What a read file says about a shell, when it is not a desktop entry or a
/// manifest: a Quickshell entry, an Eww configuration, an Astal entry, a
/// shell-like user unit or a launcher script.
pub open spec fn inferred(
    path: Seq<char>,
    text: Seq<char>,
    source: Seq<char>,
    qs: Option<Seq<char>>,
    wayland: bool,
    config_home: Seq<char>,
) -> Option<CandidateView> {
    let name = name_or_empty(path);
    let lower = lowercase(text);
    if crate::text::ascii_lowered(name) == "shell.qml"@ && has_sub(text, "import Quickshell"@) {
        Some(quickshell_of(path, text, source, qs, wayland, config_home))
    } else if name == "eww.yuck"@ && has_sub(text, "(defwindow"@) {
        let b = base_of(path, folder_name_of(path, config_home), "Eww"@, Kind::Component);
        Some(
            CandidateView {
                evidence: capability_evidence(lowercase(text)).push(
                    "Eww window definitions; window selection and daemon ownership need a manifest"@,
                ),
                compositors: with_compositor_refs(Seq::empty(), lowercase(text)),
                ..b
            },
        )
    } else if has_sub(text, "astal"@) && (has_sub(text, "app.start("@) || has_sub(text, "App.config("@)) {
        let b = base_of(path, folder_name_of(path, config_home), "AGS / Astal"@, Kind::Shell);
        Some(
            CandidateView {
                protocols: seq!["wayland"@],
                evidence: capability_evidence(lowercase(source)).push(
                    "Astal application entrypoint; version-dependent launch syntax requires manifest"@,
                ),
                compositors: with_compositor_refs(Seq::empty(), lowercase(source)),
                ..b
            },
        )
    } else if crate::path::extension(path) == Some("service"@) && (has_sub(lower, "desktop shell"@)
        || has_sub(lower, "panel"@) || has_sub(lower, "quickshell"@) || has_sub(lower, "astal"@)
        || has_sub(lower, "layer-shell"@)) {
        let b = base_of(path, name, "systemd metadata"@, Kind::Candidate);
        Some(CandidateView { evidence: unit_lines(lines_of(text)), ..b })
    } else if starts_with(text, "#!"@) && (has_sub(lower, "quickshell"@) || has_sub(lower, "ags run"@)
        || has_sub(lower, "eww open"@) || has_sub(lower, "layer-shell"@) || has_sub(
        lower,
        "desktop shell"@,
    )) {
        let b = base_of(path, name, "launcher script"@, Kind::Candidate);
        Some(
            CandidateView {
                evidence: seq!["Script references a shell runtime; not executed during discovery"@]
                    + first_n(launch_lines(lines_of(text)), 8).map_values(
                    |l: Seq<char>| first_n(l, 300),
                ),
                ..b
            },
        )
    } else {
        None
    }
}

/// Whether inferring from `path` needs the text of its source tree.
pub open spec fn wants_source(path: Seq<char>, text: Seq<char>) -> bool {
    let name = name_or_empty(path);
    (crate::text::ascii_lowered(name) == "shell.qml"@ && has_sub(text, "import Quickshell"@)) || (!(
    name == "eww.yuck"@ && has_sub(text, "(defwindow"@)) && has_sub(text, "astal"@) && (has_sub(
        text,
        "app.start("@,
    ) || has_sub(text, "App.config("@)))
}

/// Does inferring from this file need its source tree's text?
pub fn needs_source(path: &str, text: &str) -> (r: bool)
    ensures
        r == wants_source(path@, text@),
{
    let name = name_of(path);
    let lower = crate::text::to_ascii_lowercase(name.as_str());
    (same(lower.as_str(), "shell.qml") && str_contains(text, "import Quickshell")) || (!(same(
        name.as_str(),
        "eww.yuck",
    ) && str_contains(text, "(defwindow")) && str_contains(text, "astal") && (str_contains(
        text,
        "app.start(",
    ) || str_contains(text, "App.config(")))
}

fn quickshell_candidate(
    path: &str,
    text: &str,
    source: &str,
    qs: Option<&str>,
    wayland: bool,
    config_home: &str,
) -> (c: Candidate)
    requires
        parent(path@) is Some,
    ensures
        c@ == quickshell_of(path@, text@, source@, match qs { Some(q) => Some(q@), None => None }, wayland, config_home@),
{
    proof {
        reveal_strlit("Quickshell entrypoint imports its shell runtime");
        reveal_strlit("Entrypoint tree contains a panel surface; static evidence, not runtime proof");
        reveal_strlit("Quickshell entrypoint declares a shell root; static evidence, not runtime proof");
        reveal_strlit("Missing Quickshell executable");
        reveal_strlit("-p");
    }
    let mut c = base(path, folder_name(path, config_home), "Quickshell", Kind::Shell);
    c.evidence.push("Quickshell entrypoint imports its shell runtime".to_string());
    assert(c@.evidence =~= seq!["Quickshell entrypoint imports its shell runtime"@]);
    capabilities(&mut c, source);
    let ghost ev0 = c@.evidence;
    assert(ev0 =~= seq!["Quickshell entrypoint imports its shell runtime"@] + capability_evidence(
        lowercase(source@),
    ));
    if str_contains(source, "WlrLayershell") || str_contains(source, "Quickshell.Hyprland") {
        c.protocols.push("wayland".to_string());
    }
    assert(c@.protocols =~= when(has_sub(source@, "WlrLayershell"@) || has_sub(source@, "Quickshell.Hyprland"@), "wayland"@));
    if wayland {
        c.required_globals.push("zwlr_layer_shell_v1".to_string());
    }
    assert(c@.required_globals =~= when(wayland, "zwlr_layer_shell_v1"@));
    let shell_root = str_contains(text, "ShellRoot") || str_contains(text, "Shell {");
    let surfaces = str_contains(source, "PanelWindow") || str_contains(source, "WlrLayershell");
    if surfaces || shell_root {
        c.evidence.push(
            if surfaces {
                "Entrypoint tree contains a panel surface; static evidence, not runtime proof".to_string()
            } else {
                "Quickshell entrypoint declares a shell root; static evidence, not runtime proof".to_string()
            },
        );
        match qs {
            Some(q) => {
                let mut argv: Vec<String> = Vec::new();
                argv.push(q.to_string());
                argv.push("-p".to_string());
                argv.push(path.to_string());
                assert(argv.deep_view() =~= seq![q@, "-p"@, path@]);
                let cwd = match parent_of(path) {
                    Some(d) => d,
                    None => String::new(),
                };
                c.backend = Backend::Process { argv, cwd };
                assert(c@.evidence =~= ev0.push(if surfaces { surface_evidence() } else { root_evidence() }));
            },
            None => {
                c.evidence.push("Missing Quickshell executable".to_string());
                assert(c@.evidence =~= ev0.push(if surfaces { surface_evidence() } else { root_evidence() }).push(
                    "Missing Quickshell executable"@,
                ));
            },
        }
    } else {
        c.kind = Kind::Candidate;
    }
    c
}

fn unit_description(text: &str) -> (r: Vec<String>)
    ensures
        r.deep_view() == unit_lines(lines_of(text@)),
{
    proof {
        reveal_strlit("Description=");
        reveal_strlit("ExecStart=");
        reveal_strlit("ExecStop=");
    }
    let cs = chars_of(text);
    let ls = lines(&cs);
    let ghost lv = lines_of(text@);
    let mut out: Vec<String> = Vec::new();
    let mut k: usize = 0;
    assert(lv.take(0) =~= Seq::<Seq<char>>::empty());
    assert(out.deep_view() =~= Seq::<Seq<char>>::empty());
    while k < ls.len()
        invariant
            k <= ls@.len(),
            cs@ == text@,
            lv == lines_of(text@),
            ls@.len() == lv.len(),
            forall|j: int| 0 <= j < ls@.len() ==> #[trigger] ls@[j]@ == lv[j],
            out.deep_view() == unit_lines(lv.take(k as int)),
        decreases ls.len() - k,
    {
        let l = &ls[k];
        proof {
            let w = lv.take(k + 1);
            assert(w.drop_last() =~= lv.take(k as int));
            assert(w.last() == l@);
        }
        if chars_start_with(l, "Description=") || chars_start_with(l, "ExecStart=") || chars_start_with(
            l,
            "ExecStop=",
        ) {
            let ghost before = out.deep_view();
            out.push(string_of(l));
            assert(out.deep_view() =~= before + seq![l@]);
        } else {
            assert(out.deep_view() =~= out.deep_view() + Seq::<Seq<char>>::empty());
        }
        k += 1;
    }
    assert(lv.take(k as int) =~= lv);
    out
}

fn chars_contain(l: &Vec<char>, p: &str) -> (r: bool)
    ensures
        r == has_sub(l@, p@),
{
    let pc = chars_of(p);
    crate::text::contains_chars(l, &pc)
}

fn launch_evidence(text: &str) -> (r: Vec<String>)
    ensures
        r.deep_view() == first_n(launch_lines(lines_of(text@)), 8).map_values(|l: Seq<char>| first_n(l, 300)),
{
    let cs = chars_of(text);
    let ls = lines(&cs);
    let ghost lv = lines_of(text@);
    let mut picked: Vec<String> = Vec::new();
    let mut k: usize = 0;
    assert(lv.take(0) =~= Seq::<Seq<char>>::empty());
    assert(picked.deep_view() =~= Seq::<Seq<char>>::empty());
    while k < ls.len()
        invariant
            k <= ls@.len(),
            cs@ == text@,
            lv == lines_of(text@),
            ls@.len() == lv.len(),
            forall|j: int| 0 <= j < ls@.len() ==> #[trigger] ls@[j]@ == lv[j],
            picked.deep_view() == launch_lines(lv.take(k as int)),
        decreases ls.len() - k,
    {
        let l = &ls[k];
        proof {
            let w = lv.take(k + 1);
            assert(w.drop_last() =~= lv.take(k as int));
            assert(w.last() == l@);
        }
        if chars_contain(l, "quickshell") || chars_contain(l, "ags run") || chars_contain(l, "eww open")
            || chars_contain(l, "exec ") {
            let ghost before = picked.deep_view();
            picked.push(string_of(l));
            assert(picked.deep_view() =~= before + seq![l@]);
        } else {
            assert(picked.deep_view() =~= picked.deep_view() + Seq::<Seq<char>>::empty());
        }
        k += 1;
    }
    assert(lv.take(k as int) =~= lv);
    let ghost all = picked.deep_view();
    let mut out: Vec<String> = Vec::new();
    let mut j: usize = 0;
    while j < picked.len() && j < 8
        invariant
            j <= picked@.len(),
            j <= 8,
            all == picked.deep_view(),
            out@.len() == j,
            forall|t: int| 0 <= t < j ==> #[trigger] out@[t]@ == first_n(all[t], 300),
        decreases picked.len() - j,
    {
        let l = chars_of(picked[j].as_str());
        assert(l@ == all[j as int]);
        let n = if l.len() <= 300 {
            l.len()
        } else {
            300
        };
        let mut t = String::new();
        let mut q: usize = 0;
        while q < n
            invariant
                q <= n <= l@.len(),
                t@ == l@.take(q as int),
            decreases n - q,
        {
            crate::text::push_char(&mut t, l[q]);
            q += 1;
            assert(t@ =~= l@.take(q as int));
        }
        assert(t@ =~= first_n(l@, 300));
        out.push(t);
        j += 1;
    }
    assert(out.deep_view() =~= first_n(all, 8).map_values(|l: Seq<char>| first_n(l, 300)));
    out
}

/// What a read file says about a shell (see `inferred`). `source` is the text
/// of its source tree when `needs_source` asks for it, `qs` the installed
/// Quickshell executable, `wayland` whether the session is Wayland, and
/// `config_home` the user configuration directory.
pub fn infer(
    path: &str,
    text: &str,
    source: &str,
    qs: Option<&str>,
    wayland: bool,
    config_home: &str,
) -> (r: Option<Candidate>)
    requires
        parent(path@) is Some,
    ensures
        match r {
            Some(c) => inferred(path@, text@, source@, match qs { Some(q) => Some(q@), None => None }, wayland, config_home@) == Some(c@),
            None => inferred(path@, text@, source@, match qs { Some(q) => Some(q@), None => None }, wayland, config_home@) is None,
        },
{
    proof {
        reveal_strlit("Eww window definitions; window selection and daemon ownership need a manifest");
        reveal_strlit("Astal application entrypoint; version-dependent launch syntax requires manifest");
        reveal_strlit("Script references a shell runtime; not executed during discovery");
        reveal_strlit("service");
    }
    let name = name_of(path);
    let lname = crate::text::to_ascii_lowercase(name.as_str());
    if same(lname.as_str(), "shell.qml") && str_contains(text, "import Quickshell") {
        return Some(quickshell_candidate(path, text, source, qs, wayland, config_home));
    }
    if same(name.as_str(), "eww.yuck") && str_contains(text, "(defwindow") {
        let mut c = base(path, folder_name(path, config_home), "Eww", Kind::Component);
        capabilities(&mut c, text);
        c.evidence.push(
            "Eww window definitions; window selection and daemon ownership need a manifest".to_string(),
        );
        assert(c@.evidence =~= capability_evidence(lowercase(text@)).push(
            "Eww window definitions; window selection and daemon ownership need a manifest"@,
        ));
        return Some(c);
    }
    if str_contains(text, "astal") && (str_contains(text, "app.start(") || str_contains(text, "App.config(")) {
        let mut c = base(path, folder_name(path, config_home), "AGS / Astal", Kind::Shell);
        c.protocols.push("wayland".to_string());
        assert(c@.protocols =~= seq!["wayland"@]);
        capabilities(&mut c, source);
        c.evidence.push(
            "Astal application entrypoint; version-dependent launch syntax requires manifest".to_string(),
        );
        assert(c@.evidence =~= capability_evidence(lowercase(source@)).push(
            "Astal application entrypoint; version-dependent launch syntax requires manifest"@,
        ));
        return Some(c);
    }
    let lower = to_lowercase(text);
    let l = lower.as_str();
    let service = match crate::path::extension_of(path) {
        Some(e) => same(e.as_str(), "service"),
        None => false,
    };
    if service && (str_contains(l, "desktop shell") || str_contains(l, "panel") || str_contains(
        l,
        "quickshell",
    ) || str_contains(l, "astal") || str_contains(l, "layer-shell")) {
        let mut c = base(path, name, "systemd metadata", Kind::Candidate);
        c.evidence = unit_description(text);
        return Some(c);
    }
    if crate::text::str_starts_with(text, "#!") && (str_contains(l, "quickshell") || str_contains(
        l,
        "ags run",
    ) || str_contains(l, "eww open") || str_contains(l, "layer-shell") || str_contains(
        l,
        "desktop shell",
    )) {
        let mut c = base(path, name, "launcher script", Kind::Candidate);
        c.evidence.push("Script references a shell runtime; not executed during discovery".to_string());
        let mut more = launch_evidence(text);
        let ghost before = c.evidence.deep_view();
        c.evidence.append(&mut more);
        assert(c@.evidence =~= seq!["Script references a shell runtime; not executed during discovery"@]
            + first_n(launch_lines(lines_of(text@)), 8).map_values(|l: Seq<char>| first_n(l, 300)));
        return Some(c);
    }
    None
}


// ------------------------------------------------------------ source trees

/// An entry file of a shell tree of its own (which must not contaminate its parent's evidence).
pub open spec fn nested_entry(p: Seq<char>, root: Seq<char>) -> bool {
    (name_or_empty(p) == "shell.qml"@ || name_or_empty(p) == "shellswitch.toml"@) && parent(p)
        != Some(root) && crate::path::under(p, root) && parent(p) is Some
}

/// The directories of nested shell trees below `root`.
pub open spec fn nested_roots(all: Seq<Seq<char>>, root: Seq<char>) -> Seq<Seq<char>>
    decreases all.len(),
{
    if all.len() == 0 {
        Seq::empty()
    } else {
        nested_roots(all.drop_last(), root) + when(nested_entry(all.last(), root), parent(all.last())->0)
    }
}

/// Source files read as evidence.
pub open spec fn source_ext(p: Seq<char>) -> bool {
    match crate::path::extension(p) {
        Some(e) => e == "qml"@ || e == "js"@ || e == "ts"@ || e == "tsx"@ || e == "yuck"@ || e
            == "py"@ || e == "rs"@ || e == "sh"@,
        None => false,
    }
}

/// A file of the tree at `root`, outside every nested tree.
pub open spec fn member_of(p: Seq<char>, root: Seq<char>, nested: Seq<Seq<char>>) -> bool {
    crate::path::under(p, root) && !(exists|k: int| 0 <= k < nested.len() && crate::path::under(p, #[trigger] nested[k]))
}

pub open spec fn members_of(all: Seq<Seq<char>>, keep: Seq<Seq<char>>, root: Seq<char>, nested: Seq<Seq<char>>) -> Seq<Seq<char>>
    decreases keep.len(),
{
    if keep.len() == 0 {
        Seq::empty()
    } else {
        members_of(all, keep.drop_last(), root, nested) + when(
            member_of(keep.last(), root, nested) && source_ext(keep.last()),
            keep.last(),
        )
    }
}

/// The source files that belong to the shell whose entry is `path`, among
/// the scanned files `all`, in scan order.
pub open spec fn source_members_of(path: Seq<char>, all: Seq<Seq<char>>) -> Seq<Seq<char>> {
    let root = field_or(parent(path), path);
    members_of(all, all, root, nested_roots(all, root))
}

fn under_any(p: &str, nested: &Vec<String>) -> (r: bool)
    ensures
        r == (exists|k: int| 0 <= k < nested.deep_view().len() && crate::path::under(p@, #[trigger] nested.deep_view()[k])),
{
    let mut k: usize = 0;
    while k < nested.len()
        invariant
            k <= nested.len(),
            forall|j: int| 0 <= j < k ==> !crate::path::under(p@, #[trigger] nested.deep_view()[j]),
        decreases nested.len() - k,
    {
        assert(nested.deep_view()[k as int] == nested@[k as int]@);
        if crate::path::is_under(p, nested[k].as_str()) {
            return true;
        }
        k += 1;
    }
    false
}

fn has_source_ext(p: &str) -> (r: bool)
    ensures
        r == source_ext(p@),
{
    match crate::path::extension_of(p) {
        Some(e) => {
            let x = e.as_str();
            same(x, "qml") || same(x, "js") || same(x, "ts") || same(x, "tsx") || same(x, "yuck")
                || same(x, "py") || same(x, "rs") || same(x, "sh")
        },
        None => false,
    }
}

/// The source files read as evidence for the shell whose entry is `path`.
pub fn source_members(path: &str, all: &Vec<String>) -> (r: Vec<String>)
    ensures
        r.deep_view() == source_members_of(path@, all.deep_view()),
{
    let root = match parent_of(path) {
        Some(q) => q,
        None => path.to_string(),
    };
    let ghost av = all.deep_view();
    let mut nested: Vec<String> = Vec::new();
    let mut i: usize = 0;
    assert(av.take(0) =~= Seq::<Seq<char>>::empty());
    assert(nested.deep_view() =~= Seq::<Seq<char>>::empty());
    while i < all.len()
        invariant
            i <= all.len(),
            av == all.deep_view(),
            nested.deep_view() == nested_roots(av.take(i as int), root@),
        decreases all.len() - i,
    {
        let p = all[i].as_str();
        proof {
            let w = av.take(i + 1);
            assert(w.drop_last() =~= av.take(i as int));
            assert(w.last() == p@);
        }
        let name = name_of(p);
        let entry = same(name.as_str(), "shell.qml") || same(name.as_str(), "shellswitch.toml");
        let ghost before = nested.deep_view();
        if entry && crate::path::is_under(p, root.as_str()) {
            match parent_of(p) {
                Some(q) => {
                    if !same(q.as_str(), root.as_str()) {
                        nested.push(q);
                        assert(nested.deep_view() =~= before + seq![parent(p@)->0]);
                    } else {
                        assert(nested.deep_view() =~= before + Seq::<Seq<char>>::empty());
                    }
                },
                None => {
                    assert(nested.deep_view() =~= before + Seq::<Seq<char>>::empty());
                },
            }
        } else {
            assert(nested.deep_view() =~= before + Seq::<Seq<char>>::empty());
        }
        i += 1;
    }
    assert(av.take(i as int) =~= av);
    let mut out: Vec<String> = Vec::new();
    let mut i: usize = 0;
    assert(out.deep_view() =~= Seq::<Seq<char>>::empty());
    while i < all.len()
        invariant
            i <= all.len(),
            av == all.deep_view(),
            nested.deep_view() == nested_roots(av, root@),
            out.deep_view() == members_of(av, av.take(i as int), root@, nested.deep_view()),
        decreases all.len() - i,
    {
        let p = all[i].as_str();
        proof {
            let w = av.take(i + 1);
            assert(w.drop_last() =~= av.take(i as int));
            assert(w.last() == p@);
        }
        let ghost before = out.deep_view();
        if crate::path::is_under(p, root.as_str()) && !under_any(p, &nested) && has_source_ext(p) {
            out.push(p.to_string());
            assert(out.deep_view() =~= before + seq![p@]);
        } else {
            assert(out.deep_view() =~= before + Seq::<Seq<char>>::empty());
        }
        i += 1;
    }
    assert(av.take(i as int) =~= av);
    out
}

/// The source text of a tree: each readable member (`None` when unreadable)
/// with a line feed after it, until the text passes two million bytes.
pub open spec fn joined_from(parts: Seq<Option<Seq<char>>>, k: int, acc: Seq<char>) -> Seq<char>
    decreases parts.len() - k,
{
    if k < 0 || k >= parts.len() || (encode_utf8(acc).len() as usize) > 2000000 {
        acc
    } else {
        joined_from(
            parts,
            k + 1,
            match parts[k] {
                Some(t) => acc + t + seq!['\n'],
                None => acc,
            },
        )
    }
}

/// Joins the members' texts as evidence, bounded to about two million bytes.
pub fn joined_source(parts: &Vec<Option<String>>) -> (r: String)
    ensures
        r@ == joined_from(parts.deep_view(), 0, Seq::empty()),
{
    let mut out = String::new();
    let mut k: usize = 0;
    while k < parts.len()
        invariant
            k <= parts.len(),
            joined_from(parts.deep_view(), k as int, out@) == joined_from(parts.deep_view(), 0, Seq::empty()),
        decreases parts.len() - k,
    {
        let n = out.as_str().len();
        if n > 2000000 {
            return out;
        }
        assert(parts.deep_view()[k as int] == parts@[k as int].deep_view());
        match &parts[k] {
            Some(t) => {
                let ghost before = out@;
                append(&mut out, t.as_str());
                crate::text::push_char(&mut out, '\n');
                assert(out@ =~= before + t@ + seq!['\n']);
            },
            None => {},
        }
        k += 1;
    }
    out
}


// ------------------------------------------------------------ the candidate list

/// The directories of declared candidates.
pub open spec fn declared_dirs(cs: Seq<CandidateView>) -> Seq<Seq<char>>
    decreases cs.len(),
{
    if cs.len() == 0 {
        Seq::empty()
    } else {
        declared_dirs(cs.drop_last()) + when(
            cs.last().declared && parent(cs.last().source) is Some,
            parent(cs.last().source)->0,
        )
    }
}

/// A candidate survives unless it was inferred in a declared candidate's directory.
pub open spec fn survives(c: CandidateView, dirs: Seq<Seq<char>>) -> bool {
    c.declared || !(parent(c.source) matches Some(p) && dirs.contains(p))
}

pub open spec fn survivors(cs: Seq<CandidateView>, dirs: Seq<Seq<char>>) -> Seq<CandidateView>
    decreases cs.len(),
{
    if cs.len() == 0 {
        Seq::empty()
    } else if survives(cs.last(), dirs) {
        survivors(cs.drop_last(), dirs).push(cs.last())
    } else {
        survivors(cs.drop_last(), dirs)
    }
}

/// An explicit manifest owns its directory: inferred entries there are dropped.
pub fn retain_declared(cs: Vec<Candidate>) -> (r: Vec<Candidate>)
    ensures
        r.deep_view() == survivors(cs.deep_view(), declared_dirs(cs.deep_view())),
{
    let ghost cv = cs.deep_view();
    let mut dirs: Vec<String> = Vec::new();
    let mut i: usize = 0;
    assert(cv.take(0) =~= Seq::<CandidateView>::empty());
    assert(dirs.deep_view() =~= Seq::<Seq<char>>::empty());
    while i < cs.len()
        invariant
            i <= cs.len(),
            cv == cs.deep_view(),
            dirs.deep_view() == declared_dirs(cv.take(i as int)),
        decreases cs.len() - i,
    {
        let c = &cs[i];
        proof {
            let w = cv.take(i + 1);
            assert(w.drop_last() =~= cv.take(i as int));
            assert(w.last() == c@);
        }
        let ghost before = dirs.deep_view();
        let mut added = false;
        if c.declared {
            if let Some(p) = parent_of(c.source.as_str()) {
                dirs.push(p);
                added = true;
                assert(dirs.deep_view() =~= before + seq![parent(c@.source)->0]);
            }
        }
        if !added {
            assert(dirs.deep_view() =~= before + Seq::<Seq<char>>::empty());
        }
        i += 1;
    }
    assert(cv.take(i as int) =~= cv);
    let ghost dv = dirs.deep_view();
    let mut out: Vec<Candidate> = Vec::new();
    let mut i: usize = 0;
    assert(out.deep_view() =~= Seq::<CandidateView>::empty());
    while i < cs.len()
        invariant
            i <= cs.len(),
            cv == cs.deep_view(),
            dv == dirs.deep_view(),
            dv == declared_dirs(cv),
            out.deep_view() == survivors(cv.take(i as int), dv),
        decreases cs.len() - i,
    {
        let c = &cs[i];
        proof {
            let w = cv.take(i + 1);
            assert(w.drop_last() =~= cv.take(i as int));
            assert(w.last() == c@);
        }
        let keep = c.declared || match parent_of(c.source.as_str()) {
            Some(p) => !crate::text::contains_string(&dirs, p.as_str()),
            None => true,
        };
        if keep {
            let ghost before = out.deep_view();
            out.push(c.duplicate());
            assert(out.deep_view() =~= before.push(c@));
        }
        i += 1;
    }
    assert(cv.take(i as int) =~= cv);
    out
}

/// Shells first, then components, review candidates and sessions.
pub open spec fn rank(k: Kind) -> nat {
    match k {
        Kind::Shell => 0,
        Kind::Component => 1,
        Kind::Candidate => 2,
        Kind::Session => 3,
    }
}

/// `a` comes strictly before `b` in code-point (and so UTF-8 byte) order.
pub open spec fn chars_before(a: Seq<char>, b: Seq<char>) -> bool
    decreases a.len(),
{
    if a.len() == 0 {
        b.len() > 0
    } else if b.len() == 0 {
        false
    } else if a[0] != b[0] {
        (a[0] as u32) < (b[0] as u32)
    } else {
        chars_before(a.drop_first(), b.drop_first())
    }
}

/// The listing order: by rank, then lower-cased name, then id.
pub open spec fn listed_before(a: CandidateView, b: CandidateView) -> bool {
    rank(a.kind) < rank(b.kind) || (rank(a.kind) == rank(b.kind) && (chars_before(
        lowercase(a.name),
        lowercase(b.name),
    ) || (lowercase(a.name) == lowercase(b.name) && chars_before(a.id, b.id))))
}

/// Where a stable insertion puts `x` into the listed `s`: before the first
/// entry that `x` comes strictly before.
pub open spec fn insert_pos(s: Seq<CandidateView>, x: CandidateView) -> int
    decreases s.len(),
{
    if s.len() == 0 {
        0
    } else {
        let k = insert_pos(s.drop_last(), x);
        if k < s.len() - 1 {
            k
        } else if listed_before(x, s.last()) {
            s.len() - 1
        } else {
            s.len() as int
        }
    }
}

pub proof fn lemma_insert_pos(s: Seq<CandidateView>, x: CandidateView)
    ensures
        0 <= insert_pos(s, x) <= s.len(),
        forall|j: int| 0 <= j < insert_pos(s, x) ==> !listed_before(x, #[trigger] s[j]),
        insert_pos(s, x) < s.len() ==> listed_before(x, s[insert_pos(s, x)]),
    decreases s.len(),
{
    if s.len() > 0 {
        lemma_insert_pos(s.drop_last(), x);
        assert forall|j: int| 0 <= j < insert_pos(s, x) && j < s.len() - 1 implies s.drop_last()[j] == s[j] by {}
    }
}

/// The candidates in listing order, equal ones in their original order.
pub open spec fn listed(cs: Seq<CandidateView>) -> Seq<CandidateView>
    decreases cs.len(),
{
    if cs.len() == 0 {
        Seq::empty()
    } else {
        let t = listed(cs.drop_last());
        t.insert(insert_pos(t, cs.last()), cs.last())
    }
}

pub proof fn lemma_listed_len(cs: Seq<CandidateView>)
    ensures
        listed(cs).len() == cs.len(),
    decreases cs.len(),
{
    if cs.len() > 0 {
        lemma_listed_len(cs.drop_last());
        lemma_insert_pos(listed(cs.drop_last()), cs.last());
    }
}

fn chars_before_of(a: &Vec<char>, b: &Vec<char>) -> (r: bool)
    ensures
        r == chars_before(a@, b@),
{
    let mut i: usize = 0;
    assert(a@.skip(0) =~= a@);
    assert(b@.skip(0) =~= b@);
    while i < a.len() && i < b.len() && a[i] == b[i]
        invariant
            i <= a@.len(),
            i <= b@.len(),
            chars_before(a@.skip(i as int), b@.skip(i as int)) == chars_before(a@, b@),
        decreases a.len() - i,
    {
        assert(a@.skip(i as int).drop_first() =~= a@.skip(i + 1));
        assert(b@.skip(i as int).drop_first() =~= b@.skip(i + 1));
        i += 1;
    }
    if i == a.len() {
        return i < b.len();
    }
    if i == b.len() {
        return false;
    }
    (a[i] as u32) < (b[i] as u32)
}

fn key_before(x: &Candidate, y: &Candidate) -> (r: bool)
    ensures
        r == listed_before(x@, y@),
{
    let rx: u8 = match x.kind {
        Kind::Shell => 0,
        Kind::Component => 1,
        Kind::Candidate => 2,
        Kind::Session => 3,
    };
    let ry: u8 = match y.kind {
        Kind::Shell => 0,
        Kind::Component => 1,
        Kind::Candidate => 2,
        Kind::Session => 3,
    };
    if rx != ry {
        return rx < ry;
    }
    let nx = chars_of(to_lowercase(x.name.as_str()).as_str());
    let ny = chars_of(to_lowercase(y.name.as_str()).as_str());
    if chars_before_of(&nx, &ny) {
        return true;
    }
    let same_name = string_of(&nx);
    if !same(same_name.as_str(), string_of(&ny).as_str()) {
        return false;
    }
    chars_before_of(&chars_of(x.id.as_str()), &chars_of(y.id.as_str()))
}

/// Orders candidates for listing: by rank, lower-cased name and id, keeping
/// the scan order among equal keys.
pub fn sort_candidates(cs: Vec<Candidate>) -> (r: Vec<Candidate>)
    ensures
        r.deep_view() == listed(cs.deep_view()),
{
    let ghost cv = cs.deep_view();
    let mut out: Vec<Candidate> = Vec::new();
    let mut i: usize = 0;
    assert(cv.take(0) =~= Seq::<CandidateView>::empty());
    assert(out.deep_view() =~= Seq::<CandidateView>::empty());
    while i < cs.len()
        invariant
            i <= cs.len(),
            cv == cs.deep_view(),
            out.deep_view() == listed(cv.take(i as int)),
            out@.len() == i,
        decreases cs.len() - i,
    {
        let c = &cs[i];
        proof {
            let w = cv.take(i + 1);
            assert(w.drop_last() =~= cv.take(i as int));
            assert(w.last() == c@);
            lemma_insert_pos(out.deep_view(), c@);
        }
        let ghost t = out.deep_view();
        let mut pos: usize = 0;
        while pos < out.len() && !key_before(c, &out[pos])
            invariant
                pos <= out@.len(),
                t == out.deep_view(),
                out@.len() == t.len(),
                forall|j: int| 0 <= j < pos ==> !listed_before(c@, #[trigger] t[j]),
            decreases out.len() - pos,
        {
            assert(t[pos as int] == out@[pos as int]@);
            pos += 1;
        }
        proof {
            if pos < out@.len() {
                assert(t[pos as int] == out@[pos as int]@);
            }
            // the first entry `c` precedes is where the stable insertion goes
            if pos < insert_pos(t, c@) {
                assert(!listed_before(c@, t[pos as int]));
            }
            if insert_pos(t, c@) < pos {
                assert(!listed_before(c@, t[insert_pos(t, c@)]));
            }
        }
        out.insert(pos, c.duplicate());
        assert(out.deep_view() =~= t.insert(pos as int, c@));
        i += 1;
    }
    assert(cv.take(i as int) =~= cv);
    out
}

} // verus!

verus! {

// ------------------------------------------------------------ walking scan roots

/// Directory entries a scan never descends into: version control, build
/// output, caches and large browser or editor profiles.
pub open spec fn skipped_names() -> Seq<Seq<char>> {
    seq![
        ".git"@,
        "node_modules"@,
        "target"@,
        "Cache"@,
        "cache"@,
        "CachedData"@,
        "GPUCache"@,
        "__pycache__"@,
        "BraveSoftware"@,
        "chromium"@,
        "google-chrome"@,
        "discord"@,
        "Code"@,
        "Codex"@
    ]
}

/// Is `name` an entry that a scan skips?
pub fn skipped_entry(name: &str) -> (r: bool)
    ensures
        r == skipped_names().contains(name@),
{
    let names: [&str; 14] = [
        ".git",
        "node_modules",
        "target",
        "Cache",
        "cache",
        "CachedData",
        "GPUCache",
        "__pycache__",
        "BraveSoftware",
        "chromium",
        "google-chrome",
        "discord",
        "Code",
        "Codex"
    ];
    proof {
        reveal_strlit(".git");
        reveal_strlit("node_modules");
        reveal_strlit("target");
        reveal_strlit("Cache");
        reveal_strlit("cache");
        reveal_strlit("CachedData");
        reveal_strlit("GPUCache");
        reveal_strlit("__pycache__");
        reveal_strlit("BraveSoftware");
        reveal_strlit("chromium");
        reveal_strlit("google-chrome");
        reveal_strlit("discord");
        reveal_strlit("Code");
        reveal_strlit("Codex");
        assert(names@.map_values(|s: &str| s@) =~= skipped_names());
    }
    let mut i: usize = 0;
    while i < names.len()
        invariant
            i <= names.len(),
            names@.map_values(|s: &str| s@) == skipped_names(),
            forall|j: int| 0 <= j < i ==> skipped_names()[j] != name@,
        decreases names.len() - i,
    {
        assert(skipped_names()[i as int] == names@[i as int]@);
        if crate::text::same(names[i], name) {
            return true;
        }
        i += 1;
    }
    false
}

/// A scan visits an entry at `depth` only while it has found fewer files
/// than its budget and the entry is at most twelve levels below a root.
pub fn walk_enters(found: usize, depth: usize) -> (r: bool)
    ensures
        r == (found < file_budget() && depth <= 12),
{
    found < 30000 && depth <= 12
}

} // verus!

verus! {

// ------------------------------------------------------------ laws on Quickshell entrypoints

/// A Quickshell entrypoint is recognised whatever the ASCII case of its file
/// name: a file named `shell.qml` in any mix of upper and lower case whose
/// text imports Quickshell is read and inferred as a Quickshell candidate for
/// that file, a shell when it declares a shell root or its tree has a panel
/// surface, else a candidate for review.
pub proof fn law_quickshell_entry_any_case(
    path: Seq<char>,
    text: Seq<char>,
    source: Seq<char>,
    qs: Option<Seq<char>>,
    wayland: bool,
    config_home: Seq<char>,
)
    requires
        name_or_empty(path).len() == 9,
        forall|i: int|
            0 <= i < 9 ==> #[trigger] name_or_empty(path)[i] == "shell.qml"@[i]
                || name_or_empty(path)[i] == "SHELL.QML"@[i],
        has_sub(text, "import Quickshell"@),
    ensures
        relevant_path(path),
        inferred(path, text, source, qs, wayland, config_home) matches Some(c) && c.framework
            == "Quickshell"@ && c.source == path && c.kind == (if has_sub(text, "ShellRoot"@)
            || has_sub(text, "Shell {"@) || has_sub(source, "PanelWindow"@) || has_sub(
            source,
            "WlrLayershell"@,
        ) {
            Kind::Shell
        } else {
            Kind::Candidate
        }),
{
    reveal_strlit("shell.qml");
    reveal_strlit("SHELL.QML");
    let name = name_or_empty(path);
    assert forall|i: int| 0 <= i < 9 implies #[trigger] crate::text::ascii_lowered(name)[i]
        == "shell.qml"@[i] by {
        assert(crate::text::ascii_lowered(name)[i] == crate::text::ascii_lower(name[i]));
    }
    assert(crate::text::ascii_lowered(name) =~= "shell.qml"@);
}

} // verus!
