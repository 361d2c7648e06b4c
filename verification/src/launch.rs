//! The launch guard: what must hold before a shell may be started or adopted.
//! Directory, executable and service-manager facts are observed by the caller.
use crate::model::{Backend, BackendView, Candidate, CandidateView, Kind};
use crate::path::{file_name, file_name_of};
use crate::text::{
    chars_of, has_sub, lines, lines_of, lowercase, same, starts_with, starts_with_chars,
    str_contains, string_of, to_lowercase,
};
use vstd::prelude::*;

verus! {

/// What the service manager reported for a systemd-backed shell: its global
/// environment (`systemctl --user show-environment`) and the unit's
/// `ExecStart`, `PartOf`, `PropagatesStopTo` and `Conflicts` properties.
#[derive(Debug)]
pub struct UnitFacts {
    pub environment: Result<String, String>,
    pub details: Result<String, String>,
}

/// This session's value of one environment variable, if set.
#[derive(Debug)]
pub struct EnvVar {
    pub key: String,
    pub value: Option<String>,
}

pub struct EnvVarView {
    pub key: Seq<char>,
    pub value: Option<Seq<char>>,
}

impl View for EnvVar {
    type V = EnvVarView;

    open spec fn view(&self) -> EnvVarView {
        EnvVarView { key: self.key@, value: self.value.deep_view() }
    }
}

impl DeepView for EnvVar {
    type V = EnvVarView;

    open spec fn deep_view(&self) -> EnvVarView {
        self@
    }
}

/// Programs that are compositors or sessions, never a replaceable shell layer.
pub open spec fn compositor_programs() -> Seq<Seq<char>> {
    seq![
        "niri"@,
        "hyprland"@,
        "sway"@,
        "i3"@,
        "gnome-shell"@,
        "kwin_wayland"@,
        "kwin_x11"@,
        "weston"@,
        "startplasma-wayland"@,
        "xfce4-session"@,
        "enlightenment"@,
        "labwc"@,
        "river"@,
    ]
}

/// Compositor executables as they appear in a unit's `ExecStart`.
pub open spec fn compositor_paths() -> Seq<Seq<char>> {
    seq![
        "/niri "@,
        "/Hyprland "@,
        "/sway "@,
        "/gnome-shell "@,
        "/kwin_wayland "@,
        "/i3 "@,
        "/river "@,
        "/labwc "@,
    ]
}

pub open spec fn session_kind_message() -> Seq<char> {
    "Cannot replace a desktop session in place"@
}

pub open spec fn empty_argv_message() -> Seq<char> {
    "Empty launch argv"@
}

pub open spec fn missing_cwd_message() -> Seq<char> {
    "Working directory does not exist"@
}

pub open spec fn missing_exe_message(p: Seq<char>) -> Seq<char> {
    "Executable unavailable: "@ + p
}

pub open spec fn compositor_message(base: Seq<char>) -> Seq<char> {
    base + " is a compositor/session process, not a replaceable shell layer"@
}

pub open spec fn manager_env_message(key: Seq<char>) -> Seq<char> {
    "User service manager "@ + key
        + " differs from this graphical session. Review its environment before switching; Shellswitch will not import it globally."@
}

pub open spec fn propagates_message() -> Seq<char> {
    "Unit propagates stop to other units; refusing shell-only control"@
}

pub open spec fn conflicts_message() -> Seq<char> {
    "Unit has Conflicts= dependencies; review before managing it"@
}

pub open spec fn compositor_unit_message() -> Seq<char> {
    "Unit runs a compositor/session executable"@
}

/// The lower-cased file name of a program path, empty when it has none.
pub open spec fn program_base(p: Seq<char>) -> Seq<char> {
    match file_name(p) {
        Some(n) => lowercase(n),
        None => lowercase(seq![]),
    }
}

/// The value the first `KEY=` line of a manager environment gives.
pub open spec fn env_line_value(ls: Seq<Seq<char>>, key: Seq<char>) -> Option<Seq<char>>
    decreases ls.len(),
{
    if ls.len() == 0 {
        None
    } else if starts_with(ls[0], key.push('=')) {
        Some(ls[0].skip(key.len() + 1int))
    } else {
        env_line_value(ls.drop_first(), key)
    }
}

/// The first session variable, in order, whose value the manager does not share.
pub open spec fn env_mismatch(ls: Seq<Seq<char>>, vars: Seq<EnvVarView>) -> Option<Seq<char>>
    decreases vars.len(),
{
    if vars.len() == 0 {
        None
    } else {
        match env_mismatch(ls, vars.drop_last()) {
            Some(k) => Some(k),
            None => {
                let v = vars.last();
                if v.value is Some && env_line_value(ls, v.key) != v.value {
                    Some(v.key)
                } else {
                    None
                }
            },
        }
    }
}

/// A property line that is set (not just `KEY=`).
pub open spec fn set_property(ls: Seq<Seq<char>>, key: Seq<char>) -> bool {
    exists|k: int|
        0 <= k < ls.len() && starts_with(#[trigger] ls[k], key) && ls[k] != key
}

/// Why shell `c` may not be launched. `cwd_is_dir` and `exe_found` describe a
/// process backend's working directory and program; `unit` what the service
/// manager reported for a systemd backend; `vars` this session's
/// `WAYLAND_DISPLAY`, `DISPLAY` and `XDG_RUNTIME_DIR`.
pub open spec fn guard_refusal(
    c: CandidateView,
    cwd_is_dir: bool,
    exe_found: bool,
    environment: Result<Seq<char>, Seq<char>>,
    details: Result<Seq<char>, Seq<char>>,
    vars: Seq<EnvVarView>,
) -> Option<Seq<char>> {
    if c.kind == Kind::Session {
        Some(session_kind_message())
    } else {
        match c.backend {
            BackendView::Process { argv, .. } => if argv.len() == 0 {
                Some(empty_argv_message())
            } else if !cwd_is_dir {
                Some(missing_cwd_message())
            } else if !exe_found {
                Some(missing_exe_message(argv[0]))
            } else if compositor_programs().contains(program_base(argv[0])) {
                Some(compositor_message(program_base(argv[0])))
            } else {
                None
            },
            BackendView::Systemd { .. } => match environment {
                Err(e) => Some(e),
                Ok(env) => match env_mismatch(lines_of(env), vars) {
                    Some(k) => Some(manager_env_message(k)),
                    None => match details {
                        Err(e) => Some(e),
                        Ok(d) => {
                            let ls = lines_of(d);
                            if set_property(ls, "PropagatesStopTo="@) {
                                Some(propagates_message())
                            } else if set_property(ls, "Conflicts="@) {
                                Some(conflicts_message())
                            } else if exists|k: int|
                                0 <= k < compositor_paths().len() && has_sub(
                                    d,
                                    #[trigger] compositor_paths()[k],
                                ) {
                                Some(compositor_unit_message())
                            } else {
                                None
                            }
                        },
                    },
                },
            },
            BackendView::Review { .. } => None,
        }
    }
}

fn env_value_of(ls: &Vec<Vec<char>>, key: &str) -> (r: Option<String>)
    ensures
        r.deep_view() == env_line_value(ls.deep_view(), key@),
{
    let mut pat = chars_of(key);
    pat.push('=');
    assert(pat@ =~= key@.push('='));
    let mut i: usize = 0;
    assert(ls.deep_view().skip(0) =~= ls.deep_view());
    while i < ls.len()
        invariant
            i <= ls.len(),
            pat@ == key@.push('='),
            env_line_value(ls.deep_view(), key@) == env_line_value(ls.deep_view().skip(i as int), key@),
        decreases ls.len() - i,
    {
        let ghost rest = ls.deep_view().skip(i as int);
        assert(rest[0] == ls@[i as int]@);
        assert(rest.drop_first() =~= ls.deep_view().skip(i + 1));
        let l = &ls[i];
        if starts_with_chars(l.as_slice(), pat.as_slice()) {
            let mut v: Vec<char> = Vec::new();
            let mut k: usize = pat.len();
            while k < l.len()
                invariant
                    pat.len() <= k <= l.len(),
                    v@ == l@.subrange(pat.len() as int, k as int),
                decreases l.len() - k,
            {
                v.push(l[k]);
                assert(v@ =~= l@.subrange(pat.len() as int, k + 1));
                k += 1;
            }
            assert(v@ =~= l@.skip(key@.len() + 1int));
            return Some(string_of(v.as_slice()));
        }
        i += 1;
    }
    None
}

fn mismatch_of(ls: &Vec<Vec<char>>, vars: &Vec<EnvVar>) -> (r: Option<String>)
    ensures
        r.deep_view() == env_mismatch(ls.deep_view(), vars.deep_view()),
{
    let mut out: Option<String> = None;
    let mut i: usize = 0;
    while i < vars.len()
        invariant
            i <= vars.len(),
            out.deep_view() == env_mismatch(ls.deep_view(), vars.deep_view().take(i as int)),
        decreases vars.len() - i,
    {
        let ghost t = vars.deep_view().take(i + 1);
        assert(t.drop_last() =~= vars.deep_view().take(i as int));
        assert(t.last() == vars@[i as int]@);
        if out.is_none() {
            if let Some(want) = &vars[i].value {
                let got = env_value_of(ls, vars[i].key.as_str());
                let differs = match &got {
                    Some(g) => !same(g.as_str(), want.as_str()),
                    None => true,
                };
                if differs {
                    out = Some(vars[i].key.clone());
                }
            }
        }
        i += 1;
    }
    assert(vars.deep_view().take(i as int) =~= vars.deep_view());
    out
}

fn property_set(ls: &Vec<Vec<char>>, key: &str) -> (r: bool)
    ensures
        r == set_property(ls.deep_view(), key@),
{
    let k = chars_of(key);
    let mut i: usize = 0;
    while i < ls.len()
        invariant
            i <= ls.len(),
            k@ == key@,
            forall|j: int| 0 <= j < i ==> !(starts_with(#[trigger] ls.deep_view()[j], key@) && ls.deep_view()[j] != key@),
        decreases ls.len() - i,
    {
        assert(ls.deep_view()[i as int] == ls@[i as int]@);
        if starts_with_chars(ls[i].as_slice(), k.as_slice()) {
            let whole = string_of(ls[i].as_slice());
            if !same(whole.as_str(), key) {
                return true;
            }
        }
        i += 1;
    }
    false
}

fn is_compositor_program(base: &str) -> (r: bool)
    ensures
        r == compositor_programs().contains(base@),
{
    let names: Vec<&str> = vec![
        "niri",
        "hyprland",
        "sway",
        "i3",
        "gnome-shell",
        "kwin_wayland",
        "kwin_x11",
        "weston",
        "startplasma-wayland",
        "xfce4-session",
        "enlightenment",
        "labwc",
        "river",
    ];
    proof {
        reveal_strlit("niri");
        reveal_strlit("hyprland");
        reveal_strlit("sway");
        reveal_strlit("i3");
        reveal_strlit("gnome-shell");
        reveal_strlit("kwin_wayland");
        reveal_strlit("kwin_x11");
        reveal_strlit("weston");
        reveal_strlit("startplasma-wayland");
        reveal_strlit("xfce4-session");
        reveal_strlit("enlightenment");
        reveal_strlit("labwc");
        reveal_strlit("river");
        assert(names@.map_values(|s: &str| s@) =~= compositor_programs());
    }
    let mut i: usize = 0;
    while i < names.len()
        invariant
            i <= names.len(),
            names@.map_values(|s: &str| s@) == compositor_programs(),
            forall|j: int| 0 <= j < i ==> compositor_programs()[j] != base@,
        decreases names.len() - i,
    {
        assert(compositor_programs()[i as int] == names@[i as int]@);
        if same(names[i], base) {
            return true;
        }
        i += 1;
    }
    false
}

fn mentions_compositor_path(d: &str) -> (r: bool)
    ensures
        r == exists|k: int| 0 <= k < compositor_paths().len() && has_sub(d@, #[trigger] compositor_paths()[k]),
{
    let paths: Vec<&str> = vec![
        "/niri ",
        "/Hyprland ",
        "/sway ",
        "/gnome-shell ",
        "/kwin_wayland ",
        "/i3 ",
        "/river ",
        "/labwc ",
    ];
    proof {
        reveal_strlit("/niri ");
        reveal_strlit("/Hyprland ");
        reveal_strlit("/sway ");
        reveal_strlit("/gnome-shell ");
        reveal_strlit("/kwin_wayland ");
        reveal_strlit("/i3 ");
        reveal_strlit("/river ");
        reveal_strlit("/labwc ");
        assert(paths@.map_values(|s: &str| s@) =~= compositor_paths());
    }
    let mut i: usize = 0;
    while i < paths.len()
        invariant
            i <= paths.len(),
            paths@.map_values(|s: &str| s@) == compositor_paths(),
            forall|j: int| 0 <= j < i ==> !has_sub(d@, #[trigger] compositor_paths()[j]),
        decreases paths.len() - i,
    {
        assert(compositor_paths()[i as int] == paths@[i as int]@);
        if str_contains(d, paths[i]) {
            return true;
        }
        i += 1;
    }
    false
}

/// Checks that shell `c` may be launched or adopted.
pub fn guarded(
    c: &Candidate,
    cwd_is_dir: bool,
    exe_found: bool,
    unit: &UnitFacts,
    vars: &Vec<EnvVar>,
) -> (r: Result<(), String>)
    ensures
        match r {
            Ok(()) => guard_refusal(
                c@,
                cwd_is_dir,
                exe_found,
                match &unit.environment {
                    Ok(x) => Ok(x@),
                    Err(e) => Err(e@),
                },
                match &unit.details {
                    Ok(x) => Ok(x@),
                    Err(e) => Err(e@),
                },
                vars.deep_view(),
            ) is None,
            Err(e) => guard_refusal(
                c@,
                cwd_is_dir,
                exe_found,
                match &unit.environment {
                    Ok(x) => Ok(x@),
                    Err(e) => Err(e@),
                },
                match &unit.details {
                    Ok(x) => Ok(x@),
                    Err(e) => Err(e@),
                },
                vars.deep_view(),
            ) == Some(e@),
        },
{
    proof {
        reveal_strlit("Cannot replace a desktop session in place");
        reveal_strlit("Empty launch argv");
        reveal_strlit("Working directory does not exist");
        reveal_strlit("Executable unavailable: ");
        reveal_strlit(" is a compositor/session process, not a replaceable shell layer");
        reveal_strlit("User service manager ");
        reveal_strlit(" differs from this graphical session. Review its environment before switching; Shellswitch will not import it globally.");
        reveal_strlit("Unit propagates stop to other units; refusing shell-only control");
        reveal_strlit("Unit has Conflicts= dependencies; review before managing it");
        reveal_strlit("Unit runs a compositor/session executable");
        reveal_strlit("PropagatesStopTo=");
        reveal_strlit("Conflicts=");
    }
    if matches!(c.kind, Kind::Session) {
        return Err("Cannot replace a desktop session in place".to_string());
    }
    match &c.backend {
        Backend::Process { argv, .. } => {
            if argv.len() == 0 {
                return Err("Empty launch argv".to_string());
            }
            if !cwd_is_dir {
                return Err("Working directory does not exist".to_string());
            }
            assert(argv.deep_view()[0] == argv@[0]@);
            if !exe_found {
                return Err(crate::text::concat("Executable unavailable: ", argv[0].as_str()));
            }
            let base = match file_name_of(argv[0].as_str()) {
                Some(n) => to_lowercase(n.as_str()),
                None => {
                    let e = String::new();
                    assert(e@ =~= Seq::<char>::empty());
                    to_lowercase(e.as_str())
                },
            };
            assert(base@ == program_base(argv@[0]@));
            if is_compositor_program(base.as_str()) {
                return Err(crate::text::concat(
                    base.as_str(),
                    " is a compositor/session process, not a replaceable shell layer",
                ));
            }
            Ok(())
        },
        Backend::Systemd { .. } => {
            let env = match &unit.environment {
                Err(e) => return Err(e.clone()),
                Ok(x) => x,
            };
            let ev = chars_of(env.as_str());
            let ls = lines(ev.as_slice());
            let lsv: Vec<Vec<char>> = ls;
            assert(lsv.deep_view() =~= lines_of(env@)) by {
                assert forall|k: int| 0 <= k < lsv@.len() implies lsv.deep_view()[k] == lines_of(env@)[k] by {}
            }
            if let Some(k) = mismatch_of(&lsv, vars) {
                let mut m = crate::text::concat("User service manager ", k.as_str());
                crate::text::append(
                    &mut m,
                    " differs from this graphical session. Review its environment before switching; Shellswitch will not import it globally.",
                );
                return Err(m);
            }
            let d = match &unit.details {
                Err(e) => return Err(e.clone()),
                Ok(x) => x,
            };
            let dv = chars_of(d.as_str());
            let dl = lines(dv.as_slice());
            assert(dl.deep_view() =~= lines_of(d@)) by {
                assert forall|k: int| 0 <= k < dl@.len() implies dl.deep_view()[k] == lines_of(d@)[k] by {}
            }
            if property_set(&dl, "PropagatesStopTo=") {
                return Err("Unit propagates stop to other units; refusing shell-only control".to_string());
            }
            if property_set(&dl, "Conflicts=") {
                return Err("Unit has Conflicts= dependencies; review before managing it".to_string());
            }
            if mentions_compositor_path(d.as_str()) {
                return Err("Unit runs a compositor/session executable".to_string());
            }
            Ok(())
        },
        Backend::Review { .. } => Ok(()),
    }
}

} // verus!
