//! Static startup audit, session membership and the small decisions around
//! file transactions and operator confirmation.
use crate::control::{State, StateView};
use crate::model::{Candidate, CandidateView};
use crate::ownership::{CommandGateView, ProcessMatchView};
use crate::path::{file_name, file_name_of};
use crate::ownership::{Change, ChangeView, ConfigView};
use crate::text::{
    chars_of, contains_chars, has_char, has_sub, lines, lines_of, same, starts_with,
    starts_with_chars, string_of, trim_start, trim_start_chars,
};
use vstd::prelude::*;

verus! {

// ------------------------------------------------------------ confirmation

pub open spec fn unconfirmed_message() -> Seq<char> {
    "Review with plan first, then pass --yes to authorize this operation"@
}

/// A state-changing command runs only with the operator's explicit `--yes`.
pub fn confirmed(yes: bool) -> (r: Result<(), String>)
    ensures
        yes ==> r is Ok,
        !yes ==> (r matches Err(e) && e@ == unconfirmed_message()),
{
    if !yes {
        proof {
            reveal_strlit("Review with plan first, then pass --yes to authorize this operation");
        }
        return Err("Review with plan first, then pass --yes to authorize this operation".to_string());
    }
    Ok(())
}

// ------------------------------------------------------------ transactions

/// Some registration declares service units, so the user manager must reload.
pub open spec fn needs_daemon_reload(s: StateView) -> bool {
    exists|k: int|
        0 <= k < s.installed.len() && ((#[trigger] s.installed[k]).lifecycle matches Some(l)
            && l.services.len() > 0)
}

/// Whether the user service manager must reload its units.
pub fn daemon_reload_needed(s: &State) -> (r: bool)
    ensures
        r == needs_daemon_reload(s@),
{
    let mut i: usize = 0;
    while i < s.installed.len()
        invariant
            i <= s.installed.len(),
            forall|j: int|
                0 <= j < i ==> !((#[trigger] s@.installed[j]).lifecycle matches Some(l)
                    && l.services.len() > 0),
        decreases s.installed.len() - i,
    {
        assert(s@.installed[i as int] == s.installed@[i as int]@);
        if let Some(l) = &s.installed[i].lifecycle {
            if l.services.len() > 0 {
                return true;
            }
        }
        i += 1;
    }
    false
}

/// A change writes the compositor entrypoint or one of the files it includes.
pub open spec fn touches_config(c: ConfigView, changes: Seq<ChangeView>) -> bool {
    exists|k: int|
        0 <= k < changes.len() && ((#[trigger] changes[k]).path == c.target || exists|j: int|
            0 <= j < (c.user_files + c.dependencies).len() && (c.user_files + c.dependencies)[j].path
                == changes[k].path)
}

/// Whether a file transaction must validate (and reload) the compositor configuration.
pub fn config_touched(s: &State, changes: &Vec<Change>) -> (r: bool)
    ensures
        r == (s@.config matches Some(c) && touches_config(c, changes.deep_view())),
{
    let c = match &s.config {
        None => return false,
        Some(c) => c,
    };
    let ghost files = c@.user_files + c@.dependencies;
    let mut k: usize = 0;
    while k < changes.len()
        invariant
            k <= changes.len(),
            s@.config == Some(c@),
            files == c@.user_files + c@.dependencies,
            forall|i: int|
                0 <= i < k ==> !((#[trigger] changes.deep_view()[i]).path == c@.target || exists|
                    j: int,
                | 0 <= j < files.len() && files[j].path == changes.deep_view()[i].path),
        decreases changes.len() - k,
    {
        let ch = &changes[k];
        assert(changes.deep_view()[k as int] == ch@);
        if same(ch.path.as_str(), c.target.as_str()) {
            return true;
        }
        let mut j: usize = 0;
        while j < c.user_files.len()
            invariant
                j <= c.user_files.len(),
                forall|x: int| 0 <= x < j ==> c@.user_files[x].path != ch@.path,
                files == c@.user_files + c@.dependencies,
                s@.config == Some(c@),
                k < changes.len(),
                changes.deep_view()[k as int] == ch@,
            decreases c.user_files.len() - j,
        {
            assert(c@.user_files[j as int] == c.user_files@[j as int]@);
            if same(c.user_files[j].path.as_str(), ch.path.as_str()) {
                assert(files[j as int] == c@.user_files[j as int]);
                return true;
            }
            j += 1;
        }
        let mut j: usize = 0;
        while j < c.dependencies.len()
            invariant
                j <= c.dependencies.len(),
                forall|x: int| 0 <= x < j ==> c@.dependencies[x].path != ch@.path,
                files == c@.user_files + c@.dependencies,
                s@.config == Some(c@),
                k < changes.len(),
                changes.deep_view()[k as int] == ch@,
            decreases c.dependencies.len() - j,
        {
            assert(c@.dependencies[j as int] == c.dependencies@[j as int]@);
            if same(c.dependencies[j].path.as_str(), ch.path.as_str()) {
                assert(files[c@.user_files.len() + j] == c@.dependencies[j as int]);
                return true;
            }
            j += 1;
        }
        assert forall|x: int| 0 <= x < files.len() implies files[x].path != ch@.path by {
            if x < c@.user_files.len() {
                assert(files[x] == c@.user_files[x]);
            } else {
                assert(files[x] == c@.dependencies[x - c@.user_files.len()]);
            }
        }
        k += 1;
    }
    false
}

// ------------------------------------------------------------ session membership

/// The value an environment (its `KEY=VALUE` entries, decoded) gives `key`:
/// the rest of the first entry that starts with `KEY=`.
pub open spec fn environ_value(entries: Seq<Seq<char>>, key: Seq<char>) -> Option<Seq<char>>
    decreases entries.len(),
{
    if entries.len() == 0 {
        None
    } else if starts_with(entries[0], key.push('=')) {
        Some(entries[0].skip(key.len() + 1int))
    } else {
        environ_value(entries.drop_first(), key)
    }
}

/// Looks up `key` in a process environment.
pub fn environ_get(entries: &Vec<String>, key: &str) -> (r: Option<String>)
    ensures
        r.deep_view() == environ_value(entries.deep_view(), key@),
{
    let mut pat = chars_of(key);
    pat.push('=');
    assert(pat@ =~= key@.push('='));
    let mut i: usize = 0;
    assert(entries.deep_view().skip(0) =~= entries.deep_view());
    while i < entries.len()
        invariant
            i <= entries.len(),
            pat@ == key@.push('='),
            environ_value(entries.deep_view(), key@) == environ_value(
                entries.deep_view().skip(i as int),
                key@,
            ),
        decreases entries.len() - i,
    {
        let ghost rest = entries.deep_view().skip(i as int);
        assert(rest[0] == entries@[i as int]@);
        assert(rest.drop_first() =~= entries.deep_view().skip(i + 1));
        let e = chars_of(entries[i].as_str());
        if starts_with_chars(e.as_slice(), pat.as_slice()) {
            let mut v: Vec<char> = Vec::new();
            let mut k: usize = pat.len();
            while k < e.len()
                invariant
                    pat.len() <= k <= e.len(),
                    v@ == e@.subrange(pat.len() as int, k as int),
                decreases e.len() - k,
            {
                v.push(e[k]);
                assert(v@ =~= e@.subrange(pat.len() as int, k + 1));
                k += 1;
            }
            assert(v@ =~= e@.skip(key@.len() + 1int));
            return Some(string_of(v.as_slice()));
        }
        i += 1;
    }
    None
}

/// A process belongs to this graphical session: its environment could be
/// read; when our display variable (`display_key`: `WAYLAND_DISPLAY` when set,
/// else `DISPLAY`) has a value, the process has the same one; and it does not
/// contradict our runtime directory or session id.
pub open spec fn in_session(
    display_key: Seq<char>,
    display: Option<Seq<char>>,
    runtime_dir: Option<Seq<char>>,
    session_id: Option<Seq<char>>,
    environ: Option<Seq<Seq<char>>>,
) -> bool {
    match environ {
        None => false,
        Some(env) => {
            &&& (display matches Some(d) ==> environ_value(env, display_key) == Some(d))
            &&& (runtime_dir matches Some(r) ==> (environ_value(env, "XDG_RUNTIME_DIR"@) matches Some(
                o,
            ) ==> o == r))
            &&& (session_id matches Some(r) ==> (environ_value(env, "XDG_SESSION_ID"@) matches Some(
                o,
            ) ==> o == r))
        },
    }
}

fn agrees(env: &Vec<String>, key: &str, ours: &Option<String>) -> (r: bool)
    ensures
        r == (ours matches Some(x) ==> (environ_value(env.deep_view(), key@) matches Some(o)
            ==> o == x@)),
{
    match ours {
        None => true,
        Some(x) => match environ_get(env, key) {
            None => true,
            Some(o) => same(o.as_str(), x.as_str()),
        },
    }
}

/// Does a process with environment `environ` belong to this session?
pub fn same_session(
    display_key: &str,
    display: &Option<String>,
    runtime_dir: &Option<String>,
    session_id: &Option<String>,
    environ: &Option<Vec<String>>,
) -> (r: bool)
    ensures
        r == in_session(
            display_key@,
            display.deep_view(),
            runtime_dir.deep_view(),
            session_id.deep_view(),
            environ.deep_view(),
        ),
{
    let env = match environ {
        None => return false,
        Some(e) => e,
    };
    if let Some(d) = display {
        match environ_get(env, display_key) {
            Some(o) => {
                if !same(o.as_str(), d.as_str()) {
                    return false;
                }
            },
            None => return false,
        }
    }
    proof {
        reveal_strlit("XDG_RUNTIME_DIR");
        reveal_strlit("XDG_SESSION_ID");
    }
    agrees(env, "XDG_RUNTIME_DIR", runtime_dir) && agrees(env, "XDG_SESSION_ID", session_id)
}

// ------------------------------------------------------------ startup audit

/// One startup file line that mentions a registered shell's command.
#[derive(Debug)]
pub struct StartupFinding {
    pub path: String,
    pub line: usize,
    pub shell: String,
    pub protection: String,
}

pub struct StartupFindingView {
    pub path: Seq<char>,
    pub line: usize,
    pub shell: Seq<char>,
    pub protection: Seq<char>,
}

impl View for StartupFinding {
    type V = StartupFindingView;

    open spec fn view(&self) -> StartupFindingView {
        StartupFindingView {
            path: self.path@,
            line: self.line,
            shell: self.shell@,
            protection: self.protection@,
        }
    }
}

impl DeepView for StartupFinding {
    type V = StartupFindingView;

    open spec fn deep_view(&self) -> StartupFindingView {
        self@
    }
}

/// The file names of the declared command gates.
pub open spec fn gate_names(gs: Seq<CommandGateView>) -> Seq<Seq<char>>
    decreases gs.len(),
{
    if gs.len() == 0 {
        seq![]
    } else {
        let r = gate_names(gs.drop_last());
        match file_name(gs.last().path) {
            Some(n) => r.push(n),
            None => r,
        }
    }
}

/// The arguments after the program that look like paths.
pub open spec fn path_args(args: Seq<Seq<char>>) -> Seq<Seq<char>>
    decreases args.len(),
{
    if args.len() == 0 {
        seq![]
    } else {
        let r = path_args(args.drop_last());
        if args.last().contains('/') {
            r.push(args.last())
        } else {
            r
        }
    }
}

/// The arguments after the program, if any.
pub open spec fn after_program(args: Seq<Seq<char>>) -> Seq<Seq<char>> {
    if args.len() == 0 {
        seq![]
    } else {
        args.drop_first()
    }
}

/// The path arguments of every declared process matcher.
pub open spec fn matcher_paths(ms: Seq<ProcessMatchView>) -> Seq<Seq<char>>
    decreases ms.len(),
{
    if ms.len() == 0 {
        seq![]
    } else {
        matcher_paths(ms.drop_last()) + path_args(after_program(ms.last().argv_prefix))
    }
}

/// What identifies a registered shell in a startup file: its command gates'
/// names and the paths its process matchers name.
pub open spec fn startup_tokens(c: CandidateView) -> Seq<Seq<char>> {
    match c.lifecycle {
        None => seq![],
        Some(l) => gate_names(l.commands) + matcher_paths(l.processes),
    }
}

/// A line that is not a comment and contains a non-empty token.
pub open spec fn line_mentions(line: Seq<char>, tokens: Seq<Seq<char>>) -> bool {
    !starts_with(trim_start(line), "#"@) && !starts_with(trim_start(line), "//"@) && exists|k: int|
        0 <= k < tokens.len() && tokens[k].len() > 0 && has_sub(line, #[trigger] tokens[k])
}

pub open spec fn owned_protection() -> Seq<char> {
    "owned startup file; doctor checks drift"@
}

pub open spec fn external_protection() -> Seq<char> {
    "external reference; only declared command gates apply, inspect indirect/raw launch"@
}

/// The protection a finding reports: whether the file is owned.
pub open spec fn protection_of(s: StateView, path: Seq<char>) -> Seq<char> {
    if exists|k: int| 0 <= k < s.protections.len() && (#[trigger] s.protections[k]).path == path {
        owned_protection()
    } else {
        external_protection()
    }
}

/// The findings for shell `c` among the first lines, in line order.
pub open spec fn shell_findings(
    c: CandidateView,
    ls: Seq<Seq<char>>,
    path: Seq<char>,
    protection: Seq<char>,
) -> Seq<StartupFindingView>
    decreases ls.len(),
{
    if ls.len() == 0 {
        seq![]
    } else {
        let r = shell_findings(c, ls.drop_last(), path, protection);
        if line_mentions(ls.last(), startup_tokens(c)) {
            r.push(
                StartupFindingView {
                    path,
                    line: ls.len() as usize,
                    shell: c.id,
                    protection,
                },
            )
        } else {
            r
        }
    }
}

/// The findings of every registration, registration by registration.
pub open spec fn all_findings(
    inst: Seq<CandidateView>,
    ls: Seq<Seq<char>>,
    path: Seq<char>,
    protection: Seq<char>,
) -> Seq<StartupFindingView>
    decreases inst.len(),
{
    if inst.len() == 0 {
        seq![]
    } else {
        all_findings(inst.drop_last(), ls, path, protection) + shell_findings(
            inst.last(),
            ls,
            path,
            protection,
        )
    }
}

/// Where a stable insertion by line puts `x` into `s`: before the first finding
/// on a later line.
pub open spec fn finding_pos(s: Seq<StartupFindingView>, x: StartupFindingView) -> int
    decreases s.len(),
{
    if s.len() == 0 {
        0
    } else {
        let k = finding_pos(s.drop_last(), x);
        if k < s.len() - 1 {
            k
        } else if x.line < s.last().line {
            s.len() - 1
        } else {
            s.len() as int
        }
    }
}

proof fn lemma_finding_pos(s: Seq<StartupFindingView>, x: StartupFindingView)
    ensures
        0 <= finding_pos(s, x) <= s.len(),
        forall|j: int| 0 <= j < finding_pos(s, x) ==> !(x.line < (#[trigger] s[j]).line),
        finding_pos(s, x) < s.len() ==> x.line < s[finding_pos(s, x)].line,
    decreases s.len(),
{
    if s.len() > 0 {
        lemma_finding_pos(s.drop_last(), x);
        assert forall|j: int| 0 <= j < finding_pos(s, x) && j < s.len() - 1 implies s.drop_last()[j]
            == s[j] by {}
    }
}

/// The findings ordered by line, those on one line in their original order.
pub open spec fn by_line(fs: Seq<StartupFindingView>) -> Seq<StartupFindingView>
    decreases fs.len(),
{
    if fs.len() == 0 {
        seq![]
    } else {
        let t = by_line(fs.drop_last());
        t.insert(finding_pos(t, fs.last()), fs.last())
    }
}

proof fn lemma_by_line_len(fs: Seq<StartupFindingView>)
    ensures
        by_line(fs).len() == fs.len(),
    decreases fs.len(),
{
    if fs.len() > 0 {
        lemma_by_line_len(fs.drop_last());
        lemma_finding_pos(by_line(fs.drop_last()), fs.last());
    }
}

/// Everything the static audit reports for one startup file: every non-comment
/// line that names a registered shell's command, by line.
pub open spec fn file_findings(s: StateView, path: Seq<char>, text: Seq<char>) -> Seq<
    StartupFindingView,
> {
    by_line(all_findings(s.installed, lines_of(text), path, protection_of(s, path)))
}

fn tokens_of(c: &Candidate) -> (r: Vec<String>)
    ensures
        r.deep_view() == startup_tokens(c@),
{
    let mut out: Vec<String> = Vec::new();
    if let Some(l) = &c.lifecycle {
        let mut i: usize = 0;
        while i < l.commands.len()
            invariant
                i <= l.commands.len(),
                out.deep_view() == gate_names(l.commands.deep_view().take(i as int)),
            decreases l.commands.len() - i,
        {
            let ghost t = l.commands.deep_view().take(i + 1);
            assert(t.drop_last() =~= l.commands.deep_view().take(i as int));
            assert(t.last() == l.commands@[i as int]@);
            if let Some(n) = file_name_of(l.commands[i].path.as_str()) {
                let ghost b = out.deep_view();
                out.push(n);
                assert(out.deep_view() =~= b.push(file_name(l.commands@[i as int]@.path)->Some_0));
            }
            i += 1;
        }
        assert(l.commands.deep_view().take(i as int) =~= l.commands.deep_view());
        let ghost names = out.deep_view();
        let mut m: usize = 0;
        while m < l.processes.len()
            invariant
                m <= l.processes.len(),
                names == gate_names(l@.commands),
                out.deep_view() == names + matcher_paths(l.processes.deep_view().take(m as int)),
            decreases l.processes.len() - m,
        {
            let ghost t = l.processes.deep_view().take(m + 1);
            assert(t.drop_last() =~= l.processes.deep_view().take(m as int));
            assert(t.last() == l.processes@[m as int]@);
            let args = &l.processes[m].argv_prefix;
            let ghost before = out.deep_view();
            let ghost rest = after_program(args.deep_view());
            let mut k: usize = 1;
            if args.len() == 0 {
                assert(rest =~= Seq::<Seq<char>>::empty());
                assert(path_args(rest) =~= Seq::<Seq<char>>::empty());
                assert(out.deep_view() =~= before + path_args(rest));
            } else {
                assert(rest.take(0) =~= Seq::<Seq<char>>::empty());
                assert(out.deep_view() =~= before + path_args(rest.take(0)));
            }
            while k < args.len()
                invariant
                    1 <= k,
                    args.len() == 0 || k <= args.len(),
                    rest == after_program(args.deep_view()),
                    args.len() > 0 ==> out.deep_view() == before + path_args(rest.take(k - 1)),
                    args.len() == 0 ==> out.deep_view() == before + path_args(rest),
                decreases args.len() - k,
            {
                let ghost u = rest.take(k as int);
                assert(u.drop_last() =~= rest.take(k - 1));
                assert(u.last() == args@[k as int]@);
                if has_char(args[k].as_str(), '/') {
                    let ghost b = out.deep_view();
                    out.push(args[k].clone());
                    assert(out.deep_view() =~= b.push(args@[k as int]@));
                }
                k += 1;
            }
            if args.len() > 0 {
                assert(rest.take(k - 1) =~= rest);
            }
            assert(out.deep_view() == before + path_args(rest));
            assert(l.processes@[m as int]@.argv_prefix == args.deep_view());
            assert(matcher_paths(t) == matcher_paths(t.drop_last()) + path_args(
                after_program(t.last().argv_prefix),
            ));
            assert(matcher_paths(t) == matcher_paths(l.processes.deep_view().take(m as int))
                + path_args(rest));
            assert(before + path_args(rest) =~= names + matcher_paths(t));
            m += 1;
        }
        assert(l.processes.deep_view().take(m as int) =~= l.processes.deep_view());
    }
    out
}

fn mentions(line: &Vec<char>, tokens: &Vec<String>) -> (r: bool)
    ensures
        r == line_mentions(line@, tokens.deep_view()),
{
    let t = trim_start_chars(line.as_slice());
    let hash = chars_of("#");
    let slashes = chars_of("//");
    proof {
        reveal_strlit("#");
        reveal_strlit("//");
    }
    if starts_with_chars(t.as_slice(), hash.as_slice()) || starts_with_chars(
        t.as_slice(),
        slashes.as_slice(),
    ) {
        return false;
    }
    assert(t@ == trim_start(line@));
    assert(!starts_with(trim_start(line@), "#"@));
    assert(!starts_with(trim_start(line@), "//"@));
    let mut k: usize = 0;
    while k < tokens.len()
        invariant
            k <= tokens.len(),
            !starts_with(trim_start(line@), "#"@),
            !starts_with(trim_start(line@), "//"@),
            forall|j: int|
                0 <= j < k ==> !(tokens.deep_view()[j].len() > 0 && has_sub(
                    line@,
                    #[trigger] tokens.deep_view()[j],
                )),
        decreases tokens.len() - k,
    {
        let tk = chars_of(tokens[k].as_str());
        assert(tokens.deep_view()[k as int] == tk@);
        if tk.len() > 0 && contains_chars(line.as_slice(), tk.as_slice()) {
            return true;
        }
        k += 1;
    }
    false
}

/// What the static audit reports for one startup file at `path` with content
/// `text`; files and directories are walked by the caller.
pub fn startup_findings(s: &State, path: &str, text: &str) -> (r: Vec<StartupFinding>)
    ensures
        r.deep_view() == file_findings(s@, path@, text@),
{
    proof {
        reveal_strlit("owned startup file; doctor checks drift");
        reveal_strlit("external reference; only declared command gates apply, inspect indirect/raw launch");
    }
    let mut owned = false;
    let mut i: usize = 0;
    while i < s.protections.len()
        invariant
            i <= s.protections.len(),
            !owned ==> forall|j: int| 0 <= j < i ==> (#[trigger] s@.protections[j]).path != path@,
            owned ==> exists|j: int| 0 <= j < s@.protections.len() && (#[trigger] s@.protections[j]).path == path@,
        decreases s.protections.len() - i,
    {
        assert(s@.protections[i as int] == s.protections@[i as int]@);
        if !owned && same(s.protections[i].path.as_str(), path) {
            owned = true;
        }
        i += 1;
    }
    let protection = if owned {
        "owned startup file; doctor checks drift".to_string()
    } else {
        "external reference; only declared command gates apply, inspect indirect/raw launch".to_string()
    };
    assert(protection@ == protection_of(s@, path@));
    let chars = chars_of(text);
    let ls = lines(chars.as_slice());
    let ghost lv = lines_of(text@);
    assert forall|k: int| 0 <= k < ls@.len() implies #[trigger] ls@[k]@ == lv[k] by {}
    let mut all: Vec<StartupFinding> = Vec::new();
    let mut c: usize = 0;
    while c < s.installed.len()
        invariant
            c <= s.installed.len(),
            ls@.len() == lv.len(),
            lv == lines_of(text@),
            forall|k: int| 0 <= k < ls@.len() ==> #[trigger] ls@[k]@ == lv[k],
            protection@ == protection_of(s@, path@),
            all.deep_view() == all_findings(s@.installed.take(c as int), lv, path@, protection@),
        decreases s.installed.len() - c,
    {
        let ghost t = s@.installed.take(c + 1);
        assert(t.drop_last() =~= s@.installed.take(c as int));
        assert(t.last() == s.installed@[c as int]@);
        let cand = &s.installed[c];
        let tokens = tokens_of(cand);
        let ghost before = all.deep_view();
        let mut n: usize = 0;
        while n < ls.len()
            invariant
                n <= ls.len(),
                ls@.len() == lv.len(),
                forall|k: int| 0 <= k < ls@.len() ==> #[trigger] ls@[k]@ == lv[k],
                tokens.deep_view() == startup_tokens(cand@),
                all.deep_view() == before + shell_findings(cand@, lv.take(n as int), path@, protection@),
            decreases ls.len() - n,
        {
            let ghost u = lv.take(n + 1);
            assert(u.drop_last() =~= lv.take(n as int));
            assert(u.last() == ls@[n as int]@);
            if mentions(&ls[n], &tokens) {
                let ghost b = all.deep_view();
                all.push(
                    StartupFinding {
                        path: path.to_string(),
                        line: n + 1,
                        shell: cand.id.clone(),
                        protection: protection.clone(),
                    },
                );
                assert(all.deep_view() =~= b.push(
                    StartupFindingView { path: path@, line: (n + 1) as usize, shell: cand@.id, protection: protection@ },
                ));
            }
            n += 1;
        }
        assert(lv.take(n as int) =~= lv);
        c += 1;
    }
    assert(s@.installed.take(c as int) =~= s@.installed);
    sort_by_line(all)
}

/// Orders findings by line, keeping the order of those on one line.
fn sort_by_line(fs: Vec<StartupFinding>) -> (r: Vec<StartupFinding>)
    ensures
        r.deep_view() == by_line(fs.deep_view()),
{
    let ghost fv = fs.deep_view();
    let mut out: Vec<StartupFinding> = Vec::new();
    let mut i: usize = 0;
    assert(fv.take(0) =~= Seq::<StartupFindingView>::empty());
    assert(out.deep_view() =~= Seq::<StartupFindingView>::empty());
    while i < fs.len()
        invariant
            i <= fs.len(),
            fv == fs.deep_view(),
            out.deep_view() == by_line(fv.take(i as int)),
            out@.len() == i,
        decreases fs.len() - i,
    {
        let f = &fs[i];
        proof {
            let w = fv.take(i + 1);
            assert(w.drop_last() =~= fv.take(i as int));
            assert(w.last() == f@);
            lemma_finding_pos(out.deep_view(), f@);
        }
        let ghost t = out.deep_view();
        let mut pos: usize = 0;
        while pos < out.len() && !(f.line < out[pos].line)
            invariant
                pos <= out@.len(),
                t == out.deep_view(),
                out@.len() == t.len(),
                forall|j: int| 0 <= j < pos ==> !(f@.line < (#[trigger] t[j]).line),
            decreases out.len() - pos,
        {
            assert(t[pos as int] == out@[pos as int]@);
            pos += 1;
        }
        proof {
            if pos < out@.len() {
                assert(t[pos as int] == out@[pos as int]@);
            }
            if pos < finding_pos(t, f@) {
                assert(!(f@.line < t[pos as int].line));
            }
            if finding_pos(t, f@) < pos {
                assert(!(f@.line < t[finding_pos(t, f@)].line));
            }
        }
        let copy = StartupFinding {
            path: f.path.clone(),
            line: f.line,
            shell: f.shell.clone(),
            protection: f.protection.clone(),
        };
        out.insert(pos, copy);
        assert(out.deep_view() =~= t.insert(pos as int, f@));
        i += 1;
    }
    assert(fv.take(i as int) =~= fv);
    out
}

} // verus!
