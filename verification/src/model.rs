//! Discovered shells, their launch backends, and the graphical session.
use crate::dup::{duplicate_option, duplicate_vec, Duplicate};
use crate::ownership::{Lifecycle, LifecycleView};
use crate::text::{
    append, chars_of, concat, decimal, contains_string, debug_list, debug_list_of, debug_set,
    debug_set_of, join_all, join_strings, lowercase, split_chars, split_on, string_of,
    to_lowercase,
};
use vstd::prelude::*;
use vstd::string::StrSliceExecFns;
use vstd::string::StringSliceAdditionalSpecFns;

verus! {

/// What a discovered entry is.
#[derive(Debug, Clone, Copy, PartialEq, Eq, Structural)]
pub enum Kind {
    Shell,
    Component,
    Session,
    Candidate,
}

/// The `Debug` name of a kind.
pub open spec fn kind_name(k: Kind) -> Seq<char> {
    match k {
        Kind::Shell => "Shell"@,
        Kind::Component => "Component"@,
        Kind::Session => "Session"@,
        Kind::Candidate => "Candidate"@,
    }
}

pub fn kind_text(k: Kind) -> (r: String)
    ensures
        r@ == kind_name(k),
{
    proof {
        reveal_strlit("Shell");
        reveal_strlit("Component");
        reveal_strlit("Session");
        reveal_strlit("Candidate");
    }
    match k {
        Kind::Shell => "Shell".to_string(),
        Kind::Component => "Component".to_string(),
        Kind::Session => "Session".to_string(),
        Kind::Candidate => "Candidate".to_string(),
    }
}

/// How a shell is launched and stopped.
#[derive(Debug, Clone)]
pub enum Backend {
    Process { argv: Vec<String>, cwd: String },
    Systemd { unit: String },
    Review { reason: String },
}

pub enum BackendView {
    Process { argv: Seq<Seq<char>>, cwd: Seq<char> },
    Systemd { unit: Seq<char> },
    Review { reason: Seq<char> },
}

impl View for Backend {
    type V = BackendView;

    open spec fn view(&self) -> BackendView {
        match self {
            Backend::Process { argv, cwd } => BackendView::Process {
                argv: argv.deep_view(),
                cwd: cwd@,
            },
            Backend::Systemd { unit } => BackendView::Systemd { unit: unit@ },
            Backend::Review { reason } => BackendView::Review { reason: reason@ },
        }
    }
}

impl DeepView for Backend {
    type V = BackendView;

    open spec fn deep_view(&self) -> BackendView {
        self@
    }
}

impl Duplicate for Backend {
    fn duplicate(&self) -> (r: Self) {
        match self {
            Backend::Process { argv, cwd } => Backend::Process {
                argv: duplicate_vec(argv),
                cwd: cwd.clone(),
            },
            Backend::Systemd { unit } => Backend::Systemd { unit: unit.clone() },
            Backend::Review { reason } => Backend::Review { reason: reason.clone() },
        }
    }
}

/// A discovered or declared shell. Set-like fields hold each member once.
#[derive(Debug, Clone)]
pub struct Candidate {
    pub id: String,
    pub name: String,
    pub kind: Kind,
    pub framework: String,
    pub source: String,
    pub evidence: Vec<String>,
    pub protocols: Vec<String>,
    pub compositors: Vec<String>,
    pub backend: Backend,
    pub required_globals: Vec<String>,
    pub lifecycle: Option<Lifecycle>,
    pub declared: bool,
    pub running_pids: Vec<u32>,
}

pub struct CandidateView {
    pub id: Seq<char>,
    pub name: Seq<char>,
    pub kind: Kind,
    pub framework: Seq<char>,
    pub source: Seq<char>,
    pub evidence: Seq<Seq<char>>,
    pub protocols: Seq<Seq<char>>,
    pub compositors: Seq<Seq<char>>,
    pub backend: BackendView,
    pub required_globals: Seq<Seq<char>>,
    pub lifecycle: Option<LifecycleView>,
    pub declared: bool,
    pub running_pids: Seq<u32>,
}

impl View for Candidate {
    type V = CandidateView;

    open spec fn view(&self) -> CandidateView {
        CandidateView {
            id: self.id@,
            name: self.name@,
            kind: self.kind,
            framework: self.framework@,
            source: self.source@,
            evidence: self.evidence.deep_view(),
            protocols: self.protocols.deep_view(),
            compositors: self.compositors.deep_view(),
            backend: self.backend@,
            required_globals: self.required_globals.deep_view(),
            lifecycle: self.lifecycle.deep_view(),
            declared: self.declared,
            running_pids: self.running_pids@,
        }
    }
}

impl DeepView for Candidate {
    type V = CandidateView;

    open spec fn deep_view(&self) -> CandidateView {
        self@
    }
}

impl Duplicate for Candidate {
    fn duplicate(&self) -> (r: Self) {
        let pids = self.running_pids.clone();
        assert(pids@ =~= self.running_pids@);
        Candidate {
            id: self.id.clone(),
            name: self.name.clone(),
            kind: self.kind,
            framework: self.framework.clone(),
            source: self.source.clone(),
            evidence: duplicate_vec(&self.evidence),
            protocols: duplicate_vec(&self.protocols),
            compositors: duplicate_vec(&self.compositors),
            backend: self.backend.duplicate(),
            required_globals: duplicate_vec(&self.required_globals),
            lifecycle: duplicate_option(&self.lifecycle),
            declared: self.declared,
            running_pids: pids,
        }
    }
}

/// The text a candidate is searched by (before lower-casing).
pub open spec fn search_text(c: CandidateView) -> Seq<char> {
    c.name + " "@ + c.framework + " "@ + kind_name(c.kind) + " "@ + c.source + " "@ + join_all(
        c.evidence,
        " "@,
    )
}

/// The launch description shown for a candidate.
pub open spec fn command_text(b: BackendView) -> Seq<char> {
    match b {
        BackendView::Process { argv, cwd } => "cwd: "@ + cwd + "\nargv: "@ + debug_list(argv),
        BackendView::Systemd { unit } => "systemctl --user start "@ + unit,
        BackendView::Review { reason } => "Review required: "@ + reason,
    }
}

impl Candidate {
    /// Lower-cased name, framework, kind, source and evidence, separated by spaces.
    pub fn searchable(&self) -> (r: String)
        ensures
            r@ == lowercase(search_text(self@)),
    {
        let mut s = concat(self.name.as_str(), " ");
        append(&mut s, self.framework.as_str());
        append(&mut s, " ");
        let k = kind_text(self.kind);
        append(&mut s, k.as_str());
        append(&mut s, " ");
        append(&mut s, self.source.as_str());
        append(&mut s, " ");
        let e = join_strings(&self.evidence, " ");
        append(&mut s, e.as_str());
        proof {
            reveal_strlit(" ");
        }
        assert(s@ =~= search_text(self@));
        to_lowercase(s.as_str())
    }

    /// How this candidate would be launched, for display.
    pub fn command(&self) -> (r: String)
        ensures
            r@ == command_text(self@.backend),
    {
        proof {
            reveal_strlit("cwd: ");
            reveal_strlit("\nargv: ");
            reveal_strlit("systemctl --user start ");
            reveal_strlit("Review required: ");
        }
        match &self.backend {
            Backend::Process { argv, cwd } => {
                let mut s = concat("cwd: ", cwd.as_str());
                append(&mut s, "\nargv: ");
                let d = debug_list_of(argv);
                append(&mut s, d.as_str());
                s
            },
            Backend::Systemd { unit } => concat("systemctl --user start ", unit.as_str()),
            Backend::Review { reason } => concat("Review required: ", reason.as_str()),
        }
    }
}

/// The graphical session this process runs in.
#[derive(Debug, Clone)]
pub struct Session {
    pub protocol: String,
    pub compositor: String,
    pub globals: Option<Vec<String>>,
    pub evidence: Vec<String>,
}

pub struct SessionView {
    pub protocol: Seq<char>,
    pub compositor: Seq<char>,
    pub globals: Option<Seq<Seq<char>>>,
    pub evidence: Seq<Seq<char>>,
}

impl View for Session {
    type V = SessionView;

    open spec fn view(&self) -> SessionView {
        SessionView {
            protocol: self.protocol@,
            compositor: self.compositor@,
            globals: self.globals.deep_view(),
            evidence: self.evidence.deep_view(),
        }
    }
}

pub open spec fn session_message() -> Seq<char> {
    "Full desktop session: select it at your login manager after logging out"@
}

pub open spec fn no_session_message() -> Seq<char> {
    "No graphical session detected"@
}

pub open spec fn unverified_globals_message() -> Seq<char> {
    "Required Wayland capabilities could not be verified; run inside the host graphical session"@
}

/// Members of `required` that `available` lacks, in order.
pub open spec fn missing(required: Seq<Seq<char>>, available: Seq<Seq<char>>) -> Seq<Seq<char>> {
    required.filter(|g: Seq<char>| !available.contains(g))
}

/// Why `c` cannot be switched to in session `s`, checked in this order.
pub open spec fn compatibility_of(s: SessionView, c: CandidateView) -> Result<(), Seq<char>> {
    if c.kind == Kind::Session {
        Err(session_message())
    } else if c.protocols.len() > 0 && !c.protocols.contains(s.protocol) {
        Err("Requires "@ + debug_set(c.protocols) + "; current session is "@ + s.protocol)
    } else if c.compositors.len() > 0 && !c.compositors.contains(s.compositor) {
        Err("Requires "@ + debug_set(c.compositors) + "; current compositor is "@ + s.compositor)
    } else if s.protocol == "unknown"@ {
        Err(no_session_message())
    } else if c.required_globals.len() > 0 && s.globals is None {
        Err(unverified_globals_message())
    } else if c.required_globals.len() > 0 && missing(c.required_globals, s.globals->0).len()
        > 0 {
        Err(
            "Compositor is missing required globals: "@ + debug_list(
                missing(c.required_globals, s.globals->0),
            ),
        )
    } else if c.backend is Review {
        Err(c.backend->reason)
    } else {
        Ok(())
    }
}

fn missing_of(required: &Vec<String>, available: &Vec<String>) -> (r: Vec<String>)
    ensures
        r.deep_view() == missing(required.deep_view(), available.deep_view()),
{
    let ghost pred = |g: Seq<char>| !available.deep_view().contains(g);
    let mut out: Vec<String> = Vec::new();
    let mut i: usize = 0;
    while i < required.len()
        invariant
            i <= required.len(),
            pred == (|g: Seq<char>| !available.deep_view().contains(g)),
            out.deep_view() == required.deep_view().take(i as int).filter(pred),
        decreases required.len() - i,
    {
        let ghost before = out.deep_view();
        if !contains_string(available, required[i].as_str()) {
            out.push(required[i].clone());
            assert(out.deep_view() =~= before.push(required@[i as int]@));
        } else {
            assert(out.deep_view() =~= before);
        }
        proof {
            let t = required.deep_view().take(i + 1);
            assert(t.drop_last() =~= required.deep_view().take(i as int));
            assert(t.last() == required@[i as int]@);
            reveal(Seq::filter);
        }
        i += 1;
    }
    assert(required.deep_view().take(i as int) =~= required.deep_view());
    out
}

impl Session {
    /// Whether candidate `c` may be switched to in this session, and why not.
    pub fn compatibility(&self, c: &Candidate) -> (r: Result<(), String>)
        ensures
            match (r, compatibility_of(self@, c@)) {
                (Ok(()), Ok(())) => true,
                (Err(a), Err(b)) => a@ == b,
                _ => false,
            },
    {
        proof {
            reveal_strlit("Full desktop session: select it at your login manager after logging out");
            reveal_strlit("Requires ");
            reveal_strlit("; current session is ");
            reveal_strlit("; current compositor is ");
            reveal_strlit("unknown");
            reveal_strlit("No graphical session detected");
            reveal_strlit("Required Wayland capabilities could not be verified; run inside the host graphical session");
            reveal_strlit("Compositor is missing required globals: ");
        }
        if c.kind == Kind::Session {
            return Err(
                "Full desktop session: select it at your login manager after logging out".to_string(),
            );
        }
        if c.protocols.len() > 0 && !contains_string(&c.protocols, self.protocol.as_str()) {
            let mut m = concat("Requires ", debug_set_of(&c.protocols).as_str());
            append(&mut m, "; current session is ");
            append(&mut m, self.protocol.as_str());
            return Err(m);
        }
        if c.compositors.len() > 0 && !contains_string(&c.compositors, self.compositor.as_str()) {
            let mut m = concat("Requires ", debug_set_of(&c.compositors).as_str());
            append(&mut m, "; current compositor is ");
            append(&mut m, self.compositor.as_str());
            return Err(m);
        }
        if crate::text::same(self.protocol.as_str(), "unknown") {
            return Err("No graphical session detected".to_string());
        }
        if c.required_globals.len() > 0 {
            match &self.globals {
                None => {
                    return Err(
                        "Required Wayland capabilities could not be verified; run inside the host graphical session".to_string(),
                    );
                },
                Some(globals) => {
                    let m = missing_of(&c.required_globals, globals);
                    if m.len() > 0 {
                        let d = debug_list_of(&m);
                        return Err(concat("Compositor is missing required globals: ", d.as_str()));
                    }
                },
            }
        }
        if let Backend::Review { reason } = &c.backend {
            return Err(reason.clone());
        }
        Ok(())
    }
}

// ------------------------------------------------------------ stable ids

/// FNV-1a over `bytes`, folded from the front.
pub open spec fn fnv1a(bytes: Seq<u8>) -> u64
    decreases bytes.len(),
{
    if bytes.len() == 0 {
        0xcbf29ce484222325u64
    } else {
        let h = fnv1a(bytes.drop_last());
        (h ^ (bytes.last() as u64)).wrapping_mul(0x100000001b3u64)
    }
}

/// Lower-case hexadecimal digit for `d < 16`.
pub open spec fn hex_digit(d: u64) -> char {
    if d < 10 {
        (('0' as u64) + d) as char
    } else {
        (('a' as u64) + d - 10) as char
    }
}

/// `format!("{:016x}", h)`: sixteen lower-case hex digits, most significant first.
pub open spec fn hex16(h: u64) -> Seq<char> {
    Seq::new(16, |i: int| hex_digit((h >> ((60 - 4 * i) as u64)) & 0xf))
}

fn digit(d: u64) -> (c: char)
    requires
        d < 16,
    ensures
        c == hex_digit(d),
{
    match d {
        0 => '0', 1 => '1', 2 => '2', 3 => '3', 4 => '4', 5 => '5', 6 => '6', 7 => '7',
        8 => '8', 9 => '9', 10 => 'a', 11 => 'b', 12 => 'c', 13 => 'd', 14 => 'e', _ => 'f',
    }
}

/// A stable identifier for a path: FNV-1a of its bytes as 16 hex digits.
/// Not a security or content hash.
pub fn stable_id(path: &str) -> (r: String)
    ensures
        r@ == hex16(fnv1a(path.spec_bytes())),
{
    let b = path.as_bytes();
    let mut h: u64 = 0xcbf29ce484222325u64;
    let mut i: usize = 0;
    while i < b.len()
        invariant
            i <= b.len(),
            b@ == path.spec_bytes(),
            h == fnv1a(b@.take(i as int)),
        decreases b.len() - i,
    {
        h = h ^ (b[i] as u64);
        h = h.wrapping_mul(0x100000001b3u64);
        assert(b@.take(i + 1).drop_last() =~= b@.take(i as int));
        i += 1;
    }
    assert(b@.take(i as int) =~= b@);
    let mut out: Vec<char> = Vec::new();
    let mut k: u64 = 0;
    while k < 16
        invariant
            k <= 16,
            out@ == hex16(h).take(k as int),
        decreases 16 - k,
    {
        let shift: u64 = 60 - 4 * k;
        let d = (h >> shift) & 0xf;
        assert(d < 16) by (bit_vector)
            requires
                d == (h >> shift) & 0xf,
        ;
        out.push(digit(d));
        k += 1;
        assert(out@ =~= hex16(h).take(k as int));
    }
    string_of(&out)
}

// ------------------------------------------------------------ compositor

/// The compositor names an explicit desktop setting is matched against.
pub open spec fn known_compositor(s: Seq<char>) -> bool {
    s == "hyprland"@ || s == "niri"@ || s == "sway"@ || s == "gnome"@ || s == "kde"@
}

/// The first known compositor name among `pieces`.
pub open spec fn first_known(pieces: Seq<Seq<char>>) -> Option<Seq<char>>
    decreases pieces.len(),
{
    if pieces.len() == 0 {
        None
    } else if known_compositor(pieces[0]) {
        Some(pieces[0])
    } else {
        first_known(pieces.drop_first())
    }
}

/// The compositor to route for: a known name in the explicit desktop list wins
/// over inherited socket variables; then Hyprland, Niri, Sway sockets; else the
/// first desktop entry.
pub open spec fn compositor_for(desktop: Seq<char>, niri: bool, hypr: bool, sway: bool) -> Seq<
    char,
> {
    let pieces = split_on(lowercase(desktop), ':');
    match first_known(pieces) {
        Some(name) => name,
        None => if hypr {
            "hyprland"@
        } else if niri {
            "niri"@
        } else if sway {
            "sway"@
        } else {
            pieces[0]
        },
    }
}

fn is_known(p: &Vec<char>) -> (r: bool)
    ensures
        r == known_compositor(p@),
{
    let s = string_of(p);
    proof {
        reveal_strlit("hyprland");
        reveal_strlit("niri");
        reveal_strlit("sway");
        reveal_strlit("gnome");
        reveal_strlit("kde");
    }
    crate::text::same(s.as_str(), "hyprland") || crate::text::same(s.as_str(), "niri")
        || crate::text::same(s.as_str(), "sway") || crate::text::same(s.as_str(), "gnome")
        || crate::text::same(s.as_str(), "kde")
}

/// Chooses the compositor from `XDG_CURRENT_DESKTOP` and which socket variables are set.
/// An inherited socket variable from a previous desktop must not override the
/// explicitly named current desktop.
pub fn compositor_hint(desktop: &str, niri: bool, hypr: bool, sway: bool) -> (r: String)
    ensures
        r@ == compositor_for(desktop@, niri, hypr, sway),
{
    let lower = to_lowercase(desktop);
    let v = chars_of(lower.as_str());
    let pieces = split_chars(&v, ':');
    proof {
        crate::text::lemma_split_nonempty(v@, ':');
    }
    let ghost all = split_on(v@, ':');
    assert(all.skip(0) =~= all);
    let mut i: usize = 0;
    while i < pieces.len()
        invariant
            i <= pieces.len(),
            pieces@.len() == all.len(),
            v@ == lowercase(desktop@),
            all == split_on(v@, ':'),
            forall|k: int| 0 <= k < pieces@.len() ==> #[trigger] pieces@[k]@ == all[k],
            first_known(all) == first_known(all.skip(i as int)),
        decreases pieces.len() - i,
    {
        if is_known(&pieces[i]) {
            assert(all.skip(i as int)[0] == all[i as int]);
            assert(pieces@[i as int]@ == all[i as int]);
            assert(known_compositor(all.skip(i as int)[0]));
            assert(first_known(all.skip(i as int)) == Some(all[i as int]));
            let r = string_of(&pieces[i]);
            assert(r@ == all[i as int]);
            return r;
        }
        assert(all.skip(i as int).drop_first() =~= all.skip(i + 1));
        i += 1;
    }
    assert(all.skip(i as int).len() == 0);
    proof {
        reveal_strlit("hyprland");
        reveal_strlit("niri");
        reveal_strlit("sway");
    }
    if hypr {
        "hyprland".to_string()
    } else if niri {
        "niri".to_string()
    } else if sway {
        "sway".to_string()
    } else {
        string_of(&pieces[0])
    }
}

/// What this session is, from its environment and, on Wayland, the registry
/// probe: the protocol (`wayland` when `WAYLAND_DISPLAY` is non-empty, `x11`
/// when `DISPLAY` is, else `unknown`), the compositor (`unknown` when no hint
/// names one), the advertised globals, and the evidence for each.
pub open spec fn detected_session(
    wayland_display: Seq<char>,
    display: Seq<char>,
    desktop: Seq<char>,
    compositor: Seq<char>,
    probe: Option<Result<Seq<Seq<char>>, Seq<char>>>,
) -> SessionView {
    let protocol = if wayland_display.len() > 0 {
        "wayland"@
    } else if display.len() > 0 {
        "x11"@
    } else {
        "unknown"@
    };
    let base = seq!["XDG_CURRENT_DESKTOP="@ + desktop, "Compositor routing: "@ + compositor];
    let (globals, evidence) = if protocol == "wayland"@ {
        match probe {
            Some(Ok(g)) => (
                Some(g),
                base.push("Wayland registry: "@ + decimal(g.len()) + " advertised globals"@),
            ),
            Some(Err(e)) => (None, base.push("Wayland capability probe unavailable: "@ + e)),
            None => (None, base),
        }
    } else {
        (None::<Seq<Seq<char>>>, base)
    };
    SessionView {
        protocol,
        compositor: if compositor.len() == 0 {
            "unknown"@
        } else {
            compositor
        },
        globals,
        evidence,
    }
}

impl Session {
    /// Assembles the session description. `compositor` is `compositor_hint`'s
    /// answer; `probe` the Wayland registry probe's outcome, made only on Wayland.
    pub fn detect(
        wayland_display: &str,
        display: &str,
        desktop: &str,
        compositor: String,
        probe: Option<Result<Vec<String>, String>>,
    ) -> (r: Session)
        ensures
            r@ == detected_session(
                wayland_display@,
                display@,
                desktop@,
                compositor@,
                match probe {
                    Some(Ok(g)) => Some(Ok(g.deep_view())),
                    Some(Err(e)) => Some(Err(e@)),
                    None => None,
                },
            ),
    {
        proof {
            reveal_strlit("wayland");
            reveal_strlit("x11");
            reveal_strlit("unknown");
            reveal_strlit("XDG_CURRENT_DESKTOP=");
            reveal_strlit("Compositor routing: ");
            reveal_strlit("Wayland registry: ");
            reveal_strlit(" advertised globals");
            reveal_strlit("Wayland capability probe unavailable: ");
            assert("x11"@.len() == 3);
            assert("unknown"@.len() == 7);
            assert("wayland"@.len() == 7);
            assert("unknown"@[0] != "wayland"@[0]);
        }
        let protocol = if wayland_display.unicode_len() > 0 {
            "wayland".to_string()
        } else if display.unicode_len() > 0 {
            "x11".to_string()
        } else {
            "unknown".to_string()
        };
        let mut evidence: Vec<String> = Vec::new();
        evidence.push(concat("XDG_CURRENT_DESKTOP=", desktop));
        evidence.push(concat("Compositor routing: ", compositor.as_str()));
        let ghost base = seq!["XDG_CURRENT_DESKTOP="@ + desktop@, "Compositor routing: "@ + compositor@];
        assert(evidence.deep_view() =~= base);
        let wayland = wayland_display.unicode_len() > 0;
        let globals = if wayland {
            match probe {
                Some(Ok(g)) => {
                    let n = crate::text::decimal_of(g.len() as u64);
                    let mut line = concat("Wayland registry: ", n.as_str());
                    append(&mut line, " advertised globals");
                    let ghost lv = line@;
                    evidence.push(line);
                    assert(evidence.deep_view() =~= base.push(lv));
                    Some(g)
                },
                Some(Err(e)) => {
                    let line = concat("Wayland capability probe unavailable: ", e.as_str());
                    let ghost lv = line@;
                    evidence.push(line);
                    assert(evidence.deep_view() =~= base.push(lv));
                    None
                },
                None => None,
            }
        } else {
            None
        };
        let compositor = if compositor.as_str().unicode_len() == 0 {
            "unknown".to_string()
        } else {
            compositor
        };
        Session { protocol, compositor, globals, evidence }
    }
}

} // verus!

verus! {

// ------------------------------------------------------------ laws on compositor routing

/// One of the compositor names an explicit desktop entry is taken at its word for.
spec fn named_compositor(e: Seq<char>) -> bool {
    e == "hyprland"@ || e == "niri"@ || e == "sway"@ || e == "gnome"@ || e == "kde"@
}

proof fn lemma_first_named(pieces: Seq<Seq<char>>, k: int)
    requires
        0 <= k < pieces.len(),
        named_compositor(pieces[k]),
        forall|j: int| 0 <= j < k ==> !named_compositor(#[trigger] pieces[j]),
    ensures
        first_known(pieces) == Some(pieces[k]),
    decreases k,
{
    if k > 0 {
        assert(!named_compositor(pieces[0]));
        let rest = pieces.drop_first();
        assert forall|j: int| 0 <= j < k - 1 implies !named_compositor(#[trigger] rest[j]) by {
            assert(rest[j] == pieces[j + 1]);
        }
        lemma_first_named(rest, k - 1);
    }
}

/// An explicitly named desktop wins over inherited socket variables: when a
/// `:`-separated entry of the lower-cased desktop setting is hyprland, niri,
/// sway, gnome or kde, routing goes to the first such entry, whichever
/// sockets are set.
pub proof fn law_named_desktop_wins(
    desktop: Seq<char>,
    k: int,
    niri: bool,
    hypr: bool,
    sway: bool,
)
    requires
        0 <= k < split_on(lowercase(desktop), ':').len(),
        ({
            let e = split_on(lowercase(desktop), ':')[k];
            e == "hyprland"@ || e == "niri"@ || e == "sway"@ || e == "gnome"@ || e == "kde"@
        }),
        forall|j: int|
            0 <= j < k ==> {
                let e = #[trigger] split_on(lowercase(desktop), ':')[j];
                !(e == "hyprland"@ || e == "niri"@ || e == "sway"@ || e == "gnome"@ || e == "kde"@)
            },
    ensures
        compositor_for(desktop, niri, hypr, sway) == split_on(lowercase(desktop), ':')[k],
{
    let pieces = split_on(lowercase(desktop), ':');
    assert forall|j: int| 0 <= j < k implies !named_compositor(#[trigger] pieces[j]) by {}
    lemma_first_named(pieces, k);
}

proof fn lemma_none_named(pieces: Seq<Seq<char>>)
    requires
        forall|j: int| 0 <= j < pieces.len() ==> !named_compositor(#[trigger] pieces[j]),
    ensures
        first_known(pieces) is None,
    decreases pieces.len(),
{
    if pieces.len() > 0 {
        assert(!named_compositor(pieces[0]));
        let rest = pieces.drop_first();
        assert forall|j: int| 0 <= j < rest.len() implies !named_compositor(#[trigger] rest[j]) by {
            assert(rest[j] == pieces[j + 1]);
        }
        lemma_none_named(rest);
    }
}

/// When the desktop setting names none of hyprland, niri, sway, gnome or kde,
/// the inherited sockets decide, Hyprland first, then Niri, then Sway; with
/// none of them the first desktop entry is taken as given.
pub proof fn law_sockets_decide_when_nothing_named(
    desktop: Seq<char>,
    niri: bool,
    hypr: bool,
    sway: bool,
)
    requires
        forall|j: int|
            0 <= j < split_on(lowercase(desktop), ':').len() ==> {
                let e = #[trigger] split_on(lowercase(desktop), ':')[j];
                !(e == "hyprland"@ || e == "niri"@ || e == "sway"@ || e == "gnome"@ || e == "kde"@)
            },
    ensures
        hypr ==> compositor_for(desktop, niri, hypr, sway) == "hyprland"@,
        !hypr && niri ==> compositor_for(desktop, niri, hypr, sway) == "niri"@,
        !hypr && !niri && sway ==> compositor_for(desktop, niri, hypr, sway) == "sway"@,
        !hypr && !niri && !sway ==> compositor_for(desktop, niri, hypr, sway) == split_on(
            lowercase(desktop),
            ':',
        )[0],
{
    let pieces = split_on(lowercase(desktop), ':');
    assert forall|j: int| 0 <= j < pieces.len() implies !named_compositor(#[trigger] pieces[j]) by {}
    lemma_none_named(pieces);
}

} // verus!
