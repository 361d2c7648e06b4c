//! Name-independent evidence: shell APIs referenced by a file's bytes, and
//! shell libraries mapped by running processes. These yield review
//! candidates only: a layer-shell client may be a panel, a wallpaper, a
//! notification daemon or a lock screen.
use crate::discovery::{base, base_of, first_n, name_or_empty};
use crate::dup::Duplicate;
use crate::model::{Candidate, CandidateView, Kind};
use crate::path::{file_stem, file_stem_of, under};
use crate::text::{
    append, concat, debug_list, debug_list_of, decimal, decimal_of, has_sub, lines_of, occurs_at,
    starts_with,
};
use vstd::prelude::*;
use vstd::string::StringSliceAdditionalSpecFns;
use vstd::utf8::encode_utf8;

verus! {

/// `memchr::memmem::find`: the index of the first occurrence of `needle` in
/// `hay`, or `None` when it does not occur.
#[verifier::external_body]
fn find_bytes(hay: &[u8], needle: &[u8]) -> (r: Option<usize>)
    ensures
        match r {
            Some(i) => occurs_at(hay@, needle@, i as int) && forall|j: int|
                0 <= j < i ==> !occurs_at(hay@, needle@, j),
            None => !has_sub(hay@, needle@),
        },
{
    memchr::memmem::find(hay, needle)
}

/// The bytes of `s` occur in `data`.
pub fn bytes_contain(data: &[u8], s: &str) -> (r: bool)
    ensures
        r == has_sub(data@, encode_utf8(s@)),
{
    let b = s.as_bytes();
    match find_bytes(data, b) {
        Some(_) => true,
        None => false,
    }
}

/// Shell and panel API names whose presence is evidence.
pub open spec fn api_markers() -> Seq<Seq<char>> {
    seq![
        "gtk_layer_init_for_window"@,
        "gtk_layer_shell"@,
        "GtkLayerShell"@,
        "Gtk4LayerShell"@,
        "gtk4-layer-shell"@,
        "LayerShellQt"@,
        "zwlr_layer_shell_v1"@,
        "_NET_WM_WINDOW_TYPE_DOCK"@,
        "_NET_WM_WINDOW_TYPE_DESKTOP"@,
    ]
}

/// The markers among `ms` whose bytes occur in `data`, in order.
pub open spec fn found_markers(data: Seq<u8>, ms: Seq<Seq<char>>) -> Seq<Seq<char>>
    decreases ms.len(),
{
    if ms.len() == 0 {
        Seq::empty()
    } else if has_sub(data, encode_utf8(ms.last())) {
        found_markers(data, ms.drop_last()).push(ms.last())
    } else {
        found_markers(data, ms.drop_last())
    }
}

/// The API markers `data` references.
pub fn markers(data: &[u8]) -> (r: Vec<String>)
    ensures
        r.deep_view() == found_markers(data@, api_markers()),
{
    let all = [
        "gtk_layer_init_for_window",
        "gtk_layer_shell",
        "GtkLayerShell",
        "Gtk4LayerShell",
        "gtk4-layer-shell",
        "LayerShellQt",
        "zwlr_layer_shell_v1",
        "_NET_WM_WINDOW_TYPE_DOCK",
        "_NET_WM_WINDOW_TYPE_DESKTOP",
    ];
    let ghost mv = all@.map_values(|x: &str| x@);
    assert(mv =~= api_markers());
    let mut out: Vec<String> = Vec::new();
    let mut i: usize = 0;
    assert(mv.take(0) =~= Seq::<Seq<char>>::empty());
    assert(out.deep_view() =~= Seq::<Seq<char>>::empty());
    while i < all.len()
        invariant
            i <= all@.len(),
            mv == all@.map_values(|x: &str| x@),
            out.deep_view() == found_markers(data@, mv.take(i as int)),
        decreases all.len() - i,
    {
        proof {
            let w = mv.take(i + 1);
            assert(w.drop_last() =~= mv.take(i as int));
            assert(w.last() == all@[i as int]@);
        }
        if bytes_contain(data, all[i]) {
            let ghost before = out.deep_view();
            out.push(all[i].to_string());
            assert(out.deep_view() =~= before.push(all@[i as int]@));
        }
        i += 1;
    }
    assert(mv.take(i as int) =~= mv);
    out
}

pub open spec fn runtime_needles() -> Seq<Seq<char>> {
    seq!["quickshell"@, "ags run"@, "eww open"@, "exec qs "@]
}

/// A script (`#!`) whose bytes launch a shell runtime.
pub open spec fn launcher_bytes(data: Seq<u8>) -> bool {
    starts_with(data, seq![0x23u8, 0x21u8]) && exists|k: int|
        0 <= k < runtime_needles().len() && has_sub(data, encode_utf8(#[trigger] runtime_needles()[k]))
}

/// An ELF executable.
pub open spec fn elf_bytes(data: Seq<u8>) -> bool {
    starts_with(data, seq![0x7fu8, 0x45u8, 0x4cu8, 0x46u8])
}

fn bytes_start(data: &[u8], p: &[u8]) -> (r: bool)
    ensures
        r == starts_with(data@, p@),
{
    if p.len() > data.len() {
        return false;
    }
    let mut i: usize = 0;
    while i < p.len()
        invariant
            i <= p@.len(),
            p@.len() <= data@.len(),
            forall|j: int| 0 <= j < i ==> data@[j] == p@[j],
        decreases p.len() - i,
    {
        if data[i] != p[i] {
            assert(data@.take(p@.len() as int)[i as int] != p@[i as int]);
            return false;
        }
        i += 1;
    }
    assert(data@.take(p@.len() as int) =~= p@);
    true
}

/// Is `data` a script that launches a shell runtime?
pub fn is_launcher(data: &[u8]) -> (r: bool)
    ensures
        r == launcher_bytes(data@),
{
    let head: [u8; 2] = [0x23, 0x21];
    assert(head@ =~= seq![0x23u8, 0x21u8]);
    if !bytes_start(data, &head) {
        return false;
    }
    let q = bytes_contain(data, "quickshell");
    let a = bytes_contain(data, "ags run");
    let e = bytes_contain(data, "eww open");
    let x = bytes_contain(data, "exec qs ");
    proof {
        let n = runtime_needles();
        if q { assert(has_sub(data@, encode_utf8(n[0]))); }
        if a { assert(has_sub(data@, encode_utf8(n[1]))); }
        if e { assert(has_sub(data@, encode_utf8(n[2]))); }
        if x { assert(has_sub(data@, encode_utf8(n[3]))); }
        if exists|k: int| 0 <= k < n.len() && has_sub(data@, encode_utf8(#[trigger] n[k])) {
            let k = choose|k: int| 0 <= k < n.len() && has_sub(data@, encode_utf8(#[trigger] n[k]));
            assert(k == 0 || k == 1 || k == 2 || k == 3);
        }
    }
    q || a || e || x
}

/// Is `data` an ELF executable?
pub fn is_elf(data: &[u8]) -> (r: bool)
    ensures
        r == elf_bytes(data@),
{
    let head: [u8; 4] = [0x7f, 0x45, 0x4c, 0x46];
    assert(head@ =~= seq![0x7fu8, 0x45u8, 0x4cu8, 0x46u8]);
    bytes_start(data, &head)
}

// ------------------------------------------------------------ recording findings

/// The text `String::from_utf8_lossy` makes of `b`.
pub uninterp spec fn lossy(b: Seq<u8>) -> Seq<char>;

/// `String::from_utf8_lossy`: its text is named `lossy`.
#[verifier::external_body]
pub(crate) fn lossy_text(b: &[u8]) -> (r: String)
    ensures
        r@ == lossy(b@),
{
    String::from_utf8_lossy(b).into_owned()
}

/// A line of a script that shows how it launches a shell runtime.
pub open spec fn launch_evidence_line(l: Seq<char>) -> bool {
    has_sub(l, "exec "@) || has_sub(l, "quickshell"@) || has_sub(l, "ags run"@) || has_sub(l, "eww open"@)
}

pub open spec fn evidence_lines(ls: Seq<Seq<char>>) -> Seq<Seq<char>>
    decreases ls.len(),
{
    if ls.len() == 0 {
        Seq::empty()
    } else if launch_evidence_line(ls.last()) {
        evidence_lines(ls.drop_last()).push(ls.last())
    } else {
        evidence_lines(ls.drop_last())
    }
}

/// The candidate a finding is recorded under, found by its key path.
pub open spec fn finding_index(fs: Seq<CandidateView>, key: Seq<char>) -> int
    decreases fs.len(),
{
    if fs.len() == 0 {
        -1
    } else {
        let k = finding_index(fs.drop_last(), key);
        if k >= 0 {
            k
        } else if fs.last().source == key {
            fs.len() - 1
        } else {
            -1
        }
    }
}

pub open spec fn finding_framework(script: bool, binary: bool) -> Seq<char> {
    if binary {
        "native binary"@
    } else if script {
        "launcher script"@
    } else {
        "shell API source"@
    }
}

/// A candidate's evidence and protocols after recording `items` found in `path`.
pub open spec fn with_markers(c: CandidateView, path: Seq<char>, items: Seq<Seq<char>>) -> CandidateView
    decreases items.len(),
{
    if items.len() == 0 {
        c
    } else {
        let d = with_markers(c, path, items.drop_last());
        let item = items.last();
        CandidateView {
            protocols: crate::wayland::with_member(
                d.protocols,
                if has_sub(item, "_NET_WM_"@) {
                    "x11"@
                } else {
                    "wayland"@
                },
            ),
            evidence: if d.evidence.len() < 16 {
                d.evidence.push(path + " references "@ + item)
            } else {
                d.evidence
            },
            ..d
        }
    }
}

pub open spec fn script_note() -> Seq<char> {
    "Shell runtime referenced by executable script (not executed)"@
}

pub open spec fn elf_note() -> Seq<char> {
    "ELF byte evidence only; a panel/lockscreen/wallpaper is not necessarily a complete shell"@
}

/// A finding's candidate after recording what `path` showed.
pub open spec fn recorded(c: CandidateView, path: Seq<char>, data: Seq<u8>) -> CandidateView {
    let m = with_markers(c, path, found_markers(data, api_markers()));
    let s = if launcher_bytes(data) {
        CandidateView {
            evidence: m.evidence.push(script_note()) + first_n(evidence_lines(lines_of(lossy(data))), 5).map_values(
                |l: Seq<char>| first_n(l, 200),
            ),
            ..m
        }
    } else {
        m
    };
    if elf_bytes(data) {
        CandidateView { evidence: s.evidence.push(elf_note()), ..s }
    } else {
        s
    }
}

/// The bytes show a shell API marker or a launcher line.
pub open spec fn shows_evidence(data: Seq<u8>) -> bool {
    found_markers(data, api_markers()).len() > 0 || launcher_bytes(data)
}

/// The findings after recording `path`, keyed by `key`: unchanged when its
/// bytes show no shell API marker and no launcher line; otherwise a new
/// review candidate named after the key's stem unless one is recorded there.
pub open spec fn findings_after(fs: Seq<CandidateView>, key: Seq<char>, path: Seq<char>, data: Seq<u8>) -> Seq<
    CandidateView,
> {
    let k = finding_index(fs, key);
    if !shows_evidence(data) {
        fs
    } else if k >= 0 {
        fs.update(k, recorded(fs[k], path, data))
    } else {
        fs.push(
            recorded(
                base_of(
                    key,
                    crate::discovery::field_or(file_stem(key), Seq::empty()),
                    finding_framework(launcher_bytes(data), elf_bytes(data)),
                    Kind::Candidate,
                ),
                path,
                data,
            ),
        )
    }
}


fn add_markers(c: &mut Candidate, path: &str, items: &Vec<String>)
    ensures
        final(c)@ == with_markers(old(c)@, path@, items.deep_view()),
{
    proof {
        reveal_strlit("_NET_WM_");
        reveal_strlit("x11");
        reveal_strlit("wayland");
        reveal_strlit(" references ");
    }
    let ghost c0 = c@;
    let ghost iv = items.deep_view();
    let mut i: usize = 0;
    assert(iv.take(0) =~= Seq::<Seq<char>>::empty());
    while i < items.len()
        invariant
            i <= items.len(),
            iv == items.deep_view(),
            c@ == with_markers(c0, path@, iv.take(i as int)),
        decreases items.len() - i,
    {
        let item = items[i].as_str();
        proof {
            let w = iv.take(i + 1);
            assert(w.drop_last() =~= iv.take(i as int));
            assert(w.last() == item@);
        }
        let ghost before = c@;
        let x11 = crate::text::str_contains(item, "_NET_WM_");
        if !crate::text::contains_string(&c.protocols, if x11 { "x11" } else { "wayland" }) {
            c.protocols.push(if x11 { "x11".to_string() } else { "wayland".to_string() });
        }
        if c.evidence.len() < 16 {
            let t = concat(path, " references ");
            c.evidence.push(concat(t.as_str(), item));
        }
        assert(c@.protocols =~= with_markers(c0, path@, iv.take(i + 1)).protocols);
        assert(c@.evidence =~= with_markers(c0, path@, iv.take(i + 1)).evidence);
        i += 1;
    }
    assert(iv.take(i as int) =~= iv);
}

fn script_lines(data: &[u8]) -> (r: Vec<String>)
    ensures
        r.deep_view() == first_n(evidence_lines(lines_of(lossy(data@))), 5).map_values(
            |l: Seq<char>| first_n(l, 200),
        ),
{
    let t = lossy_text(data);
    let cs = crate::text::chars_of(t.as_str());
    let ls = crate::text::lines(&cs);
    let ghost lv = lines_of(t@);
    let mut picked: Vec<String> = Vec::new();
    let mut k: usize = 0;
    assert(lv.take(0) =~= Seq::<Seq<char>>::empty());
    assert(picked.deep_view() =~= Seq::<Seq<char>>::empty());
    while k < ls.len()
        invariant
            k <= ls@.len(),
            cs@ == t@,
            lv == lines_of(t@),
            ls@.len() == lv.len(),
            forall|j: int| 0 <= j < ls@.len() ==> #[trigger] ls@[j]@ == lv[j],
            picked.deep_view() == evidence_lines(lv.take(k as int)),
        decreases ls.len() - k,
    {
        let l = crate::text::string_of(&ls[k]);
        proof {
            let w = lv.take(k + 1);
            assert(w.drop_last() =~= lv.take(k as int));
            assert(w.last() == l@);
        }
        let x = l.as_str();
        if crate::text::str_contains(x, "exec ") || crate::text::str_contains(x, "quickshell")
            || crate::text::str_contains(x, "ags run") || crate::text::str_contains(x, "eww open") {
            let ghost before = picked.deep_view();
            picked.push(l);
            assert(picked.deep_view() =~= before.push(lv[k as int]));
        }
        k += 1;
    }
    assert(lv.take(k as int) =~= lv);
    let ghost all = picked.deep_view();
    let mut out: Vec<String> = Vec::new();
    let mut j: usize = 0;
    while j < picked.len() && j < 5
        invariant
            j <= picked@.len(),
            j <= 5,
            all == picked.deep_view(),
            out@.len() == j,
            forall|t: int| 0 <= t < j ==> #[trigger] out@[t]@ == first_n(all[t], 200),
        decreases picked.len() - j,
    {
        let l = crate::text::chars_of(picked[j].as_str());
        assert(l@ == all[j as int]);
        let n = if l.len() <= 200 {
            l.len()
        } else {
            200
        };
        let mut x = String::new();
        let mut q: usize = 0;
        while q < n
            invariant
                q <= n <= l@.len(),
                x@ == l@.take(q as int),
            decreases n - q,
        {
            crate::text::push_char(&mut x, l[q]);
            q += 1;
            assert(x@ =~= l@.take(q as int));
        }
        assert(x@ =~= first_n(l@, 200));
        out.push(x);
        j += 1;
    }
    assert(out.deep_view() =~= first_n(all, 5).map_values(|l: Seq<char>| first_n(l, 200)));
    out
}

fn record_into(c: &mut Candidate, path: &str, data: &[u8])
    ensures
        final(c)@ == recorded(old(c)@, path@, data@),
{
    proof {
        reveal_strlit("Shell runtime referenced by executable script (not executed)");
        reveal_strlit(
            "ELF byte evidence only; a panel/lockscreen/wallpaper is not necessarily a complete shell",
        );
    }
    let found = markers(data);
    add_markers(c, path, &found);
    let ghost m = c@;
    if is_launcher(data) {
        c.evidence.push("Shell runtime referenced by executable script (not executed)".to_string());
        let mut more = script_lines(data);
        let ghost lv = more.deep_view();
        c.evidence.append(&mut more);
        assert(c@.evidence =~= m.evidence.push(script_note()) + lv);
    }
    let ghost s1 = c@;
    if is_elf(data) {
        c.evidence.push(
            "ELF byte evidence only; a panel/lockscreen/wallpaper is not necessarily a complete shell".to_string(),
        );
        assert(c@.evidence =~= s1.evidence.push(elf_note()));
    }
}

fn find_finding(fs: &Vec<Candidate>, key: &str) -> (r: Option<usize>)
    ensures
        match r {
            Some(i) => finding_index(fs.deep_view(), key@) == i && i < fs@.len(),
            None => finding_index(fs.deep_view(), key@) == -1,
        },
{
    let ghost f0 = fs.deep_view();
    let mut i: usize = 0;
    assert(f0.take(0) =~= Seq::<CandidateView>::empty());
    while i < fs.len()
        invariant
            i <= fs.len(),
            f0 == fs.deep_view(),
            finding_index(f0.take(i as int), key@) == -1,
        decreases fs.len() - i,
    {
        proof {
            let w = f0.take(i + 1);
            assert(w.drop_last() =~= f0.take(i as int));
            assert(w.last() == fs@[i as int]@);
        }
        if crate::text::same(fs[i].source.as_str(), key) {
            proof {
                lemma_finding_prefix(f0, i + 1, key@);
            }
            return Some(i);
        }
        i += 1;
    }
    assert(f0.take(i as int) =~= f0);
    None
}

/// Records what the bytes `data` of `path` show, under the finding keyed by
/// `key` (the file itself for scripts and binaries, else its project file).
pub fn record_finding(fs: &mut Vec<Candidate>, key: &str, path: &str, data: &[u8])
    ensures
        final(fs).deep_view() == findings_after(old(fs).deep_view(), key@, path@, data@),
{
    proof {
        reveal_strlit("native binary");
        reveal_strlit("launcher script");
        reveal_strlit("shell API source");
    }
    let ghost f0 = fs.deep_view();
    let found = markers(data);
    if found.len() == 0 && !is_launcher(data) {
        return;
    }
    match find_finding(fs, key) {
        Some(i) => {
            let mut c = fs[i].duplicate();
            record_into(&mut c, path, data);
            fs.set(i, c);
            assert(fs.deep_view() =~= findings_after(f0, key@, path@, data@));
            return;
        },
        None => {},
    }
    let stem = match file_stem_of(key) {
        Some(x) => x,
        None => String::new(),
    };
    let framework = if is_elf(data) {
        "native binary"
    } else if is_launcher(data) {
        "launcher script"
    } else {
        "shell API source"
    };
    let mut c = base(key, stem, framework, Kind::Candidate);
    record_into(&mut c, path, data);
    let ghost cv = c@;
    fs.push(c);
    assert(fs.deep_view() =~= f0.push(cv));
}

/// A finding found among the first `n` is the first of all.
pub proof fn lemma_finding_prefix(fs: Seq<CandidateView>, n: int, key: Seq<char>)
    requires
        0 <= n <= fs.len(),
        finding_index(fs.take(n), key) >= 0,
    ensures
        finding_index(fs, key) == finding_index(fs.take(n), key),
    decreases fs.len() - n,
{
    if n < fs.len() {
        assert(fs.take(n + 1).drop_last() =~= fs.take(n));
        lemma_finding_prefix(fs, n + 1, key);
    } else {
        assert(fs.take(n) =~= fs);
    }
}


// ------------------------------------------------------------ which files to read

/// Directories owned by an established shell or a declared candidate.
pub open spec fn established_of(cs: Seq<CandidateView>) -> Seq<Seq<char>>
    decreases cs.len(),
{
    if cs.len() == 0 {
        Seq::empty()
    } else {
        let c = cs.last();
        established_of(cs.drop_last()) + crate::discovery::when(
            (c.kind == Kind::Shell || c.declared) && crate::path::parent(c.source) is Some,
            crate::path::parent(c.source)->0,
        )
    }
}

/// Directories owned by an established shell or a declared candidate.
pub fn established(cs: &Vec<Candidate>) -> (r: Vec<String>)
    ensures
        r.deep_view() == established_of(cs.deep_view()),
{
    let ghost cv = cs.deep_view();
    let mut out: Vec<String> = Vec::new();
    let mut i: usize = 0;
    assert(cv.take(0) =~= Seq::<CandidateView>::empty());
    assert(out.deep_view() =~= Seq::<Seq<char>>::empty());
    while i < cs.len()
        invariant
            i <= cs.len(),
            cv == cs.deep_view(),
            out.deep_view() == established_of(cv.take(i as int)),
        decreases cs.len() - i,
    {
        let c = &cs[i];
        proof {
            let w = cv.take(i + 1);
            assert(w.drop_last() =~= cv.take(i as int));
            assert(w.last() == c@);
        }
        let ghost before = out.deep_view();
        let mut added = false;
        if c.kind == Kind::Shell || c.declared {
            if let Some(p) = crate::path::parent_of(c.source.as_str()) {
                out.push(p);
                added = true;
                assert(out.deep_view() =~= before + seq![crate::path::parent(c@.source)->0]);
            }
        }
        if !added {
            assert(out.deep_view() =~= before + Seq::<Seq<char>>::empty());
        }
        i += 1;
    }
    assert(cv.take(i as int) =~= cv);
    out
}

/// A file already accounted for: inside an established tree, or a candidate itself.
pub open spec fn accounted(path: Seq<char>, dirs: Seq<Seq<char>>, cs: Seq<CandidateView>) -> bool {
    (exists|k: int| 0 <= k < dirs.len() && under(path, #[trigger] dirs[k])) || (exists|k: int|
        0 <= k < cs.len() && #[trigger] cs[k].source == path)
}

/// Is `path` already accounted for?
pub fn is_accounted(path: &str, dirs: &Vec<String>, cs: &Vec<Candidate>) -> (r: bool)
    ensures
        r == accounted(path@, dirs.deep_view(), cs.deep_view()),
{
    let mut k: usize = 0;
    while k < dirs.len()
        invariant
            k <= dirs.len(),
            forall|j: int| 0 <= j < k ==> !under(path@, #[trigger] dirs.deep_view()[j]),
        decreases dirs.len() - k,
    {
        assert(dirs.deep_view()[k as int] == dirs@[k as int]@);
        if crate::path::is_under(path, dirs[k].as_str()) {
            return true;
        }
        k += 1;
    }
    let mut k: usize = 0;
    while k < cs.len()
        invariant
            k <= cs.len(),
            forall|j: int| 0 <= j < dirs.deep_view().len() ==> !under(path@, #[trigger] dirs.deep_view()[j]),
            forall|j: int| 0 <= j < k ==> #[trigger] cs.deep_view()[j].source != path@,
        decreases cs.len() - k,
    {
        assert(cs.deep_view()[k as int] == cs@[k as int]@);
        if crate::text::same(cs[k].source.as_str(), path) {
            assert(cs.deep_view()[k as int].source == path@);
            return true;
        }
        k += 1;
    }
    false
}

/// Source files read for API evidence.
pub open spec fn api_source(path: Seq<char>) -> bool {
    match crate::path::extension(path) {
        Some(e) => e == "py"@ || e == "rs"@ || e == "c"@ || e == "cpp"@ || e == "h"@ || e == "js"@
            || e == "ts"@ || e == "tsx"@ || e == "qml"@ || e == "sh"@ || e == "vala"@ || e == "yuck"@,
        None => false,
    }
}

/// Is `path` a source file read for API evidence?
pub fn is_api_source(path: &str) -> (r: bool)
    ensures
        r == api_source(path@),
{
    match crate::path::extension_of(path) {
        Some(e) => {
            let x = e.as_str();
            crate::text::same(x, "py") || crate::text::same(x, "rs") || crate::text::same(x, "c")
                || crate::text::same(x, "cpp") || crate::text::same(x, "h") || crate::text::same(x, "js")
                || crate::text::same(x, "ts") || crate::text::same(x, "tsx") || crate::text::same(x, "qml")
                || crate::text::same(x, "sh") || crate::text::same(x, "vala") || crate::text::same(x, "yuck")
        },
        None => false,
    }
}

/// The whole scan reads at most 512 MiB.
pub open spec fn scan_budget() -> nat {
    536870912
}

/// How much of a file is read: at most 128 KiB of an executable, 512 KiB of a source file.
pub open spec fn read_size(len: u64, exec: bool) -> nat {
    let cap: nat = if exec {
        131072
    } else {
        524288
    };
    if len < cap {
        len as nat
    } else {
        cap
    }
}

/// Takes the read size of a file from what is left of the budget, unless it
/// does not fit; returns the size to read.
pub fn charge(budget: &mut usize, len: u64, exec: bool) -> (r: Option<usize>)
    ensures
        read_size(len, exec) > *old(budget) ==> r is None && *final(budget) == *old(budget),
        read_size(len, exec) <= *old(budget) ==> r == Some(read_size(len, exec) as usize) && *final(budget)
            == *old(budget) - read_size(len, exec),
{
    let cap: u64 = if exec {
        131072
    } else {
        524288
    };
    let size: u64 = if len < cap {
        len
    } else {
        cap
    };
    let n = size as usize;
    if n > *budget {
        return None;
    }
    *budget = *budget - n;
    Some(n)
}

pub open spec fn budget_warning() -> Seq<char> {
    "Generic evidence scan approached its 512 MiB budget; use narrower --root paths for full coverage"@
}

/// The warning given when less than 4 MiB of the budget is left.
pub fn budget_note(left: usize) -> (r: Option<String>)
    ensures
        left < 4194304 <==> r is Some,
        r matches Some(w) ==> w@ == budget_warning(),
{
    proof {
        reveal_strlit(
            "Generic evidence scan approached its 512 MiB budget; use narrower --root paths for full coverage",
        );
    }
    if left < 4194304 {
        Some(
            "Generic evidence scan approached its 512 MiB budget; use narrower --root paths for full coverage".to_string(),
        )
    } else {
        None
    }
}

// ------------------------------------------------------------ running processes

/// A process map that loads a shell or layer-shell library.
pub open spec fn maps_shell_library(maps: Seq<char>) -> bool {
    has_sub(maps, "libgtk-layer-shell"@) || has_sub(maps, "libgtk4-layer-shell"@) || has_sub(
        maps,
        "libLayerShellQt"@,
    ) || has_sub(maps, "libastal"@)
}

/// Does the memory map `maps` load a shell library?
pub fn loads_shell_library(maps: &str) -> (r: bool)
    ensures
        r == maps_shell_library(maps@),
{
    crate::text::str_contains(maps, "libgtk-layer-shell") || crate::text::str_contains(
        maps,
        "libgtk4-layer-shell",
    ) || crate::text::str_contains(maps, "libLayerShellQt") || crate::text::str_contains(maps, "libastal")
}

pub open spec fn mapped_note() -> Seq<char> {
    "Running process maps a shell/layer library"@
}

/// The candidates after a running process `pid`, started from `source`, was
/// seen mapping a shell library: the candidate at that source records it, or
/// a new review candidate does.
pub open spec fn with_runtime(cs: Seq<CandidateView>, source: Seq<char>, pid: u32, argv: Seq<Seq<char>>) -> Seq<
    CandidateView,
> {
    let k = finding_index(cs, source);
    if k >= 0 {
        cs.update(
            k,
            CandidateView {
                running_pids: cs[k].running_pids.push(pid),
                evidence: cs[k].evidence.push(mapped_note()),
                ..cs[k]
            },
        )
    } else {
        let b = base_of(
            source,
            crate::discovery::name_or_empty(source),
            "runtime library evidence"@,
            Kind::Candidate,
        );
        cs.push(
            CandidateView {
                evidence: seq![
                    "PID "@ + decimal(pid as nat) + " maps a shell/layer library; argv "@ + debug_list(argv),
                ],
                running_pids: seq![pid],
                ..b
            },
        )
    }
}

/// Records a running process that maps a shell library.
pub fn add_runtime(cs: &mut Vec<Candidate>, source: &str, pid: u32, argv: &Vec<String>)
    ensures
        final(cs).deep_view() == with_runtime(old(cs).deep_view(), source@, pid, argv.deep_view()),
{
    proof {
        reveal_strlit("Running process maps a shell/layer library");
        reveal_strlit("runtime library evidence");
        reveal_strlit("PID ");
        reveal_strlit(" maps a shell/layer library; argv ");
    }
    let ghost c0 = cs.deep_view();
    match find_finding(cs, source) {
        Some(k) => {
            let mut c = cs[k].duplicate();
            let ghost cv = c@;
            c.running_pids.push(pid);
            c.evidence.push("Running process maps a shell/layer library".to_string());
            assert(c@.evidence =~= cv.evidence.push(mapped_note()));
            cs.set(k, c);
            assert(cs.deep_view() =~= with_runtime(c0, source@, pid, argv.deep_view()));
        },
        None => {
            let name = match crate::path::file_name_of(source) {
                Some(n) => n,
                None => String::new(),
            };
            let mut c = base(source, name, "runtime library evidence", Kind::Candidate);
            let t = concat("PID ", decimal_of(pid as u64).as_str());
            let t = concat(t.as_str(), " maps a shell/layer library; argv ");
            let t = concat(t.as_str(), debug_list_of(argv).as_str());
            c.evidence.push(t);
            c.running_pids.push(pid);
            assert(c@.evidence =~= seq![
                "PID "@ + decimal(pid as nat) + " maps a shell/layer library; argv "@ + debug_list(argv.deep_view()),
            ]);
            assert(c@.running_pids =~= seq![pid]);
            let ghost cv = c@;
            cs.push(c);
            assert(cs.deep_view() =~= c0.push(cv));
        },
    }
}

} // verus!
