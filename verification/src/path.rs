//! Lexical operations on slash-separated paths, held as strings.
//!
//! Paths handled here are normalized: no empty (`//`) or `.` components. The
//! operations follow `std::path::Path` on such paths.
use crate::text::{
    chars_of, ends_with, index_of, lemma_index_of, occurs_at, starts_with, string_of,
};
use vstd::prelude::*;

verus! {

pub open spec fn absolute(p: Seq<char>) -> bool {
    p.len() > 0 && p[0] == '/'
}

/// `Path::join`: an absolute `child` replaces `base`; otherwise one separator
/// is placed between them unless `base` is empty or already ends in one.
pub open spec fn join(base: Seq<char>, child: Seq<char>) -> Seq<char> {
    if absolute(child) {
        child
    } else if base.len() == 0 {
        child
    } else if base.last() == '/' {
        base + child
    } else {
        base + seq!['/'] + child
    }
}

/// Index of the last `/` in `p`, or -1.
pub open spec fn last_slash(p: Seq<char>) -> int
    decreases p.len(),
{
    if p.len() == 0 {
        -1
    } else if p.last() == '/' {
        p.len() - 1
    } else {
        last_slash(p.drop_last())
    }
}

pub proof fn lemma_last_slash(p: Seq<char>)
    ensures
        -1 <= last_slash(p) < p.len(),
        last_slash(p) >= 0 ==> p[last_slash(p)] == '/',
        forall|j: int| last_slash(p) < j < p.len() ==> p[j] != '/',
    decreases p.len(),
{
    if p.len() > 0 && p.last() != '/' {
        lemma_last_slash(p.drop_last());
        assert forall|j: int| last_slash(p) < j < p.len() - 1 implies p[j] != '/' by {
            assert(p.drop_last()[j] == p[j]);
        }
    }
}

/// `p` without trailing separators, except a lone root.
pub open spec fn untrail(p: Seq<char>) -> Seq<char>
    decreases p.len(),
{
    if p.len() > 1 && p.last() == '/' {
        untrail(p.drop_last())
    } else {
        p
    }
}

/// `Path::file_name`: the last component, absent for the root and empty paths.
pub open spec fn file_name(p: Seq<char>) -> Option<Seq<char>> {
    let q = untrail(p);
    let name = q.skip(last_slash(q) + 1);
    if name.len() == 0 || name == seq!['.', '.'] {
        None
    } else {
        Some(name)
    }
}

/// `Path::parent`: the path without its last component.
pub open spec fn parent(p: Seq<char>) -> Option<Seq<char>> {
    let q = untrail(p);
    let i = last_slash(q);
    if q.len() == 0 || q == seq!['/'] {
        None
    } else if i < 0 {
        Some(Seq::empty())
    } else if i == 0 {
        Some(seq!['/'])
    } else {
        Some(q.take(i))
    }
}

/// `Path::starts_with` on normalized paths: `base` is `p` or a directory above it.
pub open spec fn under(p: Seq<char>, base: Seq<char>) -> bool {
    let b = untrail(base);
    p == b || (b.len() > 0 && b.last() == '/' && starts_with(p, b)) || starts_with(
        p,
        b + seq!['/'],
    ) || (b.len() == 0 && !absolute(p))
}

/// `Path::strip_prefix` on normalized paths.
pub open spec fn strip_prefix(p: Seq<char>, base: Seq<char>) -> Option<Seq<char>> {
    let b = untrail(base);
    if p == b {
        Some(Seq::empty())
    } else if b.len() > 0 && b.last() == '/' && starts_with(p, b) {
        Some(p.skip(b.len() as int))
    } else if starts_with(p, b + seq!['/']) {
        Some(p.skip(b.len() as int + 1))
    } else {
        None
    }
}

/// `Path::extension`: text after the last `.` of the file name, unless the
/// name starts with its only dot.
pub open spec fn extension(p: Seq<char>) -> Option<Seq<char>> {
    match file_name(p) {
        None => None,
        Some(name) => {
            let i = last_dot(name);
            if i <= 0 {
                None
            } else {
                Some(name.skip(i + 1))
            }
        },
    }
}

/// `Path::file_stem`: the file name without its extension.
pub open spec fn file_stem(p: Seq<char>) -> Option<Seq<char>> {
    match file_name(p) {
        None => None,
        Some(name) => {
            let i = last_dot(name);
            if i <= 0 {
                Some(name)
            } else {
                Some(name.take(i))
            }
        },
    }
}

pub open spec fn last_dot(p: Seq<char>) -> int
    decreases p.len(),
{
    if p.len() == 0 {
        -1
    } else if p.last() == '.' {
        p.len() - 1
    } else {
        last_dot(p.drop_last())
    }
}

pub proof fn lemma_last_dot(p: Seq<char>)
    ensures
        -1 <= last_dot(p) < p.len(),
    decreases p.len(),
{
    if p.len() > 0 && p.last() != '.' {
        lemma_last_dot(p.drop_last());
    }
}

// -------------------------------------------------------------------- exec

pub fn is_absolute(p: &str) -> (r: bool)
    ensures
        r == absolute(p@),
{
    let v = chars_of(p);
    v.len() > 0 && v[0] == '/'
}

/// `Path::join`.
pub fn join_path(base: &str, child: &str) -> (r: String)
    ensures
        r@ == join(base@, child@),
{
    let b = chars_of(base);
    let c = chars_of(child);
    if c.len() > 0 && c[0] == '/' {
        return string_of(&c);
    }
    if b.len() == 0 {
        return string_of(&c);
    }
    let mut out = b;
    if out[out.len() - 1] != '/' {
        out.push('/');
    }
    let ghost mid = out@;
    let mut i: usize = 0;
    while i < c.len()
        invariant
            i <= c.len(),
            c@ == child@,
            out@ == mid + c@.take(i as int),
        decreases c.len() - i,
    {
        out.push(c[i]);
        i += 1;
        assert(out@ =~= mid + c@.take(i as int));
    }
    assert(c@.take(i as int) =~= c@);
    assert(out@ =~= join(base@, child@));
    string_of(&out)
}

fn untrail_chars(v: &Vec<char>) -> (r: Vec<char>)
    ensures
        r@ == untrail(v@),
{
    let mut n = v.len();
    assert(v@.take(n as int) =~= v@);
    while n > 1 && v[n - 1] == '/'
        invariant
            n <= v.len(),
            untrail(v@) == untrail(v@.take(n as int)),
        decreases n,
    {
        assert(v@.take(n as int).drop_last() =~= v@.take(n - 1));
        n -= 1;
    }
    let mut out: Vec<char> = Vec::new();
    let mut j: usize = 0;
    while j < n
        invariant
            j <= n <= v.len(),
            out@ == v@.take(j as int),
        decreases n - j,
    {
        out.push(v[j]);
        j += 1;
        assert(out@ =~= v@.take(j as int));
    }
    if n > 1 {
        assert(v@.take(n as int).last() == v@[n - 1]);
    }
    assert(untrail(v@.take(n as int)) == v@.take(n as int));
    out
}

/// The path without trailing separators.
pub fn untrail_of(p: &str) -> (r: String)
    ensures
        r@ == untrail(p@),
{
    let v = chars_of(p);
    let u = untrail_chars(&v);
    string_of(&u)
}

fn find_last(v: &Vec<char>, c: char) -> (r: Option<usize>)
    ensures
        r matches Some(i) ==> i < v.len(),
        c == '/' ==> match r {
            None => last_slash(v@) == -1,
            Some(i) => last_slash(v@) == i,
        },
        c == '.' ==> match r {
            None => last_dot(v@) == -1,
            Some(i) => last_dot(v@) == i,
        },
{
    let mut n = v.len();
    assert(v@.take(n as int) =~= v@);
    while n > 0
        invariant
            n <= v.len(),
            c == '/' ==> last_slash(v@) == last_slash(v@.take(n as int)),
            c == '.' ==> last_dot(v@) == last_dot(v@.take(n as int)),
        decreases n,
    {
        if v[n - 1] == c {
            assert(v@.take(n as int).last() == c);
            return Some(n - 1);
        }
        assert(v@.take(n as int).drop_last() =~= v@.take(n - 1));
        n -= 1;
    }
    None
}

fn suffix_from(v: &Vec<char>, start: usize) -> (r: Vec<char>)
    requires
        start <= v.len(),
    ensures
        r@ == v@.skip(start as int),
{
    let mut out: Vec<char> = Vec::new();
    let mut j = start;
    while j < v.len()
        invariant
            start <= j <= v.len(),
            out@ == v@.subrange(start as int, j as int),
        decreases v.len() - j,
    {
        out.push(v[j]);
        j += 1;
        assert(out@ =~= v@.subrange(start as int, j as int));
    }
    assert(out@ =~= v@.skip(start as int));
    out
}

fn prefix_to(v: &Vec<char>, end: usize) -> (r: Vec<char>)
    requires
        end <= v.len(),
    ensures
        r@ == v@.take(end as int),
{
    let mut out: Vec<char> = Vec::new();
    let mut j: usize = 0;
    while j < end
        invariant
            j <= end <= v.len(),
            out@ == v@.take(j as int),
        decreases end - j,
    {
        out.push(v[j]);
        j += 1;
        assert(out@ =~= v@.take(j as int));
    }
    out
}

/// `Path::file_name`.
pub fn file_name_of(p: &str) -> (r: Option<String>)
    ensures
        match r {
            None => file_name(p@) is None,
            Some(s) => file_name(p@) == Some(s@),
        },
{
    let v = chars_of(p);
    let q = untrail_chars(&v);
    proof {
        lemma_last_slash(q@);
    }
    let start = match find_last(&q, '/') {
        None => 0,
        Some(i) => i + 1,
    };
    let name = suffix_from(&q, start);
    if name.len() == 0 || (name.len() == 2 && name[0] == '.' && name[1] == '.') {
        if name.len() == 2 {
            assert(name@ =~= seq!['.', '.']);
        }
        return None;
    }
    assert(!(name@ =~= seq!['.', '.']));
    Some(string_of(&name))
}

/// `Path::parent`.
pub fn parent_of(p: &str) -> (r: Option<String>)
    ensures
        match r {
            None => parent(p@) is None,
            Some(s) => parent(p@) == Some(s@),
        },
{
    let v = chars_of(p);
    let q = untrail_chars(&v);
    proof {
        lemma_last_slash(q@);
    }
    if q.len() == 0 || (q.len() == 1 && q[0] == '/') {
        if q.len() == 1 {
            assert(q@ =~= seq!['/']);
        }
        return None;
    }
    assert(!(q@ =~= seq!['/']));
    match find_last(&q, '/') {
        None => Some(String::new()),
        Some(i) => {
            if i == 0 {
                let mut r: Vec<char> = Vec::new();
                r.push('/');
                assert(r@ =~= seq!['/']);
                Some(string_of(&r))
            } else {
                let t = prefix_to(&q, i);
                Some(string_of(&t))
            }
        },
    }
}

/// `Path::extension`.
pub fn extension_of(p: &str) -> (r: Option<String>)
    ensures
        match r {
            None => extension(p@) is None,
            Some(s) => extension(p@) == Some(s@),
        },
{
    match file_name_of(p) {
        None => None,
        Some(name) => {
            let v = chars_of(name.as_str());
            proof {
                lemma_last_dot(v@);
            }
            match find_last(&v, '.') {
                None => None,
                Some(i) => {
                    if i == 0 {
                        None
                    } else {
                        let s = suffix_from(&v, i + 1);
                        Some(string_of(&s))
                    }
                },
            }
        },
    }
}

/// `Path::file_stem`.
pub fn file_stem_of(p: &str) -> (r: Option<String>)
    ensures
        match r {
            None => file_stem(p@) is None,
            Some(s) => file_stem(p@) == Some(s@),
        },
{
    match file_name_of(p) {
        None => None,
        Some(name) => {
            let v = chars_of(name.as_str());
            proof {
                lemma_last_dot(v@);
            }
            match find_last(&v, '.') {
                None => Some(name),
                Some(i) => {
                    if i == 0 {
                        Some(name)
                    } else {
                        let s = prefix_to(&v, i);
                        Some(string_of(&s))
                    }
                },
            }
        },
    }
}

/// `Path::starts_with` on normalized paths.
pub fn is_under(p: &str, base: &str) -> (r: bool)
    ensures
        r == under(p@, base@),
{
    match strip_base(p, base) {
        Some(_) => true,
        None => {
            let b = chars_of(base);
            let bu = untrail_chars(&b);
            if bu.len() == 0 {
                !is_absolute(p)
            } else {
                false
            }
        },
    }
}

/// `Path::strip_prefix` on normalized paths.
pub fn strip_base(p: &str, base: &str) -> (r: Option<String>)
    ensures
        match r {
            None => strip_prefix(p@, base@) is None,
            Some(s) => strip_prefix(p@, base@) == Some(s@),
        },
{
    let v = chars_of(p);
    let b0 = chars_of(base);
    let b = untrail_chars(&b0);
    proof {
        crate::text::lemma_occurs_at_start(v@, b@);
    }
    if v.len() == b.len() && crate::text::matches_at(&v, &b, 0) {
        return Some(String::new());
    }
    if b.len() > 0 {
        assert(b@.last() == b@[b.len() - 1]);
    }
    if b.len() > 0 && b[b.len() - 1] == '/' && crate::text::matches_at(&v, &b, 0) {
        let s = suffix_from(&v, b.len());
        return Some(string_of(&s));
    }
    let ghost bv = b@;
    let mut bs = b;
    bs.push('/');
    assert(bs@ =~= bv + seq!['/']);
    proof {
        crate::text::lemma_occurs_at_start(v@, bs@);
    }
    if crate::text::matches_at(&v, &bs, 0) {
        let s = suffix_from(&v, bs.len());
        return Some(string_of(&s));
    }
    None
}

} // verus!
