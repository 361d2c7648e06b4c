//! Character-level helpers on which the rest of the library states its rules.
use vstd::prelude::*;

verus! {

/// Appends one character; `String::push`.
#[verifier::external_body]
pub(crate) fn push_char(s: &mut String, c: char)
    ensures
        final(s)@ == old(s)@.push(c),
{
    s.push(c);
}

/// The Unicode lower-case mapping of a string, as `str::to_lowercase` computes it.
pub uninterp spec fn lowercase(s: Seq<char>) -> Seq<char>;

/// `str::to_lowercase`: its result is named `lowercase`; nothing more is claimed.
#[verifier::external_body]
pub(crate) fn to_lowercase(s: &str) -> (r: String)
    ensures
        r@ == lowercase(s@),
{
    s.to_lowercase()
}

/// Unicode `White_Space` (PropList.txt): the ASCII tab, line feed, vertical
/// tab, form feed, carriage return and space, next line, no-break space,
/// Ogham space mark, the spaces from en quad to hair space, line and
/// paragraph separators, narrow no-break space, medium mathematical space
/// and ideographic space.
pub open spec fn whitespace(c: char) -> bool {
    let u = c as u32;
    ||| 0x09 <= u <= 0x0D
    ||| u == 0x20
    ||| u == 0x85
    ||| u == 0xA0
    ||| u == 0x1680
    ||| 0x2000 <= u <= 0x200A
    ||| u == 0x2028
    ||| u == 0x2029
    ||| u == 0x202F
    ||| u == 0x205F
    ||| u == 0x3000
}

/// `char::is_whitespace`: true exactly for the `White_Space` characters.
#[verifier::external_body]
pub(crate) fn is_whitespace(c: char) -> (r: bool)
    ensures
        r == whitespace(c),
{
    c.is_whitespace()
}

/// The `Debug` rendering of one string (quoted and escaped), as `format!("{:?}")` gives it.
pub uninterp spec fn debug_quoted(s: Seq<char>) -> Seq<char>;

/// `<str as Debug>::fmt` through `format!`: its result is named `debug_quoted`.
#[verifier::external_body]
pub(crate) fn debug_str(s: &str) -> (r: String)
    ensures
        r@ == debug_quoted(s@),
{
    format!("{:?}", s)
}

/// The characters of `s`, in order.
pub fn chars_of(s: &str) -> (v: Vec<char>)
    ensures
        v@ == s@,
{
    let mut v: Vec<char> = Vec::new();
    for c in it: s.chars()
        invariant
            v@ == it.seq().take(it.index() as int),
            it.seq() == s@,
    {
        v.push(c);
    }
    v
}

/// A string holding exactly the characters of `v`.
pub fn string_of(v: &[char]) -> (s: String)
    ensures
        s@ == v@,
{
    let mut s = String::new();
    let mut i: usize = 0;
    while i < v.len()
        invariant
            i <= v.len(),
            s@ == v@.take(i as int),
        decreases v.len() - i,
    {
        push_char(&mut s, v[i]);
        i += 1;
        assert(s@ =~= v@.take(i as int));
    }
    assert(v@.take(i as int) =~= v@);
    s
}

/// Concatenation of two strings.
pub fn concat(a: &str, b: &str) -> (s: String)
    ensures
        s@ == a@ + b@,
{
    let mut v = chars_of(a);
    let w = chars_of(b);
    let mut i: usize = 0;
    while i < w.len()
        invariant
            i <= w.len(),
            w@ == b@,
            v@ == a@ + b@.take(i as int),
        decreases w.len() - i,
    {
        v.push(w[i]);
        i += 1;
        assert(v@ =~= a@ + b@.take(i as int));
    }
    assert(b@.take(i as int) =~= b@);
    string_of(&v)
}

/// Appends `b` to `a`.
pub fn append(a: &mut String, b: &str)
    ensures
        final(a)@ == old(a)@ + b@,
{
    let r = concat(a.as_str(), b);
    *a = r;
}

/// Equality of two strings by their characters.
pub fn same(a: &str, b: &str) -> (r: bool)
    ensures
        r == (a@ == b@),
{
    let x = chars_of(a);
    let y = chars_of(b);
    if x.len() != y.len() {
        return false;
    }
    let mut i: usize = 0;
    while i < x.len()
        invariant
            i <= x.len(),
            x.len() == y.len(),
            x@ == a@,
            y@ == b@,
            x@.take(i as int) == y@.take(i as int),
        decreases x.len() - i,
    {
        if x[i] != y[i] {
            assert(x@[i as int] != y@[i as int]);
            return false;
        }
        assert(x@.take(i + 1) =~= x@.take(i as int).push(x@[i as int]));
        assert(y@.take(i + 1) =~= y@.take(i as int).push(y@[i as int]));
        i += 1;
    }
    assert(x@.take(i as int) =~= x@);
    assert(y@.take(i as int) =~= y@);
    true
}

// ---------------------------------------------------------------- sequences

/// `needle` occurs in `hay` at position `i`.
pub open spec fn occurs_at<T>(hay: Seq<T>, needle: Seq<T>, i: int) -> bool {
    0 <= i && i + needle.len() <= hay.len() && hay.subrange(i, i + needle.len()) == needle
}

/// `needle` occurs somewhere in `hay`.
pub open spec fn has_sub<T>(hay: Seq<T>, needle: Seq<T>) -> bool {
    exists|i: int| occurs_at(hay, needle, i)
}

pub open spec fn starts_with<T>(hay: Seq<T>, prefix: Seq<T>) -> bool {
    prefix.len() <= hay.len() && hay.take(prefix.len() as int) == prefix
}

pub proof fn lemma_occurs_at_start<T>(hay: Seq<T>, needle: Seq<T>)
    ensures
        occurs_at(hay, needle, 0) == starts_with(hay, needle),
        (occurs_at(hay, needle, 0) && hay.len() == needle.len()) == (hay == needle),
{
    if needle.len() <= hay.len() {
        assert(hay.subrange(0, needle.len() as int) =~= hay.take(needle.len() as int));
    }
    if hay == needle {
        assert(hay.subrange(0, needle.len() as int) =~= hay);
    }
    if occurs_at(hay, needle, 0) && hay.len() == needle.len() {
        assert(hay.subrange(0, needle.len() as int) =~= hay);
    }
}

pub open spec fn ends_with<T>(hay: Seq<T>, suffix: Seq<T>) -> bool {
    suffix.len() <= hay.len() && hay.skip(hay.len() - suffix.len()) == suffix
}

/// Index of the first `c` in `s`, or -1.
pub open spec fn index_of<T>(s: Seq<T>, c: T) -> int
    decreases s.len(),
{
    if s.len() == 0 {
        -1
    } else if s[0] == c {
        0
    } else {
        let r = index_of(s.drop_first(), c);
        if r < 0 {
            -1
        } else {
            r + 1
        }
    }
}

pub proof fn lemma_index_of<T>(s: Seq<T>, c: T)
    ensures
        index_of(s, c) == -1 ==> forall|j: int| 0 <= j < s.len() ==> s[j] != c,
        index_of(s, c) != -1 ==> 0 <= index_of(s, c) < s.len() && s[index_of(s, c)] == c
            && forall|j: int| 0 <= j < index_of(s, c) ==> s[j] != c,
    decreases s.len(),
{
    if s.len() > 0 && s[0] != c {
        lemma_index_of(s.drop_first(), c);
        assert forall|j: int| 1 <= j < s.len() implies s[j] == s.drop_first()[j - 1] by {}
    }
}

pub proof fn lemma_index_of_is<T>(s: Seq<T>, c: T, k: int)
    requires
        0 <= k < s.len(),
        s[k] == c,
        forall|j: int| 0 <= j < k ==> s[j] != c,
    ensures
        index_of(s, c) == k,
{
    lemma_index_of(s, c);
    if index_of(s, c) == -1 {
        assert(s[k] != c);
    }
}

pub proof fn lemma_index_of_none<T>(s: Seq<T>, c: T)
    requires
        forall|j: int| 0 <= j < s.len() ==> s[j] != c,
    ensures
        index_of(s, c) == -1,
{
    lemma_index_of(s, c);
}

/// Pieces of `s` between occurrences of `sep` (like `str::split` with one character).
pub open spec fn split_on<T>(s: Seq<T>, sep: T) -> Seq<Seq<T>>
    decreases s.len(),
{
    let i = index_of(s, sep);
    if i < 0 {
        seq![s]
    } else {
        proof {
            lemma_index_of(s, sep);
        }
        seq![s.take(i)] + split_on(s.skip(i + 1), sep)
    }
}

/// The first piece of `split_on`.
pub open spec fn before_first<T>(s: Seq<T>, sep: T) -> Seq<T> {
    let i = index_of(s, sep);
    if i < 0 {
        s
    } else {
        s.take(i)
    }
}

pub proof fn lemma_split_nonempty<T>(s: Seq<T>, sep: T)
    ensures
        split_on(s, sep).len() >= 1,
        split_on(s, sep)[0] == before_first(s, sep),
{
    lemma_index_of(s, sep);
}

/// Splits the characters of `s` at every `sep`.
pub fn split_chars(s: &[char], sep: char) -> (r: Vec<Vec<char>>)
    ensures
        r@.len() == split_on(s@, sep).len(),
        forall|k: int| 0 <= k < r@.len() ==> #[trigger] r@[k]@ == split_on(s@, sep)[k],
{
    let ghost whole = s@;
    let mut out: Vec<Vec<char>> = Vec::new();
    let ghost mut done: Seq<Seq<char>> = Seq::empty();
    let mut cur: Vec<char> = Vec::new();
    let mut start: usize = 0;
    let mut i: usize = 0;
    assert(s@.skip(0) =~= s@);
    while i < s.len()
        invariant
            start <= i <= s.len(),
            cur@ == s@.subrange(start as int, i as int),
            forall|j: int| start <= j < i ==> s@[j] != sep,
            out@.len() == done.len(),
            forall|k: int| 0 <= k < out@.len() ==> #[trigger] out@[k]@ == done[k],
            split_on(s@, sep) == done + split_on(s@.skip(start as int), sep),
        decreases s.len() - i,
    {
        if s[i] == sep {
            let ghost t = s@.skip(start as int);
            assert forall|j: int| 0 <= j < i - start implies t[j] != sep by {}
            proof {
                lemma_index_of_is(t, sep, i - start);
            }
            assert(t.take(i - start) =~= cur@);
            assert(t.skip(i - start + 1) =~= s@.skip(i + 1));
            proof {
                done = done.push(cur@);
            }
            out.push(cur);
            assert(split_on(s@, sep) =~= done + split_on(s@.skip(i + 1), sep));
            cur = Vec::new();
            i += 1;
            start = i;
        } else {
            cur.push(s[i]);
            i += 1;
            assert(cur@ =~= s@.subrange(start as int, i as int));
        }
    }
    let ghost t = s@.skip(start as int);
    proof {
        lemma_index_of_none(t, sep);
    }
    assert(t =~= cur@);
    proof {
        done = done.push(cur@);
    }
    out.push(cur);
    assert(split_on(s@, sep) =~= done);
    out
}

/// Does `needle` occur in `hay`?
pub fn contains_chars(hay: &[char], needle: &[char]) -> (r: bool)
    ensures
        r == has_sub(hay@, needle@),
{
    if needle.len() > hay.len() {
        return false;
    }
    let last = hay.len() - needle.len();
    let mut i: usize = 0;
    while i < last
        invariant
            needle.len() <= hay.len(),
            last == hay.len() - needle.len(),
            i <= last,
            forall|k: int| 0 <= k < i ==> !occurs_at(hay@, needle@, k),
        decreases last - i,
    {
        if matches_at(hay, needle, i) {
            return true;
        }
        i += 1;
    }
    if matches_at(hay, needle, last) {
        return true;
    }
    assert forall|k: int| !occurs_at(hay@, needle@, k) by {
        if 0 <= k && k + needle@.len() <= hay@.len() {
            assert(k <= last);
        }
    }
    false
}

/// Does `needle` occur at position `i` of `hay`?
pub fn matches_at(hay: &[char], needle: &[char], i: usize) -> (r: bool)
    ensures
        r == occurs_at(hay@, needle@, i as int),
{
    if i > hay.len() || needle.len() > hay.len() - i {
        return false;
    }
    let mut j: usize = 0;
    while j < needle.len()
        invariant
            j <= needle.len(),
            i + needle.len() <= hay.len(),
            forall|k: int| 0 <= k < j ==> hay@[i + k] == needle@[k],
        decreases needle.len() - j,
    {
        if hay[i + j] != needle[j] {
            assert(hay@.subrange(i as int, i + needle@.len())[j as int] != needle@[j as int]);
            return false;
        }
        j += 1;
    }
    assert(hay@.subrange(i as int, i + needle@.len()) =~= needle@);
    true
}

pub fn starts_with_chars(hay: &[char], prefix: &[char]) -> (r: bool)
    ensures
        r == starts_with(hay@, prefix@),
{
    let r = matches_at(hay, prefix, 0);
    assert(hay@.subrange(0, prefix@.len() as int) =~= hay@.take(prefix@.len() as int));
    r
}

pub fn ends_with_chars(hay: &[char], suffix: &[char]) -> (r: bool)
    ensures
        r == ends_with(hay@, suffix@),
{
    if suffix.len() > hay.len() {
        return false;
    }
    let r = matches_at(hay, suffix, hay.len() - suffix.len());
    assert(hay@.subrange(hay@.len() - suffix@.len(), hay@.len() as int) =~= hay@.skip(
        hay@.len() - suffix@.len(),
    ));
    r
}

/// Does the string `hay` contain the string `needle`?
pub fn str_contains(hay: &str, needle: &str) -> (r: bool)
    ensures
        r == has_sub(hay@, needle@),
{
    let h = chars_of(hay);
    let n = chars_of(needle);
    contains_chars(&h, &n)
}

pub fn str_starts_with(hay: &str, prefix: &str) -> (r: bool)
    ensures
        r == starts_with(hay@, prefix@),
{
    let h = chars_of(hay);
    let n = chars_of(prefix);
    starts_with_chars(&h, &n)
}

pub fn str_ends_with(hay: &str, suffix: &str) -> (r: bool)
    ensures
        r == ends_with(hay@, suffix@),
{
    let h = chars_of(hay);
    let n = chars_of(suffix);
    ends_with_chars(&h, &n)
}

/// Is `c` in the character sequence `s`?
pub fn has_char(s: &str, c: char) -> (r: bool)
    ensures
        r == s@.contains(c),
{
    let v = chars_of(s);
    let mut i: usize = 0;
    while i < v.len()
        invariant
            i <= v.len(),
            v@ == s@,
            forall|j: int| 0 <= j < i ==> v@[j] != c,
        decreases v.len() - i,
    {
        if v[i] == c {
            assert(s@[i as int] == c);
            return true;
        }
        i += 1;
    }
    false
}

// ----------------------------------------------------------------- ASCII case

pub open spec fn ascii_lower(c: char) -> char {
    if 'A' <= c && c <= 'Z' {
        ((c as u32) + 32) as char
    } else {
        c
    }
}

pub open spec fn ascii_lowered(s: Seq<char>) -> Seq<char> {
    s.map_values(|c: char| ascii_lower(c))
}

/// `str::to_ascii_lowercase`.
pub fn to_ascii_lowercase(s: &str) -> (r: String)
    ensures
        r@ == ascii_lowered(s@),
{
    let v = chars_of(s);
    let mut out: Vec<char> = Vec::new();
    let mut i: usize = 0;
    while i < v.len()
        invariant
            i <= v.len(),
            v@ == s@,
            out@ == ascii_lowered(s@.take(i as int)),
        decreases v.len() - i,
    {
        let c = v[i];
        let d = if 'A' <= c && c <= 'Z' {
            let n = (c as u32) + 32;
            assert(0x61 <= n <= 0x7a);
            char_from(n)
        } else {
            c
        };
        out.push(d);
        i += 1;
        assert(out@ =~= ascii_lowered(s@.take(i as int)));
    }
    assert(s@.take(i as int) =~= s@);
    string_of(&out)
}

/// The character with an ASCII lower-case letter's code.
fn char_from(n: u32) -> (c: char)
    requires
        0x61 <= n <= 0x7a,
    ensures
        c == n as char,
{
    let mut c = 'a';
    let mut k: u32 = 0x61;
    while k < n
        invariant
            0x61 <= k <= n,
            n <= 0x7a,
            c == k as char,
        decreases n - k,
    {
        c = next_letter(c);
        k += 1;
    }
    c
}

fn next_letter(c: char) -> (d: char)
    requires
        'a' <= c < 'z',
    ensures
        d as u32 == c as u32 + 1,
{
    match c {
        'a' => 'b', 'b' => 'c', 'c' => 'd', 'd' => 'e', 'e' => 'f', 'f' => 'g', 'g' => 'h',
        'h' => 'i', 'i' => 'j', 'j' => 'k', 'k' => 'l', 'l' => 'm', 'm' => 'n', 'n' => 'o',
        'o' => 'p', 'p' => 'q', 'q' => 'r', 'r' => 's', 's' => 't', 't' => 'u', 'u' => 'v',
        'v' => 'w', 'w' => 'x', 'x' => 'y', _ => 'z',
    }
}

/// `str::eq_ignore_ascii_case`.
pub fn eq_ignore_ascii_case(a: &str, b: &str) -> (r: bool)
    ensures
        r == (ascii_lowered(a@) == ascii_lowered(b@)),
{
    let x = to_ascii_lowercase(a);
    let y = to_ascii_lowercase(b);
    same(x.as_str(), y.as_str())
}

// --------------------------------------------------------------- whitespace

/// `s` without leading characters that satisfy `whitespace`.
pub open spec fn trim_start(s: Seq<char>) -> Seq<char>
    decreases s.len(),
{
    if s.len() > 0 && whitespace(s[0]) {
        trim_start(s.drop_first())
    } else {
        s
    }
}

/// `s` without trailing characters that satisfy `whitespace`.
pub open spec fn trim_end(s: Seq<char>) -> Seq<char>
    decreases s.len(),
{
    if s.len() > 0 && whitespace(s.last()) {
        trim_end(s.drop_last())
    } else {
        s
    }
}

/// `str::trim`.
pub open spec fn trim(s: Seq<char>) -> Seq<char> {
    trim_end(trim_start(s))
}

pub fn trim_start_chars(s: &[char]) -> (r: Vec<char>)
    ensures
        r@ == trim_start(s@),
{
    let mut i: usize = 0;
    assert(s@.skip(0) =~= s@);
    while i < s.len() && is_whitespace(s[i])
        invariant
            i <= s.len(),
            trim_start(s@) == trim_start(s@.skip(i as int)),
        decreases s.len() - i,
    {
        assert(s@.skip(i as int).drop_first() =~= s@.skip(i + 1));
        i += 1;
    }
    let mut out: Vec<char> = Vec::new();
    let mut j: usize = i;
    while j < s.len()
        invariant
            i <= j <= s.len(),
            out@ == s@.subrange(i as int, j as int),
        decreases s.len() - j,
    {
        out.push(s[j]);
        j += 1;
        assert(out@ =~= s@.subrange(i as int, j as int));
    }
    assert(out@ =~= s@.skip(i as int));
    if i < s.len() {
        assert(s@.skip(i as int)[0] == s@[i as int]);
    }
    assert(trim_start(s@.skip(i as int)) == s@.skip(i as int));
    out
}

pub fn trim_end_chars(s: &[char]) -> (r: Vec<char>)
    ensures
        r@ == trim_end(s@),
{
    let mut n: usize = s.len();
    assert(s@.take(s@.len() as int) =~= s@);
    while n > 0 && is_whitespace(s[n - 1])
        invariant
            n <= s.len(),
            trim_end(s@) == trim_end(s@.take(n as int)),
        decreases n,
    {
        assert(s@.take(n as int).drop_last() =~= s@.take(n - 1));
        n -= 1;
    }
    let mut out: Vec<char> = Vec::new();
    let mut j: usize = 0;
    while j < n
        invariant
            j <= n <= s.len(),
            out@ == s@.take(j as int),
        decreases n - j,
    {
        out.push(s[j]);
        j += 1;
        assert(out@ =~= s@.take(j as int));
    }
    if n > 0 {
        assert(s@.take(n as int).last() == s@[n - 1]);
    }
    assert(trim_end(s@.take(n as int)) == s@.take(n as int));
    out
}

pub fn trim_chars(s: &[char]) -> (r: Vec<char>)
    ensures
        r@ == trim(s@),
{
    let a = trim_start_chars(s);
    trim_end_chars(&a)
}

// -------------------------------------------------------------------- lines

/// `s` without one trailing carriage return.
pub open spec fn strip_cr(s: Seq<char>) -> Seq<char> {
    if s.len() > 0 && s.last() == '\r' {
        s.drop_last()
    } else {
        s
    }
}

/// The lines of `s` as `str::lines` yields them: split at `\n`, a `\r`
/// before the `\n` removed, and no empty piece after a final `\n`.
pub open spec fn lines_of(s: Seq<char>) -> Seq<Seq<char>> {
    let pieces = split_on(s, '\n');
    let n = pieces.len() as int;
    let kept = if pieces[n - 1].len() == 0 {
        n - 1
    } else {
        n
    };
    Seq::new(
        kept as nat,
        |k: int|
            if k < n - 1 {
                strip_cr(pieces[k])
            } else {
                pieces[k]
            },
    )
}

/// The lines of `s`.
pub fn lines(s: &[char]) -> (r: Vec<Vec<char>>)
    ensures
        r@.len() == lines_of(s@).len(),
        forall|k: int| 0 <= k < r@.len() ==> #[trigger] r@[k]@ == lines_of(s@)[k],
{
    let pieces = split_chars(s, '\n');
    proof {
        lemma_split_nonempty(s@, '\n');
    }
    let n = pieces.len();
    let kept = if pieces[n - 1].len() == 0 {
        n - 1
    } else {
        n
    };
    let mut out: Vec<Vec<char>> = Vec::new();
    let mut k: usize = 0;
    while k < kept
        invariant
            k <= kept <= n,
            n == pieces@.len(),
            n == split_on(s@, '\n').len(),
            kept == lines_of(s@).len(),
            forall|j: int| 0 <= j < n ==> #[trigger] pieces@[j]@ == split_on(s@, '\n')[j],
            out@.len() == k,
            forall|j: int| 0 <= j < k ==> #[trigger] out@[j]@ == lines_of(s@)[j],
        decreases kept - k,
    {
        let p = &pieces[k];
        let mut line: Vec<char> = Vec::new();
        let len = p.len();
        let take = if k + 1 < n && len > 0 && p[len - 1] == '\r' {
            len - 1
        } else {
            len
        };
        let mut j: usize = 0;
        while j < take
            invariant
                j <= take <= len,
                len == p@.len(),
                line@ == p@.take(j as int),
            decreases take - j,
        {
            line.push(p[j]);
            j += 1;
            assert(line@ =~= p@.take(j as int));
        }
        assert(p@ == split_on(s@, '\n')[k as int]);
        assert(line@ =~= lines_of(s@)[k as int]);
        out.push(line);
        k += 1;
    }
    out
}

} // verus!

verus! {

// ------------------------------------------------------------------ joining

/// `parts` joined with `sep` between consecutive elements.
pub open spec fn join_all(parts: Seq<Seq<char>>, sep: Seq<char>) -> Seq<char>
    decreases parts.len(),
{
    if parts.len() == 0 {
        Seq::empty()
    } else if parts.len() == 1 {
        parts[0]
    } else {
        join_all(parts.drop_last(), sep) + sep + parts.last()
    }
}

/// Joins strings with a separator (`[String]::join`).
pub fn join_strings(v: &Vec<String>, sep: &str) -> (r: String)
    ensures
        r@ == join_all(v.deep_view(), sep@),
{
    let mut out = String::new();
    let mut i: usize = 0;
    while i < v.len()
        invariant
            i <= v.len(),
            out@ == join_all(v.deep_view().take(i as int), sep@),
        decreases v.len() - i,
    {
        let ghost before = v.deep_view().take(i as int);
        if i > 0 {
            append(&mut out, sep);
        }
        append(&mut out, v[i].as_str());
        proof {
            let now = v.deep_view().take(i + 1);
            assert(now.drop_last() =~= before);
            assert(now.last() == v@[i as int]@);
            if i == 0 {
                assert(out@ =~= now[0]);
            }
        }
        i += 1;
    }
    assert(v.deep_view().take(i as int) =~= v.deep_view());
    out
}

/// Is `s` one of the strings in `v`?
pub fn contains_string(v: &Vec<String>, s: &str) -> (r: bool)
    ensures
        r == v.deep_view().contains(s@),
{
    let mut i: usize = 0;
    while i < v.len()
        invariant
            i <= v.len(),
            forall|j: int| 0 <= j < i ==> v@[j]@ != s@,
        decreases v.len() - i,
    {
        if same(v[i].as_str(), s) {
            assert(v.deep_view()[i as int] == s@);
            return true;
        }
        i += 1;
    }
    assert forall|j: int| 0 <= j < v.deep_view().len() implies v.deep_view()[j] != s@ by {
        assert(v.deep_view()[j] == v@[j]@);
    }
    false
}

/// The `Debug` form of a list of strings: `["a", "b"]`.
pub open spec fn debug_list(v: Seq<Seq<char>>) -> Seq<char> {
    "["@ + join_all(v.map_values(|s: Seq<char>| debug_quoted(s)), ", "@) + "]"@
}

/// The `Debug` form of a set of strings: `{"a", "b"}`.
pub open spec fn debug_set(v: Seq<Seq<char>>) -> Seq<char> {
    "{"@ + join_all(v.map_values(|s: Seq<char>| debug_quoted(s)), ", "@) + "}"@
}

fn debug_items(v: &Vec<String>) -> (r: String)
    ensures
        r@ == join_all(v.deep_view().map_values(|s: Seq<char>| debug_quoted(s)), ", "@),
{
    let mut q: Vec<String> = Vec::new();
    let mut i: usize = 0;
    while i < v.len()
        invariant
            i <= v.len(),
            q@.len() == i,
            forall|j: int| 0 <= j < i ==> #[trigger] q@[j]@ == debug_quoted(v@[j]@),
        decreases v.len() - i,
    {
        q.push(debug_str(v[i].as_str()));
        i += 1;
    }
    let r = join_strings(&q, ", ");
    proof {
        reveal_strlit(", ");
        assert(q.deep_view() =~= v.deep_view().map_values(|s: Seq<char>| debug_quoted(s)));
    }
    r
}

/// `format!("{:?}", list)` for a list of strings.
pub fn debug_list_of(v: &Vec<String>) -> (r: String)
    ensures
        r@ == debug_list(v.deep_view()),
{
    let inner = debug_items(v);
    let a = concat("[", inner.as_str());
    let r = concat(a.as_str(), "]");
    proof {
        reveal_strlit("[");
        reveal_strlit("]");
        reveal_strlit(", ");
    }
    r
}

/// `format!("{:?}", set)` for a set of strings, in the order held.
pub fn debug_set_of(v: &Vec<String>) -> (r: String)
    ensures
        r@ == debug_set(v.deep_view()),
{
    let inner = debug_items(v);
    let a = concat("{", inner.as_str());
    let r = concat(a.as_str(), "}");
    proof {
        reveal_strlit("{");
        reveal_strlit("}");
        reveal_strlit(", ");
    }
    r
}

} // verus!

verus! {

// ------------------------------------------------------------------ numbers

/// The decimal digits of `n`, most significant first, without leading zeros.
pub open spec fn decimal(n: nat) -> Seq<char>
    decreases n,
{
    if n < 10 {
        seq![decimal_digit(n)]
    } else {
        decimal(n / 10).push(decimal_digit(n % 10))
    }
}

pub open spec fn decimal_digit(d: nat) -> char {
    ((('0' as nat) + d) as u32) as char
}

fn digit_char(d: u64) -> (c: char)
    requires
        d < 10,
    ensures
        c == decimal_digit(d as nat),
{
    match d {
        0 => '0', 1 => '1', 2 => '2', 3 => '3', 4 => '4', 5 => '5', 6 => '6', 7 => '7',
        8 => '8', _ => '9',
    }
}

/// `n.to_string()` for an unsigned integer.
pub fn decimal_of(n: u64) -> (r: String)
    ensures
        r@ == decimal(n as nat),
    decreases n,
{
    if n < 10 {
        let mut v: Vec<char> = Vec::new();
        v.push(digit_char(n));
        assert(v@ =~= seq![decimal_digit(n as nat)]);
        string_of(&v)
    } else {
        let mut v = chars_of(decimal_of(n / 10).as_str());
        v.push(digit_char(n % 10));
        string_of(&v)
    }
}

/// `format!("{:?}", numbers)`: `[1, 2]`.
pub open spec fn debug_numbers(v: Seq<u32>) -> Seq<char> {
    "["@ + join_all(v.map_values(|n: u32| decimal(n as nat)), ", "@) + "]"@
}

pub fn debug_numbers_of(v: &Vec<u32>) -> (r: String)
    ensures
        r@ == debug_numbers(v@),
{
    let mut q: Vec<String> = Vec::new();
    let mut i: usize = 0;
    while i < v.len()
        invariant
            i <= v.len(),
            q@.len() == i,
            forall|j: int| 0 <= j < i ==> #[trigger] q@[j]@ == decimal(v@[j] as nat),
        decreases v.len() - i,
    {
        q.push(decimal_of(v[i] as u64));
        i += 1;
    }
    let inner = join_strings(&q, ", ");
    proof {
        reveal_strlit(", ");
        reveal_strlit("[");
        reveal_strlit("]");
        assert(q.deep_view() =~= v@.map_values(|n: u32| decimal(n as nat)));
    }
    let a = concat("[", inner.as_str());
    concat(a.as_str(), "]")
}


// ---------------------------------------------------------------- JSON strings

/// A lower-case hexadecimal digit.
pub open spec fn hex_lower(d: u32) -> char {
    if d < 10 {
        (('0' as u32) + d) as char
    } else {
        (('a' as u32) + d - 10) as char
    }
}

/// How JSON writes one character inside a string literal.
pub open spec fn json_escape(c: char) -> Seq<char> {
    if c == '"' {
        seq!['\\', '"']
    } else if c == '\\' {
        seq!['\\', '\\']
    } else if c == '\x08' {
        seq!['\\', 'b']
    } else if c == '\t' {
        seq!['\\', 't']
    } else if c == '\n' {
        seq!['\\', 'n']
    } else if c == '\x0C' {
        seq!['\\', 'f']
    } else if c == '\r' {
        seq!['\\', 'r']
    } else if (c as u32) < 0x20 {
        seq!['\\', 'u', '0', '0', hex_lower((c as u32) / 16), hex_lower((c as u32) % 16)]
    } else {
        seq![c]
    }
}

/// The escaped characters of `s`.
pub open spec fn json_body(s: Seq<char>) -> Seq<char>
    decreases s.len(),
{
    if s.len() == 0 {
        Seq::empty()
    } else {
        json_body(s.drop_last()) + json_escape(s.last())
    }
}

/// The JSON string literal of `s`.
pub open spec fn json_string(s: Seq<char>) -> Seq<char> {
    seq!['"'] + json_body(s) + seq!['"']
}

/// `serde_json::to_string` of a `str`: the string in double quotes, with `"`,
/// `\` and the control characters below U+0020 escaped (`\b \t \n \f \r`, or
/// `\u00xx` in lower-case hexadecimal) and every other character kept as is.
/// Serializing a `str` into memory cannot fail, so the default is never taken.
#[verifier::external_body]
pub(crate) fn json_quote(s: &str) -> (r: String)
    ensures
        r@ == json_string(s@),
{
    serde_json::to_string(s).unwrap_or_default()
}


/// The text of the error `std::str::from_utf8` reports for `b`.
pub uninterp spec fn utf8_error_text(b: Seq<u8>) -> Seq<char>;

/// `String::from_utf8`: `Ok` exactly for valid UTF-8, whose characters it
/// holds; otherwise the text of the reported error, named `utf8_error_text`.
#[verifier::external_body]
pub(crate) fn utf8_string(b: Vec<u8>) -> (r: Result<String, String>)
    ensures
        match r {
            Ok(s) => vstd::utf8::valid_utf8(b@) && s@ == vstd::utf8::decode_utf8(b@),
            Err(e) => !vstd::utf8::valid_utf8(b@) && e@ == utf8_error_text(b@),
        },
{
    match String::from_utf8(b) {
        Ok(s) => Ok(s),
        Err(e) => Err(e.utf8_error().to_string()),
    }
}


// ---------------------------------------------------------------- matches and replacement

/// The number of non-overlapping occurrences of a non-empty `p` in `s` from
/// `i`, found left to right, as `str::matches(..).count()` counts them.
pub open spec fn count_from(s: Seq<char>, p: Seq<char>, i: int) -> nat
    decreases s.len() - i,
{
    if p.len() == 0 || i < 0 || i + p.len() > s.len() {
        0
    } else if occurs_at(s, p, i) {
        1 + count_from(s, p, i + p.len())
    } else {
        count_from(s, p, i + 1)
    }
}

pub open spec fn count_matches(s: Seq<char>, p: Seq<char>) -> nat {
    count_from(s, p, 0)
}

/// `s` from `i` with the leftmost non-overlapping occurrences of a non-empty
/// `p` replaced by `r`: all of them when `limit` is `None`, else at most that many.
pub open spec fn replaced_from(s: Seq<char>, p: Seq<char>, r: Seq<char>, i: int, limit: Option<nat>) -> Seq<
    char,
>
    decreases s.len() - i,
{
    if i < 0 || i >= s.len() {
        Seq::empty()
    } else if p.len() > 0 && limit != Some(0nat) && occurs_at(s, p, i) {
        r + replaced_from(
            s,
            p,
            r,
            i + p.len(),
            match limit {
                Some(k) => Some((k - 1) as nat),
                None => None,
            },
        )
    } else {
        seq![s[i]] + replaced_from(s, p, r, i + 1, limit)
    }
}

/// `str::replace`.
pub open spec fn replace_all(s: Seq<char>, p: Seq<char>, r: Seq<char>) -> Seq<char> {
    replaced_from(s, p, r, 0, None)
}

/// `str::replacen(.., 1)`.
pub open spec fn replace_first(s: Seq<char>, p: Seq<char>, r: Seq<char>) -> Seq<char> {
    replaced_from(s, p, r, 0, Some(1))
}

/// Counts the non-overlapping occurrences of the non-empty `p` in `s`.
pub fn count_of(s: &str, p: &str) -> (r: usize)
    requires
        p@.len() > 0,
    ensures
        r == count_matches(s@, p@),
{
    let h = chars_of(s);
    let n = chars_of(p);
    let mut i: usize = 0;
    let mut c: usize = 0;
    while i < h.len()
        invariant
            h@ == s@,
            n@ == p@,
            n@.len() > 0,
            i <= h@.len(),
            c <= i,
            c + count_from(h@, n@, i as int) == count_from(h@, n@, 0),
        decreases h.len() - i,
    {
        if matches_at(&h, &n, i) {
            c += 1;
            i += n.len();
        } else {
            i += 1;
        }
    }
    c
}

fn replaced(s: &str, p: &str, r: &str, limit: Option<usize>) -> (out: String)
    ensures
        out@ == replaced_from(
            s@,
            p@,
            r@,
            0,
            match limit {
                Some(k) => Some(k as nat),
                None => None,
            },
        ),
{
    let h = chars_of(s);
    let n = chars_of(p);
    let mut out = String::new();
    let mut left = limit;
    let mut i: usize = 0;
    while i < h.len()
        invariant
            h@ == s@,
            n@ == p@,
            i <= h@.len(),
            out@ + replaced_from(
                h@,
                n@,
                r@,
                i as int,
                match left {
                    Some(k) => Some(k as nat),
                    None => None,
                },
            ) == replaced_from(
                s@,
                p@,
                r@,
                0,
                match limit {
                    Some(k) => Some(k as nat),
                    None => None,
                },
            ),
        decreases h.len() - i,
    {
        let open = match left {
            Some(k) => k > 0,
            None => true,
        };
        if n.len() > 0 && open && matches_at(&h, &n, i) {
            let ghost before = out@;
            append(&mut out, r);
            left = match left {
                Some(k) => Some(k - 1),
                None => None,
            };
            i += n.len();
            assert(before + r@ + replaced_from(h@, n@, r@, i as int, match left {
                Some(k) => Some(k as nat),
                None => None,
            }) =~= out@ + replaced_from(h@, n@, r@, i as int, match left {
                Some(k) => Some(k as nat),
                None => None,
            }));
        } else {
            let ghost before = out@;
            push_char(&mut out, h[i]);
            i += 1;
            assert(before + seq![h@[i - 1]] + replaced_from(h@, n@, r@, i as int, match left {
                Some(k) => Some(k as nat),
                None => None,
            }) =~= out@ + replaced_from(h@, n@, r@, i as int, match left {
                Some(k) => Some(k as nat),
                None => None,
            }));
        }
    }
    assert(out@ =~= out@ + replaced_from(h@, n@, r@, i as int, match left {
        Some(k) => Some(k as nat),
        None => None,
    }));
    out
}

/// Replaces every occurrence of `p` in `s` by `r`.
pub fn replace_all_of(s: &str, p: &str, r: &str) -> (out: String)
    ensures
        out@ == replace_all(s@, p@, r@),
{
    replaced(s, p, r, None)
}

/// Replaces the first occurrence of `p` in `s` by `r`.
pub fn replace_first_of(s: &str, p: &str, r: &str) -> (out: String)
    ensures
        out@ == replace_first(s@, p@, r@),
{
    replaced(s, p, r, Some(1))
}

} // verus!
