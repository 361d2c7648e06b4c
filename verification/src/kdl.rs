//! A bounded lexical scanner for Niri's KDL configuration: it finds top-level
//! nodes, their section names and their `include` targets. It is no semantic
//! rewriter; Niri itself stays the validator. Positions count characters.
use crate::dup::{duplicate_vec, Duplicate};
use crate::text::{concat, decimal, decimal_of, push_char};
use vstd::prelude::*;
use vstd::utf8::{encode_scalar, encode_utf8};

verus! {

/// One lexical token: its value (unescaped for strings) and where it stood.
#[derive(Debug, Clone)]
pub struct Token {
    pub value: String,
    pub start: usize,
    pub end: usize,
    pub string: bool,
}

pub struct TokenView {
    pub value: Seq<char>,
    pub start: int,
    pub end: int,
    pub string: bool,
}

impl View for Token {
    type V = TokenView;

    open spec fn view(&self) -> TokenView {
        TokenView {
            value: self.value@,
            start: self.start as int,
            end: self.end as int,
            string: self.string,
        }
    }
}

impl DeepView for Token {
    type V = TokenView;

    open spec fn deep_view(&self) -> TokenView {
        self@
    }
}

impl Duplicate for Token {
    fn duplicate(&self) -> (r: Self) {
        Token { value: self.value.clone(), start: self.start, end: self.end, string: self.string }
    }
}

// ------------------------------------------------------------ character classes

/// `u8::is_ascii_whitespace`: space, tab, line feed, form feed, carriage return.
pub open spec fn ascii_space(c: char) -> bool {
    c == ' ' || c == '\t' || c == '\n' || c == '\x0C' || c == '\r'
}

/// Single-character tokens.
pub open spec fn punct(c: char) -> bool {
    c == '{' || c == '}' || c == ';' || c == '\n' || c == '='
}

/// Characters that end a bare token.
pub open spec fn bare_stop(c: char) -> bool {
    ascii_space(c) || c == '{' || c == '}' || c == ';' || c == '=' || c == '"'
}

/// `s[i]` and `s[i + 1]` are `a` and `b`.
pub open spec fn pair_at(s: Seq<char>, i: int, a: char, b: char) -> bool {
    0 <= i && i + 1 < s.len() && s[i] == a && s[i + 1] == b
}

// ------------------------------------------------------------ scanning rules

/// Position of the first line feed at or after `i`, or the end.
pub open spec fn line_end(s: Seq<char>, i: int) -> int
    decreases s.len() - i,
{
    if i < 0 || i >= s.len() || s[i] == '\n' {
        i
    } else {
        line_end(s, i + 1)
    }
}

/// Position just after the nested block comment open to depth `d` at `i`.
pub open spec fn block_end(s: Seq<char>, i: int, d: nat) -> Option<int>
    decreases s.len() - i,
{
    if d == 0 {
        Some(i)
    } else if i < 0 || i >= s.len() {
        None
    } else if pair_at(s, i, '/', '*') {
        block_end(s, i + 2, d + 1)
    } else if pair_at(s, i, '*', '/') {
        block_end(s, i + 2, (d - 1) as nat)
    } else {
        block_end(s, i + 1, d)
    }
}

/// The number of `#` starting at `i`.
pub open spec fn hashes_from(s: Seq<char>, i: int) -> nat
    decreases s.len() - i,
{
    if 0 <= i < s.len() && s[i] == '#' {
        1 + hashes_from(s, i + 1)
    } else {
        0
    }
}

/// `h` hashes follow at `k`.
pub open spec fn closes(s: Seq<char>, k: int, h: nat) -> bool {
    forall|j: int| k <= j < k + h ==> j < s.len() && #[trigger] s[j] == '#'
}

/// What the escape `\c` stands for.
pub open spec fn escaped(c: char) -> Seq<char> {
    if c == '"' {
        seq!['"']
    } else if c == '\\' {
        seq!['\\']
    } else if c == 'n' {
        seq!['\n']
    } else if c == 'r' {
        seq!['\r']
    } else if c == 't' {
        seq!['\t']
    } else {
        seq!['\\', c]
    }
}

/// Position where a bare token starting at `i` ends.
pub open spec fn bare_end(s: Seq<char>, i: int) -> int
    decreases s.len() - i,
{
    if i < 0 || i >= s.len() || bare_stop(s[i]) || pair_at(s, i, '/', '/') || pair_at(
        s,
        i,
        '/',
        '*',
    ) {
        i
    } else {
        bare_end(s, i + 1)
    }
}

/// Bytes of the UTF-8 encoding of `s`.
pub open spec fn byte_len(s: Seq<char>) -> nat {
    encode_utf8(s).len()
}

pub open spec fn unclosed_comment_message() -> Seq<char> {
    "Unclosed KDL comment"@
}

pub open spec fn multiline_message() -> Seq<char> {
    "Multiline KDL strings need manual flattening before enrollment"@
}

/// The unclosed-string error, at the byte offset of the string's content.
pub open spec fn unclosed_string_message(offset: nat) -> Seq<char> {
    "Unclosed KDL string at "@ + decimal(offset)
}

pub open spec fn unfinished_escape_message() -> Seq<char> {
    "Unfinished escape"@
}

pub open spec fn split_escape_message() -> Seq<char> {
    "Unsupported escape of a non-ASCII character in a KDL string"@
}

pub open spec fn unsupported_token_message() -> Seq<char> {
    "Unsupported KDL token"@
}

pub open spec fn unbalanced_message() -> Seq<char> {
    "Unbalanced KDL braces"@
}

/// Scans the body of a string with `h` hashes from `i`: the characters since
/// `chunk` are still to be copied into `value`; `content` is where the body
/// began. `split` records an escape of a non-ASCII character, which the text
/// after it cannot be cut from.
pub open spec fn string_scan(
    s: Seq<char>,
    i: int,
    h: nat,
    chunk: int,
    value: Seq<char>,
    content: int,
    split: bool,
) -> Result<(Seq<char>, int), Seq<char>>
    decreases s.len() - i,
{
    if i < 0 || i >= s.len() {
        Err(unclosed_string_message(byte_len(s.take(content))))
    } else if s[i] == '"' && closes(s, i + 1, h) {
        if split {
            Err(split_escape_message())
        } else {
            Ok((value + s.subrange(chunk, i), i + 1 + h))
        }
    } else if h == 0 && s[i] == '\\' {
        if split {
            Err(split_escape_message())
        } else if i + 1 >= s.len() {
            Err(unfinished_escape_message())
        } else {
            string_scan(
                s,
                i + 2,
                h,
                i + 2,
                value + s.subrange(chunk, i) + escaped(s[i + 1]),
                content,
                (s[i + 1] as u32) >= 0x80,
            )
        }
    } else {
        string_scan(s, i + 1, h, chunk, value, content, split)
    }
}

pub proof fn lemma_line_end(s: Seq<char>, i: int)
    requires
        0 <= i,
    ensures
        i <= line_end(s, i),
        i <= s.len() ==> line_end(s, i) <= s.len(),
    decreases s.len() - i,
{
    if i < s.len() && s[i] != '\n' {
        lemma_line_end(s, i + 1);
    }
}

pub proof fn lemma_block_end(s: Seq<char>, i: int, d: nat)
    requires
        0 <= i <= s.len(),
    ensures
        block_end(s, i, d) matches Some(j) ==> i <= j <= s.len(),
    decreases s.len() - i,
{
    if d == 0 {
    } else if i >= s.len() {
    } else if pair_at(s, i, '/', '*') {
        lemma_block_end(s, i + 2, d + 1);
    } else if pair_at(s, i, '*', '/') {
        lemma_block_end(s, i + 2, (d - 1) as nat);
    } else {
        lemma_block_end(s, i + 1, d);
    }
}

pub proof fn lemma_hashes(s: Seq<char>, i: int)
    requires
        0 <= i <= s.len(),
    ensures
        i + hashes_from(s, i) <= s.len(),
        closes(s, i, hashes_from(s, i)),
    decreases s.len() - i,
{
    if i < s.len() && s[i] == '#' {
        lemma_hashes(s, i + 1);
        assert forall|j: int| i <= j < i + hashes_from(s, i) implies j < s.len() && #[trigger] s[j]
            == '#' by {
            if j > i {
                assert(s[j] == '#');
            }
        }
    }
}

pub proof fn lemma_string_scan(
    s: Seq<char>,
    i: int,
    h: nat,
    chunk: int,
    value: Seq<char>,
    content: int,
    split: bool,
)
    requires
        0 <= i,
    ensures
        string_scan(s, i, h, chunk, value, content, split) matches Ok((v, j)) ==> i < j <= s.len(),
    decreases s.len() - i,
{
    if i < 0 || i >= s.len() {
    } else if s[i] == '"' && closes(s, i + 1, h) {
        if h > 0 {
            assert(s[(i + 1) + (h - 1)] == '#');
        }
    } else if h == 0 && s[i] == '\\' {
        if !split && i + 1 < s.len() {
            lemma_string_scan(
                s,
                i + 2,
                h,
                i + 2,
                value + s.subrange(chunk, i) + escaped(s[i + 1]),
                content,
                (s[i + 1] as u32) >= 0x80,
            );
        }
    } else {
        lemma_string_scan(s, i + 1, h, chunk, value, content, split);
    }
}

pub proof fn lemma_bare_end(s: Seq<char>, i: int)
    requires
        0 <= i <= s.len(),
    ensures
        i <= bare_end(s, i) <= s.len(),
    decreases s.len() - i,
{
    if i < s.len() && !bare_stop(s[i]) && !pair_at(s, i, '/', '/') && !pair_at(s, i, '/', '*') {
        lemma_bare_end(s, i + 1);
    }
}

/// The tokens of `s` from position `i`, after those already in `acc`.
pub open spec fn lex(s: Seq<char>, i: int, acc: Seq<TokenView>) -> Result<Seq<TokenView>, Seq<char>>
    decreases s.len() - i,
{
    if i < 0 || i >= s.len() {
        Ok(acc)
    } else if pair_at(s, i, '/', '/') {
        proof {
            lemma_line_end(s, i + 2);
        }
        lex(s, line_end(s, i + 2), acc)
    } else if pair_at(s, i, '/', '*') {
        proof {
            lemma_block_end(s, i + 2, 1);
        }
        match block_end(s, i + 2, 1) {
            None => Err(unclosed_comment_message()),
            Some(j) => lex(s, j, acc),
        }
    } else if ascii_space(s[i]) && s[i] != '\n' {
        lex(s, i + 1, acc)
    } else {
        let h = hashes_from(s, i);
        if i + h < s.len() && s[i + h] == '"' {
            if i + h + 3 <= s.len() && s[i + h + 1] == '"' && s[i + h + 2] == '"' {
                Err(multiline_message())
            } else {
                proof {
                    lemma_string_scan(s, i + h + 1, h, i + h + 1, Seq::empty(), i + h + 1, false);
                }
                match string_scan(s, i + h + 1, h, i + h + 1, Seq::empty(), i + h + 1, false) {
                    Err(e) => Err(e),
                    Ok((v, j)) => lex(
                        s,
                        j,
                        acc.push(TokenView { value: v, start: i, end: j, string: true }),
                    ),
                }
            }
        } else if punct(s[i]) {
            lex(
                s,
                i + 1,
                acc.push(TokenView { value: s.subrange(i, i + 1), start: i, end: i + 1, string: false }),
            )
        } else {
            proof {
                lemma_bare_end(s, i);
            }
            let j = bare_end(s, i);
            if j <= i {
                Err(unsupported_token_message())
            } else {
                lex(
                    s,
                    j,
                    acc.push(TokenView { value: s.subrange(i, j), start: i, end: j, string: false }),
                )
            }
        }
    }
}

/// The tokens of `s`, or why it cannot be scanned.
pub open spec fn tokens_of(s: Seq<char>) -> Result<Seq<TokenView>, Seq<char>> {
    lex(s, 0, Seq::empty())
}

// ------------------------------------------------------------ exec scanning

fn slice_of(s: &Vec<char>, a: usize, b: usize) -> (r: String)
    requires
        a <= b <= s.len(),
    ensures
        r@ == s@.subrange(a as int, b as int),
{
    let mut r = String::new();
    let mut k = a;
    while k < b
        invariant
            a <= k <= b <= s.len(),
            r@ == s@.subrange(a as int, k as int),
        decreases b - k,
    {
        push_char(&mut r, s[k]);
        k += 1;
        assert(r@ =~= s@.subrange(a as int, k as int));
    }
    r
}

fn skip_line(s: &Vec<char>, i: usize) -> (r: usize)
    requires
        i <= s.len(),
    ensures
        r == line_end(s@, i as int),
        i <= r <= s.len(),
{
    let mut k = i;
    while k < s.len() && s[k] != '\n'
        invariant
            i <= k <= s.len(),
            line_end(s@, k as int) == line_end(s@, i as int),
        decreases s.len() - k,
    {
        k += 1;
    }
    k
}

fn skip_block(s: &Vec<char>, i: usize) -> (r: Option<usize>)
    requires
        i <= s.len(),
    ensures
        match r {
            Some(j) => block_end(s@, i as int, 1) == Some(j as int) && i <= j <= s.len(),
            None => block_end(s@, i as int, 1) is None,
        },
{
    let n = s.len();
    let mut k = i;
    let mut d: usize = 1;
    while k < n && d > 0
        invariant
            n == s@.len(),
            i <= k <= n,
            d <= k + 1,
            block_end(s@, k as int, d as nat) == block_end(s@, i as int, 1),
        decreases n - k,
    {
        if k + 1 < n && s[k] == '/' && s[k + 1] == '*' {
            d += 1;
            k += 2;
        } else if k + 1 < n && s[k] == '*' && s[k + 1] == '/' {
            d -= 1;
            k += 2;
        } else {
            k += 1;
        }
    }
    if d == 0 {
        Some(k)
    } else {
        None
    }
}

fn hash_count(s: &Vec<char>, i: usize) -> (r: usize)
    requires
        i <= s.len(),
    ensures
        r == hashes_from(s@, i as int),
        i + r <= s.len(),
{
    proof {
        lemma_hashes(s@, i as int);
    }
    let mut k = i;
    while k < s.len() && s[k] == '#'
        invariant
            i <= k <= s.len(),
            (k - i) + hashes_from(s@, k as int) == hashes_from(s@, i as int),
        decreases s.len() - k,
    {
        k += 1;
    }
    k - i
}

fn closes_at(s: &Vec<char>, k: usize, h: usize) -> (r: bool)
    requires
        k <= s.len(),
    ensures
        r == closes(s@, k as int, h as nat),
{
    let mut t: usize = 0;
    while t < h
        invariant
            t <= h,
            k <= s@.len(),
            closes(s@, k as int, t as nat),
        decreases h - t,
    {
        if t >= s.len() - k || s[k + t] != '#' {
            assert(!(k + t < s@.len() && s@[k + t] == '#'));
            assert(!closes(s@, k as int, h as nat)) by {
                if closes(s@, k as int, h as nat) {
                    assert(s@[k + t] == '#');
                    assert(false);
                }
            }
            return false;
        }
        assert forall|j: int| k <= j < k + t + 1 implies j < s@.len() && #[trigger] s@[j] == '#' by {
            if j < k + t {
                assert(closes(s@, k as int, t as nat));
            }
        }
        t += 1;
    }
    true
}

/// The number of UTF-8 bytes of a character.
fn utf8_width(c: char) -> (r: usize)
    ensures
        r == encode_scalar(c as u32).len(),
{
    let v = c as u32;
    if v < 0x80 {
        1
    } else if v < 0x800 {
        2
    } else if v < 0x10000 {
        proof {
            vstd::utf8::char_is_scalar(c);
        }
        3
    } else {
        4
    }
}

/// The encoding of a concatenation is the concatenation of the encodings.
pub proof fn lemma_encode_concat(a: Seq<char>, b: Seq<char>)
    ensures
        encode_utf8(a + b) == encode_utf8(a) + encode_utf8(b),
    decreases a.len(),
{
    if a.len() == 0 {
        assert(a + b =~= b);
        assert(encode_utf8(a) + encode_utf8(b) =~= encode_utf8(b));
    } else {
        lemma_encode_concat(a.drop_first(), b);
        assert((a + b).drop_first() =~= a.drop_first() + b);
        assert(encode_utf8(a + b) =~= encode_scalar(a[0] as u32) + encode_utf8(a.drop_first() + b));
    }
}

/// The byte offset of character position `k` of `text`.
fn byte_offset(text: &str, s: &Vec<char>, k: usize) -> (r: usize)
    requires
        s@ == text@,
        k <= s.len(),
    ensures
        r == byte_len(s@.take(k as int)),
{
    let b = text.as_bytes();
    let total = b.len();
    let mut acc: usize = 0;
    let mut j: usize = 0;
    while j < k
        invariant
            s@ == text@,
            b@ == encode_utf8(text@),
            total == b@.len(),
            j <= k <= s.len(),
            acc == byte_len(s@.take(j as int)),
        decreases k - j,
    {
        let w = utf8_width(s[j]);
        proof {
            lemma_encode_concat(s@.take(j as int), seq![s@[j as int]]);
            assert(s@.take(j + 1) =~= s@.take(j as int) + seq![s@[j as int]]);
            assert(seq![s@[j as int]].drop_first() =~= Seq::<char>::empty());
            reveal_with_fuel(encode_utf8, 2);
            assert(encode_utf8(seq![s@[j as int]]) =~= encode_scalar(s@[j as int] as u32));
            lemma_encode_concat(s@.take(j + 1), s@.skip(j + 1));
            assert(s@.take(j + 1) + s@.skip(j + 1) =~= s@);
        }
        acc = acc + w;
        j += 1;
    }
    acc
}

fn scan_string(text: &str, s: &Vec<char>, start: usize, h: usize) -> (r: Result<(String, usize), String>)
    requires
        s@ == text@,
        start <= s.len(),
    ensures
        match (r, string_scan(s@, start as int, h as nat, start as int, Seq::empty(), start as int, false)) {
            (Ok((v, j)), Ok((w, k))) => v@ == w && j == k,
            (Err(e), Err(w)) => e@ == w,
            _ => false,
        },
{
    proof {
        reveal_strlit("Unclosed KDL string at ");
        reveal_strlit("Unfinished escape");
        reveal_strlit("Unsupported escape of a non-ASCII character in a KDL string");
    }
    let n = s.len();
    let mut i = start;
    let mut chunk = start;
    let mut value = String::new();
    let mut split = false;
    while i < n
        invariant
            n == s@.len(),
            s@ == text@,
            start <= chunk <= i,
            i <= n,
            string_scan(s@, i as int, h as nat, chunk as int, value@, start as int, split)
                == string_scan(s@, start as int, h as nat, start as int, Seq::empty(), start as int, false),
        decreases n - i,
    {
        if s[i] == '"' && closes_at(s, i + 1, h) {
            if split {
                return Err("Unsupported escape of a non-ASCII character in a KDL string".to_string());
            }
            proof {
                if h > 0 {
                    assert(s@[(i + 1) + (h - 1)] == '#');
                }
            }
            let piece = slice_of(s, chunk, i);
            let mut v = value;
            crate::text::append(&mut v, piece.as_str());
            return Ok((v, i + 1 + h));
        }
        if h == 0 && s[i] == '\\' {
            if split {
                return Err("Unsupported escape of a non-ASCII character in a KDL string".to_string());
            }
            if i + 1 >= n {
                return Err("Unfinished escape".to_string());
            }
            let piece = slice_of(s, chunk, i);
            crate::text::append(&mut value, piece.as_str());
            let c = s[i + 1];
            let ghost before = value@;
            if c == '"' {
                push_char(&mut value, '"');
            } else if c == '\\' {
                push_char(&mut value, '\\');
            } else if c == 'n' {
                push_char(&mut value, '\n');
            } else if c == 'r' {
                push_char(&mut value, '\r');
            } else if c == 't' {
                push_char(&mut value, '\t');
            } else {
                push_char(&mut value, '\\');
                push_char(&mut value, c);
            }
            assert(value@ =~= before + escaped(c));
            split = (c as u32) >= 0x80;
            i = i + 2;
            chunk = i;
        } else {
            i += 1;
        }
    }
    let off = byte_offset(text, s, start);
    Err(concat("Unclosed KDL string at ", decimal_of(off as u64).as_str()))
}

/// Scans `text` into tokens: comments and non-newline whitespace are dropped;
/// strings (plain with escapes, or raw with `#`) are unescaped.
pub fn tokens(text: &str) -> (r: Result<Vec<Token>, String>)
    ensures
        match (r, tokens_of(text@)) {
            (Ok(v), Ok(w)) => v.deep_view() == w,
            (Err(e), Err(w)) => e@ == w,
            _ => false,
        },
{
    proof {
        reveal_strlit("Unclosed KDL comment");
        reveal_strlit("Multiline KDL strings need manual flattening before enrollment");
        reveal_strlit("Unsupported KDL token");
    }
    let s = crate::text::chars_of(text);
    let n = s.len();
    let mut i: usize = 0;
    let mut out: Vec<Token> = Vec::new();
    assert(out.deep_view() =~= Seq::<TokenView>::empty());
    while i < n
        invariant
            n == s@.len(),
            s@ == text@,
            i <= n,
            lex(s@, i as int, out.deep_view()) == tokens_of(text@),
        decreases n - i,
    {
        if i + 1 < n && s[i] == '/' && s[i + 1] == '/' {
            i = skip_line(&s, i + 2);
            continue;
        }
        if i + 1 < n && s[i] == '/' && s[i + 1] == '*' {
            match skip_block(&s, i + 2) {
                None => {
                    return Err("Unclosed KDL comment".to_string());
                },
                Some(j) => {
                    i = j;
                    continue;
                },
            }
        }
        let c = s[i];
        if (c == ' ' || c == '\t' || c == '\x0C' || c == '\r') {
            i += 1;
            continue;
        }
        let h = hash_count(&s, i);
        if i + h < n && s[i + h] == '"' {
            if n - (i + h) >= 3 && s[i + h + 1] == '"' && s[i + h + 2] == '"' {
                return Err(
                    "Multiline KDL strings need manual flattening before enrollment".to_string(),
                );
            }
            match scan_string(text, &s, i + h + 1, h) {
                Err(e) => {
                    return Err(e);
                },
                Ok((v, j)) => {
                    proof {
                        lemma_string_scan(
                            s@,
                            i + h + 1,
                            h as nat,
                            i + h + 1,
                            Seq::empty(),
                            i + h + 1,
                            false,
                        );
                    }
                    let ghost before = out.deep_view();
                    out.push(Token { value: v, start: i, end: j, string: true });
                    assert(out.deep_view() =~= before.push(
                        TokenView { value: v@, start: i as int, end: j as int, string: true },
                    ));
                    i = j;
                    continue;
                },
            }
        }
        if c == '{' || c == '}' || c == ';' || c == '\n' || c == '=' {
            let ghost before = out.deep_view();
            out.push(Token { value: slice_of(&s, i, i + 1), start: i, end: i + 1, string: false });
            assert(out.deep_view() =~= before.push(
                TokenView { value: s@.subrange(i as int, i + 1), start: i as int, end: i + 1, string: false },
            ));
            i += 1;
            continue;
        }
        let mut j = i;
        while j < n && !(s[j] == ' ' || s[j] == '\t' || s[j] == '\n' || s[j] == '\x0C' || s[j]
            == '\r' || s[j] == '{' || s[j] == '}' || s[j] == ';' || s[j] == '=' || s[j] == '"')
            && !(j + 1 < n && s[j] == '/' && (s[j + 1] == '/' || s[j + 1] == '*'))
            invariant
                n == s@.len(),
                i <= j <= n,
                bare_end(s@, j as int) == bare_end(s@, i as int),
            decreases n - j,
        {
            j += 1;
        }
        if j == i {
            return Err("Unsupported KDL token".to_string());
        }
        let ghost before = out.deep_view();
        out.push(Token { value: slice_of(&s, i, j), start: i, end: j, string: false });
        assert(out.deep_view() =~= before.push(
            TokenView { value: s@.subrange(i as int, j as int), start: i as int, end: j as int, string: false },
        ));
        i = j;
    }
    Ok(out)
}


// ------------------------------------------------------------ nodes

/// Groups tokens from `k` into top-level nodes, split at newlines and
/// semicolons outside braces. `depth` is the brace depth, `node` the node
/// being collected, `acc` the nodes already complete.
pub open spec fn group(
    t: Seq<TokenView>,
    k: int,
    depth: nat,
    node: Seq<TokenView>,
    acc: Seq<Seq<TokenView>>,
) -> Result<Seq<Seq<TokenView>>, Seq<char>>
    decreases t.len() - k,
{
    if k < 0 || k >= t.len() {
        if depth != 0 {
            Err(unbalanced_message())
        } else if node.len() > 0 {
            Ok(acc.push(node))
        } else {
            Ok(acc)
        }
    } else {
        let tok = t[k];
        if !tok.string && tok.value == "}"@ && depth == 0 {
            Err(unbalanced_message())
        } else {
            let d: nat = if tok.string {
                depth
            } else if tok.value == "{"@ {
                depth + 1
            } else if tok.value == "}"@ {
                (depth - 1) as nat
            } else {
                depth
            };
            if !tok.string && d == 0 && (tok.value == "\n"@ || tok.value == ";"@) {
                group(t, k + 1, d, Seq::empty(), if node.len() > 0 { acc.push(node) } else { acc })
            } else {
                group(t, k + 1, d, node.push(tok), acc)
            }
        }
    }
}

/// The top-level nodes of `s`, each a non-empty token list.
pub open spec fn nodes_of(s: Seq<char>) -> Result<Seq<Seq<TokenView>>, Seq<char>> {
    match tokens_of(s) {
        Err(e) => Err(e),
        Ok(t) => group(t, 0, 0, Seq::empty(), Seq::empty()),
    }
}

fn is_text(v: &String, w: &str) -> (r: bool)
    ensures
        r == (v@ == w@),
{
    crate::text::same(v.as_str(), w)
}

/// Splits `text` into top-level nodes.
pub fn nodes(text: &str) -> (r: Result<Vec<Vec<Token>>, String>)
    ensures
        match (r, nodes_of(text@)) {
            (Ok(v), Ok(w)) => v.deep_view() == w,
            (Err(e), Err(w)) => e@ == w,
            _ => false,
        },
{
    proof {
        reveal_strlit("Unbalanced KDL braces");
        reveal_strlit("{");
        reveal_strlit("}");
        reveal_strlit("\n");
        reveal_strlit(";");
    }
    let t = match tokens(text) {
        Err(e) => {
            return Err(e);
        },
        Ok(t) => t,
    };
    let ghost tv = t.deep_view();
    let mut result: Vec<Vec<Token>> = Vec::new();
    let mut node: Vec<Token> = Vec::new();
    let mut depth: usize = 0;
    let mut k: usize = 0;
    assert(result.deep_view() =~= Seq::<Seq<TokenView>>::empty());
    assert(node.deep_view() =~= Seq::<TokenView>::empty());
    while k < t.len()
        invariant
            tv == t.deep_view(),
            tv == tokens_of(text@)->Ok_0,
            tokens_of(text@) is Ok,
            k <= t.len(),
            depth <= k,
            group(tv, k as int, depth as nat, node.deep_view(), result.deep_view()) == nodes_of(
                text@,
            ),
        decreases t.len() - k,
    {
        let tok = &t[k];
        assert(tok@ == tv[k as int]);
        if !tok.string && is_text(&tok.value, "}") && depth == 0 {
            return Err("Unbalanced KDL braces".to_string());
        }
        if !tok.string {
            if is_text(&tok.value, "{") {
                depth += 1;
            } else if is_text(&tok.value, "}") {
                depth -= 1;
            }
        }
        if !tok.string && depth == 0 && (is_text(&tok.value, "\n") || is_text(&tok.value, ";")) {
            if node.len() > 0 {
                let ghost before = result.deep_view();
                let done = node;
                node = Vec::new();
                result.push(done);
                assert(result.deep_view() =~= before.push(done.deep_view()));
            }
            assert(node.deep_view() =~= Seq::<TokenView>::empty());
        } else {
            let ghost before = node.deep_view();
            node.push(tok.duplicate());
            assert(node.deep_view() =~= before.push(tv[k as int]));
        }
        k += 1;
    }
    if depth != 0 {
        return Err("Unbalanced KDL braces".to_string());
    }
    if node.len() > 0 {
        let ghost before = result.deep_view();
        result.push(node);
        assert(result.deep_view() =~= before.push(node.deep_view()));
    }
    Ok(result)
}


// ------------------------------------------------------------ sections and includes

/// Index of the first string token of `n` at or after `k`, or -1.
pub open spec fn first_string(n: Seq<TokenView>, k: int) -> int
    decreases n.len() - k,
{
    if k < 0 || k >= n.len() {
        -1
    } else if n[k].string {
        k
    } else {
        first_string(n, k + 1)
    }
}

pub proof fn lemma_first_string(n: Seq<TokenView>, k: int)
    requires
        0 <= k,
    ensures
        first_string(n, k) == -1 || (k <= first_string(n, k) < n.len() && n[first_string(
            n,
            k,
        )].string),
    decreases n.len() - k,
{
    if k < n.len() && !n[k].string {
        lemma_first_string(n, k + 1);
    }
}

fn first_string_of(n: &Vec<Token>, k: usize) -> (r: Option<usize>)
    ensures
        match r {
            Some(f) => f as int == first_string(n.deep_view(), k as int) && f < n.len(),
            None => first_string(n.deep_view(), k as int) == -1,
        },
{
    let mut i = k;
    while i < n.len()
        invariant
            k <= i,
            first_string(n.deep_view(), i as int) == first_string(n.deep_view(), k as int),
        decreases n.len() - i,
    {
        assert(n.deep_view()[i as int] == n@[i as int]@);
        if n[i].string {
            return Some(i);
        }
        i += 1;
    }
    None
}

pub open spec fn include_syntax_message() -> Seq<char> {
    "Unsupported include syntax"@
}

/// Section names and include targets of `nodes`, in order: a node named `/-`
/// is commented out; an `include` node names its first string argument.
pub open spec fn section_refs_of(nodes: Seq<Seq<TokenView>>) -> Result<
    (Seq<Seq<char>>, Seq<Seq<char>>),
    Seq<char>,
>
    decreases nodes.len(),
{
    if nodes.len() == 0 {
        Ok((Seq::empty(), Seq::empty()))
    } else {
        match section_refs_of(nodes.drop_last()) {
            Err(e) => Err(e),
            Ok((names, includes)) => {
                let n = nodes.last();
                if n.len() == 0 || n[0].value == "/-"@ {
                    Ok((names, includes))
                } else if n[0].value == "include"@ {
                    let f = first_string(n, 1);
                    if f < 0 {
                        Err(include_syntax_message())
                    } else {
                        Ok((names, includes.push(n[f].value)))
                    }
                } else {
                    Ok((names.push(n[0].value), includes))
                }
            },
        }
    }
}

/// An error in the first `k` nodes is the error of all of them.
pub proof fn lemma_section_refs_err(ns: Seq<Seq<TokenView>>, k: int)
    requires
        0 <= k <= ns.len(),
        section_refs_of(ns.take(k)) is Err,
    ensures
        section_refs_of(ns) == section_refs_of(ns.take(k)),
    decreases ns.len() - k,
{
    if k < ns.len() {
        assert(ns.take(k + 1).drop_last() =~= ns.take(k));
        lemma_section_refs_err(ns, k + 1);
    } else {
        assert(ns.take(k) =~= ns);
    }
}

/// An error in the first `k` nodes is the error of all of them.
pub proof fn lemma_include_refs_err(ns: Seq<Seq<TokenView>>, k: int)
    requires
        0 <= k <= ns.len(),
        include_refs_of(ns.take(k)) is Err,
    ensures
        include_refs_of(ns) == include_refs_of(ns.take(k)),
    decreases ns.len() - k,
{
    if k < ns.len() {
        assert(ns.take(k + 1).drop_last() =~= ns.take(k));
        lemma_include_refs_err(ns, k + 1);
    } else {
        assert(ns.take(k) =~= ns);
    }
}

/// The section names of one configuration file and the files it includes,
/// whose sections belong to it too.
pub fn section_refs(text: &str) -> (r: Result<(Vec<String>, Vec<String>), String>)
    ensures
        match (
            r,
            match nodes_of(text@) {
                Err(e) => Err(e),
                Ok(ns) => section_refs_of(ns),
            },
        ) {
            (Ok((a, b)), Ok((x, y))) => a.deep_view() == x && b.deep_view() == y,
            (Err(e), Err(w)) => e@ == w,
            _ => false,
        },
{
    proof {
        reveal_strlit("/-");
        reveal_strlit("include");
        reveal_strlit("Unsupported include syntax");
    }
    let ns = match nodes(text) {
        Err(e) => {
            return Err(e);
        },
        Ok(ns) => ns,
    };
    let mut names: Vec<String> = Vec::new();
    let mut includes: Vec<String> = Vec::new();
    let mut i: usize = 0;
    assert(ns.deep_view().take(0) =~= Seq::<Seq<TokenView>>::empty());
    assert(names.deep_view() =~= Seq::<Seq<char>>::empty());
    assert(includes.deep_view() =~= Seq::<Seq<char>>::empty());
    while i < ns.len()
        invariant
            i <= ns.len(),
            nodes_of(text@) == Ok::<Seq<Seq<TokenView>>, Seq<char>>(ns.deep_view()),
            section_refs_of(ns.deep_view().take(i as int)) == Ok::<
                (Seq<Seq<char>>, Seq<Seq<char>>),
                Seq<char>,
            >((names.deep_view(), includes.deep_view())),
        decreases ns.len() - i,
    {
        let n = &ns[i];
        proof {
            let w = ns.deep_view().take(i + 1);
            assert(w.drop_last() =~= ns.deep_view().take(i as int));
            assert(w.last() == n.deep_view());
            lemma_first_string(n.deep_view(), 1);
        }
        if n.len() > 0 {
            assert(n.deep_view()[0] == n@[0]@);
            if is_text(&n[0].value, "/-") {
            } else if is_text(&n[0].value, "include") {
                match first_string_of(n, 1) {
                    None => {
                        proof {
                            assert(section_refs_of(ns.deep_view().take(i + 1)) == Err::<
                                (Seq<Seq<char>>, Seq<Seq<char>>),
                                Seq<char>,
                            >(include_syntax_message()));
                            lemma_section_refs_err(ns.deep_view(), i + 1);
                        }
                        return Err("Unsupported include syntax".to_string());
                    },
                    Some(f) => {
                        assert(n.deep_view()[f as int] == n@[f as int]@);
                        let ghost before = includes.deep_view();
                        includes.push(n[f].value.clone());
                        assert(includes.deep_view() =~= before.push(n@[f as int]@.value));
                    },
                }
            } else {
                let ghost before = names.deep_view();
                names.push(n[0].value.clone());
                assert(names.deep_view() =~= before.push(n@[0]@.value));
            }
        }
        i += 1;
    }
    assert(ns.deep_view().take(i as int) =~= ns.deep_view());
    Ok((names, includes))
}

/// An `include` argument to be replaced by the path of its frozen copy.
#[derive(Debug, Clone)]
pub struct IncludeRef {
    pub value: String,
    pub start: usize,
    pub end: usize,
}

pub struct IncludeRefView {
    pub value: Seq<char>,
    pub start: int,
    pub end: int,
}

impl View for IncludeRef {
    type V = IncludeRefView;

    open spec fn view(&self) -> IncludeRefView {
        IncludeRefView { value: self.value@, start: self.start as int, end: self.end as int }
    }
}

impl DeepView for IncludeRef {
    type V = IncludeRefView;

    open spec fn deep_view(&self) -> IncludeRefView {
        self@
    }
}

pub open spec fn include_path_message() -> Seq<char> {
    "Include needs a quoted file path; unsupported syntax must be flattened explicitly"@
}

pub open spec fn escaped_include_message() -> Seq<char> {
    "Unsupported escaped include path"@
}

/// The `include` arguments of `nodes`, in order, each a plain quoted path.
pub open spec fn include_refs_of(nodes: Seq<Seq<TokenView>>) -> Result<Seq<IncludeRefView>, Seq<char>>
    decreases nodes.len(),
{
    if nodes.len() == 0 {
        Ok(Seq::empty())
    } else {
        match include_refs_of(nodes.drop_last()) {
            Err(e) => Err(e),
            Ok(refs) => {
                let n = nodes.last();
                if n.len() == 0 || n[0].value != "include"@ {
                    Ok(refs)
                } else {
                    let f = first_string(n, 1);
                    if f < 0 {
                        Err(include_path_message())
                    } else if n[f].value.contains('\\') || n[f].value.contains('\n') {
                        Err(escaped_include_message())
                    } else {
                        Ok(
                            refs.push(
                                IncludeRefView { value: n[f].value, start: n[f].start, end: n[f].end },
                            ),
                        )
                    }
                }
            },
        }
    }
}

/// The includes of a configuration file, as they will be frozen.
pub open spec fn includes_of(s: Seq<char>) -> Result<Seq<IncludeRefView>, Seq<char>> {
    match nodes_of(s) {
        Err(e) => Err(e),
        Ok(ns) => include_refs_of(ns),
    }
}

/// The `include` references of `text` that freezing replaces.
pub fn include_refs(text: &str) -> (r: Result<Vec<IncludeRef>, String>)
    ensures
        match (r, includes_of(text@)) {
            (Ok(v), Ok(w)) => v.deep_view() == w,
            (Err(e), Err(w)) => e@ == w,
            _ => false,
        },
{
    proof {
        reveal_strlit("include");
        reveal_strlit(
            "Include needs a quoted file path; unsupported syntax must be flattened explicitly",
        );
        reveal_strlit("Unsupported escaped include path");
    }
    let ns = match nodes(text) {
        Err(e) => {
            return Err(e);
        },
        Ok(ns) => ns,
    };
    let mut refs: Vec<IncludeRef> = Vec::new();
    let mut i: usize = 0;
    assert(refs.deep_view() =~= Seq::<IncludeRefView>::empty());
    while i < ns.len()
        invariant
            i <= ns.len(),
            nodes_of(text@) == Ok::<Seq<Seq<TokenView>>, Seq<char>>(ns.deep_view()),
            include_refs_of(ns.deep_view().take(i as int)) == Ok::<Seq<IncludeRefView>, Seq<char>>(
                refs.deep_view(),
            ),
        decreases ns.len() - i,
    {
        let n = &ns[i];
        proof {
            let w = ns.deep_view().take(i + 1);
            assert(w.drop_last() =~= ns.deep_view().take(i as int));
            assert(w.last() == n.deep_view());
            lemma_first_string(n.deep_view(), 1);
        }
        if n.len() > 0 {
            assert(n.deep_view()[0] == n@[0]@);
            if is_text(&n[0].value, "include") {
                match first_string_of(n, 1) {
                    None => {
                        proof {
                            lemma_include_refs_err(ns.deep_view(), i + 1);
                        }
                        return Err(
                            "Include needs a quoted file path; unsupported syntax must be flattened explicitly".to_string(),
                        );
                    },
                    Some(f) => {
                        let t = &n[f];
                        assert(n.deep_view()[f as int] == t@);
                        if crate::text::has_char(t.value.as_str(), '\\') || crate::text::has_char(
                            t.value.as_str(),
                            '\n',
                        ) {
                            proof {
                                lemma_include_refs_err(ns.deep_view(), i + 1);
                            }
                            return Err("Unsupported escaped include path".to_string());
                        }
                        let ghost before = refs.deep_view();
                        refs.push(IncludeRef { value: t.value.clone(), start: t.start, end: t.end });
                        assert(refs.deep_view() =~= before.push(
                            IncludeRefView { value: t@.value, start: t@.start, end: t@.end },
                        ));
                    },
                }
            }
        }
        i += 1;
    }
    assert(ns.deep_view().take(i as int) =~= ns.deep_view());
    Ok(refs)
}

pub open spec fn home_missing_message() -> Seq<char> {
    "HOME missing"@
}

/// Where an include argument points: `~/` is the home directory; a relative
/// path is taken from the including file's directory `dir`.
pub open spec fn include_target(v: Seq<char>, home: Option<Seq<char>>, dir: Seq<char>) -> Result<
    Seq<char>,
    Seq<char>,
> {
    if crate::text::starts_with(v, "~/"@) {
        match home {
            None => Err(home_missing_message()),
            Some(h) => Ok(crate::path::join(h, v.skip(2))),
        }
    } else if crate::path::absolute(v) {
        Ok(v)
    } else {
        Ok(crate::path::join(dir, v))
    }
}

/// Resolves an include argument.
pub fn include_path(v: &str, home: Option<&str>, dir: &str) -> (r: Result<String, String>)
    ensures
        match (r, include_target(v@, match home { Some(h) => Some(h@), None => None }, dir@)) {
            (Ok(p), Ok(q)) => p@ == q,
            (Err(e), Err(w)) => e@ == w,
            _ => false,
        },
{
    proof {
        reveal_strlit("~/");
        reveal_strlit("HOME missing");
    }
    let c = crate::text::chars_of(v);
    if crate::text::str_starts_with(v, "~/") {
        match home {
            None => Err("HOME missing".to_string()),
            Some(h) => {
                let rest = slice_of(&c, 2, c.len());
                proof {
                    assert(rest@ =~= v@.skip(2));
                }
                Ok(crate::path::join_path(h, rest.as_str()))
            },
        }
    } else if crate::path::is_absolute(v) {
        Ok(v.to_string())
    } else {
        Ok(crate::path::join_path(dir, v))
    }
}

/// `s` with each range `[start, end)` of `refs` from the `k`-th on replaced by
/// the matching text, the part before `pos` left out.
pub open spec fn spliced(s: Seq<char>, refs: Seq<IncludeRefView>, texts: Seq<Seq<char>>, k: int, pos: int) -> Seq<
    char,
>
    decreases refs.len() - k,
{
    if k < 0 || k >= refs.len() {
        s.subrange(pos, s.len() as int)
    } else {
        s.subrange(pos, refs[k].start) + texts[k] + spliced(s, refs, texts, k + 1, refs[k].end)
    }
}

/// The ranges are in order, disjoint and inside `s`.
pub open spec fn ordered_ranges(s: Seq<char>, refs: Seq<IncludeRefView>) -> bool {
    &&& forall|k: int| 0 <= k < refs.len() ==> 0 <= #[trigger] refs[k].start <= refs[k].end <= s.len()
    &&& forall|k: int| 0 < k < refs.len() ==> refs[k - 1].end <= #[trigger] refs[k].start
}

/// The frozen text of a configuration file: each include argument replaced by
/// the JSON-quoted path of its frozen copy.
pub open spec fn frozen(s: Seq<char>, refs: Seq<IncludeRefView>, captured: Seq<Seq<char>>) -> Seq<char> {
    spliced(s, refs, captured.map_values(|c: Seq<char>| crate::text::json_string(c)), 0, 0)
}


pub open spec fn disordered_message() -> Seq<char> {
    "Include positions are out of order"@
}

fn ranges_in_order(n: usize, refs: &Vec<IncludeRef>) -> (r: bool)
    ensures
        r == ((forall|k: int| 0 <= k < refs@.len() ==> 0 <= #[trigger] refs@[k]@.start <= refs@[k]@.end <= n)
            && (forall|k: int| 0 < k < refs@.len() ==> refs@[k - 1]@.end <= #[trigger] refs@[k]@.start)),
{
    let mut k: usize = 0;
    while k < refs.len()
        invariant
            k <= refs.len(),
            forall|j: int| 0 <= j < k ==> 0 <= #[trigger] refs@[j]@.start <= refs@[j]@.end <= n,
            forall|j: int| 0 < j < k ==> refs@[j - 1]@.end <= #[trigger] refs@[j]@.start,
        decreases refs.len() - k,
    {
        if refs[k].start > refs[k].end || refs[k].end > n {
            let ghost j = k as int;
            assert(!(0 <= refs@[j]@.start <= refs@[j]@.end <= n));
            return false;
        }
        if k > 0 && refs[k - 1].end > refs[k].start {
            assert(!(refs@[k - 1]@.end <= refs@[k as int]@.start));
            return false;
        }
        k += 1;
    }
    true
}

/// The frozen text of `text`, whose include arguments are replaced, in order,
/// by the quoted paths in `captured` (one per include).
pub fn frozen_text(text: &str, captured: &Vec<String>) -> (r: Result<String, String>)
    requires
        includes_of(text@) matches Ok(refs) ==> refs.len() == captured@.len(),
    ensures
        match (r, includes_of(text@)) {
            (Ok(t), Ok(refs)) => ordered_ranges(text@, refs) && t@ == frozen(
                text@,
                refs,
                captured.deep_view(),
            ),
            (Err(e), Ok(refs)) => !ordered_ranges(text@, refs) && e@ == disordered_message(),
            (Err(e), Err(w)) => e@ == w,
            _ => false,
        },
{
    proof {
        reveal_strlit("Include positions are out of order");
    }
    let refs = match include_refs(text) {
        Err(e) => {
            return Err(e);
        },
        Ok(refs) => refs,
    };
    let s = crate::text::chars_of(text);
    let ghost rv = refs.deep_view();
    let ghost texts = captured.deep_view().map_values(|c: Seq<char>| crate::text::json_string(c));
    if !ranges_in_order(s.len(), &refs) {
        proof {
            if ordered_ranges(text@, rv) {
                assert forall|k: int| 0 <= k < refs@.len() implies 0 <= #[trigger] refs@[k]@.start
                    <= refs@[k]@.end <= s@.len() by {
                    assert(rv[k] == refs@[k]@);
                }
                assert forall|k: int| 0 < k < refs@.len() implies refs@[k - 1]@.end
                    <= #[trigger] refs@[k]@.start by {
                    assert(rv[k] == refs@[k]@);
                    assert(rv[k - 1] == refs@[k - 1]@);
                }
            }
        }
        return Err("Include positions are out of order".to_string());
    }
    assert(ordered_ranges(text@, rv)) by {
        assert forall|k: int| 0 <= k < rv.len() implies 0 <= #[trigger] rv[k].start <= rv[k].end
            <= text@.len() by {
            assert(rv[k] == refs@[k]@);
        }
        assert forall|k: int| 0 < k < rv.len() implies rv[k - 1].end <= #[trigger] rv[k].start by {
            assert(rv[k] == refs@[k]@);
            assert(rv[k - 1] == refs@[k - 1]@);
        }
    }
    let mut out = String::new();
    let mut pos: usize = 0;
    let mut k: usize = 0;
    while k < refs.len()
        invariant
            s@ == text@,
            rv == refs.deep_view(),
            rv.len() == captured@.len(),
            texts == captured.deep_view().map_values(|c: Seq<char>| crate::text::json_string(c)),
            ordered_ranges(text@, rv),
            k <= rv.len(),
            pos <= s@.len(),
            k < rv.len() ==> pos <= rv[k as int].start,
            out@ + spliced(s@, rv, texts, k as int, pos as int) == spliced(s@, rv, texts, 0, 0),
        decreases refs.len() - k,
    {
        let r = &refs[k];
        assert(r@ == rv[k as int]);
        let before = slice_of(&s, pos, r.start);
        crate::text::append(&mut out, before.as_str());
        let q = crate::text::json_quote(captured[k].as_str());
        assert(q@ == texts[k as int]);
        crate::text::append(&mut out, q.as_str());
        pos = r.end;
        k += 1;
        proof {
            if k < rv.len() {
                assert(rv[k - 1].end <= rv[k as int].start);
            }
        }
    }
    let rest = slice_of(&s, pos, s.len());
    crate::text::append(&mut out, rest.as_str());
    Ok(out)
}

} // verus!

verus! {

// ------------------------------------------------------------ walking include trees

pub open spec fn include_limit_message() -> Seq<char> {
    "Config include limit reached"@
}

pub open spec fn include_cycle_message(file: Seq<char>) -> Seq<char> {
    "Config include cycle at "@ + file
}

/// Why freezing may not descend into the canonical file `file`: more than
/// 128 files captured or open on the include stack, or `file` already open
/// on the stack (a cycle).
pub open spec fn freeze_refusal(captured: nat, stack: Seq<Seq<char>>, file: Seq<char>) -> Option<Seq<char>> {
    if captured + stack.len() >= 128 {
        Some(include_limit_message())
    } else if stack.contains(file) {
        Some(include_cycle_message(file))
    } else {
        None
    }
}

/// Checks that freezing may descend into `file`, given how many files are
/// captured and which are open on the include stack.
pub fn freeze_admits(captured: usize, stack: &Vec<String>, file: &str) -> (r: Result<(), String>)
    ensures
        match r {
            Ok(()) => freeze_refusal(captured as nat, stack.deep_view(), file@) is None,
            Err(e) => freeze_refusal(captured as nat, stack.deep_view(), file@) == Some(e@),
        },
{
    if captured >= 128 || stack.len() >= 128 - captured {
        proof {
            reveal_strlit("Config include limit reached");
        }
        return Err("Config include limit reached".to_string());
    }
    if crate::text::contains_string(stack, file) {
        proof {
            reveal_strlit("Config include cycle at ");
        }
        return Err(concat("Config include cycle at ", file));
    }
    Ok(())
}

pub open spec fn too_many_includes_message() -> Seq<char> {
    "Too many configuration includes"@
}

/// Whether collecting section names reads the canonical file `file`, given
/// the files already read: refused once 128 were read, skipped (`false`)
/// when `file` was read already.
pub open spec fn sections_step(seen: Seq<Seq<char>>, file: Seq<char>) -> Result<bool, Seq<char>> {
    if seen.len() >= 128 {
        Err(too_many_includes_message())
    } else {
        Ok(!seen.contains(file))
    }
}

/// Decides whether collecting section names reads `file` next.
pub fn sections_admits(seen: &Vec<String>, file: &str) -> (r: Result<bool, String>)
    ensures
        match (r, sections_step(seen.deep_view(), file@)) {
            (Ok(a), Ok(b)) => a == b,
            (Err(a), Err(b)) => a@ == b,
            _ => false,
        },
{
    if seen.len() >= 128 {
        proof {
            reveal_strlit("Too many configuration includes");
        }
        return Err("Too many configuration includes".to_string());
    }
    Ok(!crate::text::contains_string(seen, file))
}

} // verus!
