//! What `/proc` shows of a process, decoded: the fields of its `stat` line
//! and the arguments of its `cmdline`.
use crate::generic::{lossy, lossy_text};
use crate::text::{chars_of, is_whitespace, whitespace};
use vstd::prelude::*;

verus! {

/// The fields of a `stat` line this library reads: state, process group and start time.
#[derive(Debug, Clone, Copy, PartialEq, Eq, Structural)]
pub struct StatFields {
    pub state: char,
    pub group: u32,
    pub start: u64,
}

/// Index of the last `)` in `s`, or -1.
pub open spec fn last_paren(s: Seq<char>) -> int
    decreases s.len(),
{
    if s.len() == 0 {
        -1
    } else if s.last() == ')' {
        s.len() - 1
    } else {
        last_paren(s.drop_last())
    }
}

proof fn lemma_last_paren(s: Seq<char>)
    ensures
        -1 <= last_paren(s) < s.len(),
        last_paren(s) >= 0 ==> s[last_paren(s)] == ')',
        forall|j: int| last_paren(s) < j < s.len() ==> s[j] != ')',
    decreases s.len(),
{
    if s.len() > 0 && s.last() != ')' {
        lemma_last_paren(s.drop_last());
        assert forall|j: int| last_paren(s) < j < s.len() - 1 implies s[j] != ')' by {
            assert(s.drop_last()[j] == s[j]);
        }
    }
}

/// The whitespace-separated words of `s` from position `i`, given the word
/// `cur` being read and the words `acc` already complete.
pub open spec fn words_from(s: Seq<char>, i: int, cur: Seq<char>, acc: Seq<Seq<char>>) -> Seq<
    Seq<char>,
>
    decreases s.len() - i,
{
    if i >= s.len() || i < 0 {
        if cur.len() > 0 {
            acc.push(cur)
        } else {
            acc
        }
    } else if whitespace(s[i]) {
        words_from(s, i + 1, seq![], if cur.len() > 0 {
            acc.push(cur)
        } else {
            acc
        })
    } else {
        words_from(s, i + 1, cur.push(s[i]), acc)
    }
}

/// `str::split_whitespace`.
pub open spec fn words(s: Seq<char>) -> Seq<Seq<char>> {
    words_from(s, 0, seq![], seq![])
}

pub open spec fn digit_value(c: char) -> int {
    c as int - '0' as int
}

pub open spec fn is_digit(c: char) -> bool {
    '0' <= c && c <= '9'
}

/// The value of a string of decimal digits.
pub open spec fn digits_value(s: Seq<char>) -> int
    decreases s.len(),
{
    if s.len() == 0 {
        0
    } else {
        digits_value(s.drop_last()) * 10 + digit_value(s.last())
    }
}

/// Some character of `d` is not a decimal digit.
pub open spec fn has_non_digit(d: Seq<char>) -> bool {
    exists|k: int| 0 <= k < d.len() && !is_digit(#[trigger] d[k])
}

/// `str::parse` of an unsigned integer no larger than `max`: an optional `+`,
/// then at least one decimal digit.
pub open spec fn parse_unsigned(s: Seq<char>, max: int) -> Option<int> {
    let d = if s.len() > 0 && s[0] == '+' {
        s.drop_first()
    } else {
        s
    };
    if d.len() == 0 || has_non_digit(d) {
        None
    } else if digits_value(d) > max {
        None
    } else {
        Some(digits_value(d))
    }
}

/// The fields of a `stat` line: after the last `)` and the character after it
/// (an ASCII one), the first word's first character is the state, the third
/// word the process group and the twentieth the start time.
pub open spec fn stat_fields(s: Seq<char>) -> Option<StatFields> {
    let p = last_paren(s);
    if p < 0 || p + 1 >= s.len() || (s[p + 1] as u32) >= 0x80 {
        None
    } else {
        let w = words(s.skip(p + 2));
        if w.len() < 20 {
            None
        } else {
            match (parse_unsigned(w[19], u64::MAX as int), parse_unsigned(w[2], u32::MAX as int)) {
                (Some(start), Some(group)) => Some(
                    StatFields { state: w[0][0], group: group as u32, start: start as u64 },
                ),
                _ => None,
            }
        }
    }
}

fn split_words(s: &Vec<char>, from: usize) -> (r: Vec<Vec<char>>)
    requires
        from <= s.len(),
    ensures
        r.deep_view() == words(s@.skip(from as int)),
{
    let ghost t = s@.skip(from as int);
    let mut acc: Vec<Vec<char>> = Vec::new();
    let mut cur: Vec<char> = Vec::new();
    let mut i: usize = from;
    assert(cur@ =~= Seq::<char>::empty());
    assert(acc.deep_view() =~= Seq::<Seq<char>>::empty());
    while i < s.len()
        invariant
            from <= i <= s.len(),
            t == s@.skip(from as int),
            words(t) == words_from(t, i - from, cur@, acc.deep_view()),
        decreases s.len() - i,
    {
        assert(t[i - from] == s@[i as int]);
        if is_whitespace(s[i]) {
            if cur.len() > 0 {
                let ghost a = acc.deep_view();
                let ghost cv = cur.deep_view();
                assert(cv =~= cur@);
                acc.push(cur);
                assert(acc.deep_view() =~= a.push(cv));
            }
            cur = Vec::new();
            assert(cur@ =~= Seq::<char>::empty());
        } else {
            cur.push(s[i]);
        }
        i += 1;
    }
    if cur.len() > 0 {
        let ghost a = acc.deep_view();
        let ghost cv = cur.deep_view();
                assert(cv =~= cur@);
        acc.push(cur);
        assert(acc.deep_view() =~= a.push(cv));
    }
    acc
}

fn parse_number(s: &Vec<char>, max: u64) -> (r: Option<u64>)
    requires
        max >= 9,
    ensures
        match r {
            Some(v) => parse_unsigned(s@, max as int) == Some(v as int),
            None => parse_unsigned(s@, max as int) is None,
        },
{
    let start: usize = if s.len() > 0 && s[0] == '+' {
        1
    } else {
        0
    };
    let ghost d = if s@.len() > 0 && s@[0] == '+' {
        s@.drop_first()
    } else {
        s@
    };
    assert(d =~= s@.skip(start as int));
    if start >= s.len() {
        return None;
    }
    let mut v: u64 = 0;
    let mut i: usize = start;
    while i < s.len()
        invariant
            start <= i <= s.len(),
            max >= 9,
            d == s@.skip(start as int),
            d == (if s@.len() > 0 && s@[0] == '+' {
                s@.drop_first()
            } else {
                s@
            }),
            forall|k: int| 0 <= k < i - start ==> is_digit(#[trigger] d[k]),
            v as int == digits_value(d.take(i - start)),
            v <= max,
        decreases s.len() - i,
    {
        let c = s[i];
        assert(d[i - start] == c);
        if !('0' <= c && c <= '9') {
            assert(!is_digit(d[i - start]));
            assert(d.len() > 0);
            assert(has_non_digit(d));
            return None;
        }
        let dv = (c as u32 - '0' as u32) as u64;
        assert(dv as int == digit_value(c));
        assert(d.take(i - start + 1).drop_last() =~= d.take(i - start));
        if v > (max - dv) / 10 {
            assert(v * 10 + dv > max) by (nonlinear_arith)
                requires
                    v > (max - dv) / 10,
                    dv <= max,
            ;
            proof {
                if forall|k: int| 0 <= k < d.len() ==> is_digit(#[trigger] d[k]) {
                    lemma_digits_monotone(d, i - start + 1);
                }
            }
            return None;
        }
        assert(v * 10 + dv <= max) by (nonlinear_arith)
            requires
                v <= (max - dv) / 10,
                dv <= max;
        v = v * 10 + dv;
        i += 1;
    }
    assert(d.take(i - start) =~= d);
    Some(v)
}

/// Digit strings have non-negative values that only grow as digits are added.
proof fn lemma_digits_monotone(d: Seq<char>, n: int)
    requires
        0 <= n <= d.len(),
        forall|k: int| 0 <= k < d.len() ==> is_digit(#[trigger] d[k]),
    ensures
        digits_value(d) >= digits_value(d.take(n)) >= 0,
    decreases d.len(),
{
    if n == d.len() {
        assert(d.take(n) =~= d);
        lemma_digits_nonneg(d);
    } else {
        assert(d.drop_last().take(n) =~= d.take(n));
        assert forall|k: int| 0 <= k < d.drop_last().len() implies is_digit(#[trigger] d.drop_last()[k]) by {
            assert(d.drop_last()[k] == d[k]);
        }
        lemma_digits_monotone(d.drop_last(), n);
        assert(is_digit(d[d.len() - 1]));
    }
}

proof fn lemma_digits_nonneg(d: Seq<char>)
    requires
        forall|k: int| 0 <= k < d.len() ==> is_digit(#[trigger] d[k]),
    ensures
        digits_value(d) >= 0,
    decreases d.len(),
{
    if d.len() > 0 {
        assert forall|k: int| 0 <= k < d.drop_last().len() implies is_digit(#[trigger] d.drop_last()[k]) by {
            assert(d.drop_last()[k] == d[k]);
        }
        lemma_digits_nonneg(d.drop_last());
        assert(is_digit(d[d.len() - 1]));
    }
}

proof fn lemma_words_nonempty(s: Seq<char>, i: int, cur: Seq<char>, acc: Seq<Seq<char>>)
    requires
        forall|k: int| 0 <= k < acc.len() ==> (#[trigger] acc[k]).len() > 0,
    ensures
        forall|k: int|
            0 <= k < words_from(s, i, cur, acc).len() ==> (#[trigger] words_from(s, i, cur, acc)[k]).len()
                > 0,
    decreases s.len() - i,
{
    if cur.len() > 0 {
        assert forall|k: int| 0 <= k < acc.push(cur).len() implies (#[trigger] acc.push(cur)[k]).len() > 0 by {
            if k < acc.len() {
                assert(acc.push(cur)[k] == acc[k]);
            }
        }
    }
    if i >= s.len() || i < 0 {
    } else if whitespace(s[i]) {
        let a2 = if cur.len() > 0 {
            acc.push(cur)
        } else {
            acc
        };
        lemma_words_nonempty(s, i + 1, seq![], a2);
        assert(words_from(s, i, cur, acc) == words_from(s, i + 1, seq![], a2));
    } else {
        lemma_words_nonempty(s, i + 1, cur.push(s[i]), acc);
        assert(words_from(s, i, cur, acc) == words_from(s, i + 1, cur.push(s[i]), acc));
    }
}

/// Decodes the `stat` line of a process.
pub fn parse_stat(stat: &str) -> (r: Option<StatFields>)
    ensures
        r == stat_fields(stat@),
{
    let v = chars_of(stat);
    proof {
        lemma_last_paren(v@);
    }
    let mut p: usize = v.len();
    while p > 0 && v[p - 1] != ')'
        invariant
            p <= v.len(),
            forall|j: int| p <= j < v.len() ==> v@[j] != ')',
        decreases p,
    {
        p -= 1;
    }
    if p == 0 {
        proof {
            if last_paren(v@) >= 0 {
                assert(v@[last_paren(v@)] == ')');
            }
        }
        return None;
    }
    let paren = p - 1;
    assert(last_paren(v@) == paren) by {
        if last_paren(v@) > paren {
            assert(v@[last_paren(v@)] == ')');
        }
        if last_paren(v@) < paren {
            assert(v@[paren as int] == ')');
        }
    }
    if paren + 1 >= v.len() || (v[paren + 1] as u32) >= 0x80 {
        return None;
    }
    let w = split_words(&v, paren + 2);
    if w.len() < 20 {
        return None;
    }
    proof {
        lemma_words_nonempty(v@.skip(paren + 2), 0, seq![], seq![]);
        assert(w.deep_view()[0] == w@[0]@);
        assert(w.deep_view()[2] == w@[2]@);
        assert(w.deep_view()[19] == w@[19]@);
    }
    let start = parse_number(&w[19], u64::MAX);
    let group = parse_number(&w[2], 0xffff_ffffu64);
    match (start, group) {
        (Some(st), Some(g)) => {
            assert(w@[0]@.len() > 0);
            Some(StatFields { state: w[0][0], group: g as u32, start: st })
        },
        _ => None,
    }
}

/// The arguments of a `cmdline` from position `i`, given the argument `cur`
/// being read and those already complete: NUL-separated, empty ones dropped,
/// each decoded lossily.
pub open spec fn args_from(b: Seq<u8>, i: int, cur: Seq<u8>, acc: Seq<Seq<char>>) -> Seq<Seq<char>>
    decreases b.len() - i,
{
    if i >= b.len() || i < 0 {
        if cur.len() > 0 {
            acc.push(lossy(cur))
        } else {
            acc
        }
    } else if b[i] == 0 {
        args_from(b, i + 1, seq![], if cur.len() > 0 {
            acc.push(lossy(cur))
        } else {
            acc
        })
    } else {
        args_from(b, i + 1, cur.push(b[i]), acc)
    }
}

/// Decodes the `cmdline` of a process.
pub fn parse_cmdline(b: &[u8]) -> (r: Vec<String>)
    ensures
        r.deep_view() == args_from(b@, 0, seq![], seq![]),
{
    let mut acc: Vec<String> = Vec::new();
    let mut cur: Vec<u8> = Vec::new();
    let mut i: usize = 0;
    assert(cur@ =~= Seq::<u8>::empty());
    assert(acc.deep_view() =~= Seq::<Seq<char>>::empty());
    while i < b.len()
        invariant
            i <= b.len(),
            args_from(b@, 0, seq![], seq![]) == args_from(b@, i as int, cur@, acc.deep_view()),
        decreases b.len() - i,
    {
        if b[i] == 0 {
            if cur.len() > 0 {
                let ghost a = acc.deep_view();
                let t = lossy_text(cur.as_slice());
                acc.push(t);
                assert(acc.deep_view() =~= a.push(lossy(cur@)));
            }
            cur = Vec::new();
            assert(cur@ =~= Seq::<u8>::empty());
        } else {
            cur.push(b[i]);
        }
        i += 1;
    }
    if cur.len() > 0 {
        let ghost a = acc.deep_view();
        let t = lossy_text(cur.as_slice());
        acc.push(t);
        assert(acc.deep_view() =~= a.push(lossy(cur@)));
    }
    acc
}

} // verus!
