//! The scalar-coercion rule that turns a piece of text into a number.
//!
//! A boolean-like word (`true`, `on`, `online`, `false`, `off`, `offline`, in
//! any ASCII case, surrounded by any white space) stands for `1` or `0`.
//! Anything else stands for its first white-space-delimited token, which the
//! caller parses as a finite 64-bit float (units after the number are thereby
//! ignored). Text without any token coerces to nothing.

use crate::text::{chars_of, is_space, push_char, space};
use vstd::prelude::*;

verus! {

/// Index of the first non-space character at or after `i`.
pub open spec fn skip_space(s: Seq<char>, i: int) -> int
    decreases s.len() - i,
{
    if 0 <= i < s.len() && is_space(s[i]) {
        skip_space(s, i + 1)
    } else {
        i
    }
}

/// End of `s[lo..j]` once trailing white space is dropped.
pub open spec fn skip_space_back(s: Seq<char>, lo: int, j: int) -> int
    decreases j - lo,
{
    if lo < j <= s.len() && is_space(s[j - 1]) {
        skip_space_back(s, lo, j - 1)
    } else {
        j
    }
}

/// Index of the first space at or after `i` (or the end).
pub open spec fn token_end(s: Seq<char>, i: int) -> int
    decreases s.len() - i,
{
    if 0 <= i < s.len() && !is_space(s[i]) {
        token_end(s, i + 1)
    } else {
        i
    }
}

/// `s` without leading and trailing white space.
pub open spec fn trimmed(s: Seq<char>) -> Seq<char> {
    let lo = skip_space(s, 0);
    s.subrange(lo, skip_space_back(s, lo, s.len() as int))
}

/// The first non-empty white-space-delimited token of `s` (empty if none).
pub open spec fn leading_token(s: Seq<char>) -> Seq<char> {
    let lo = skip_space(s, 0);
    s.subrange(lo, token_end(s, lo))
}

/// ASCII case folding of one character, as a code point.
pub open spec fn fold(c: char) -> u32 {
    if 65 <= c as u32 <= 90 {
        (c as u32 + 32) as u32
    } else {
        c as u32
    }
}

/// `s` equals `w` up to ASCII case.
pub open spec fn same_word(s: Seq<char>, w: Seq<char>) -> bool {
    s.len() == w.len() && forall|i: int| 0 <= i < s.len() ==> fold(#[trigger] s[i]) == fold(w[i])
}

pub open spec fn is_true_word(s: Seq<char>) -> bool {
    same_word(s, seq!['t', 'r', 'u', 'e']) || same_word(s, seq!['o', 'n']) || same_word(
        s,
        seq!['o', 'n', 'l', 'i', 'n', 'e'],
    )
}

pub open spec fn is_false_word(s: Seq<char>) -> bool {
    same_word(s, seq!['f', 'a', 'l', 's', 'e']) || same_word(s, seq!['o', 'f', 'f']) || same_word(
        s,
        seq!['o', 'f', 'f', 'l', 'i', 'n', 'e'],
    )
}

/// What a piece of text coerces to, before any float parse.
#[derive(Debug, PartialEq, Eq)]
pub enum Scalar {
    /// A boolean-like word: `true` stands for `1`, `false` for `0`.
    Flag(bool),
    /// The leading token, to be read as a finite float.
    Token(String),
}

/// `r` is what the coercion rule makes of `s`.
pub open spec fn coerces_to(s: Seq<char>, r: Option<Scalar>) -> bool {
    if is_true_word(trimmed(s)) {
        r == Some(Scalar::Flag(true))
    } else if is_false_word(trimmed(s)) {
        r == Some(Scalar::Flag(false))
    } else if leading_token(s).len() == 0 {
        r is None
    } else {
        r matches Some(Scalar::Token(t)) && t@ == leading_token(s)
    }
}

fn fold_char(c: char) -> (r: u32)
    ensures
        r == fold(c),
{
    let u = c as u32;
    if 65 <= u && u <= 90 {
        u + 32
    } else {
        u
    }
}

/// Whether `cs[lo..hi]` equals `w` up to ASCII case.
fn is_word(cs: &Vec<char>, lo: usize, hi: usize, w: &Vec<char>) -> (r: bool)
    requires
        lo <= hi <= cs@.len(),
    ensures
        r == same_word(cs@.subrange(lo as int, hi as int), w@),
{
    if hi - lo != w.len() {
        return false;
    }
    let ghost s = cs@.subrange(lo as int, hi as int);
    let mut i: usize = 0;
    while i < w.len()
        invariant
            hi - lo == w@.len(),
            s == cs@.subrange(lo as int, hi as int),
            lo <= hi <= cs@.len(),
            i <= w@.len(),
            forall|k: int| 0 <= k < i ==> fold(#[trigger] s[k]) == fold(w@[k]),
        decreases w.len() - i,
    {
        if fold_char(cs[lo + i]) != fold_char(w[i]) {
            assert(fold(s[i as int]) != fold(w@[i as int]));
            return false;
        }
        i += 1;
    }
    true
}

/// Applies the coercion rule to `input`.
pub fn scalar_of(input: &str) -> (r: Option<Scalar>)
    ensures
        coerces_to(input@, r),
{
    let cs = chars_of(input);
    let n = cs.len();
    let mut lo: usize = 0;
    while lo < n && space(cs[lo])
        invariant
            n == cs@.len(),
            lo <= n,
            skip_space(cs@, lo as int) == skip_space(cs@, 0),
        decreases n - lo,
    {
        lo += 1;
    }
    let mut hi: usize = n;
    while hi > lo && space(cs[hi - 1])
        invariant
            n == cs@.len(),
            lo <= hi <= n,
            skip_space_back(cs@, lo as int, hi as int) == skip_space_back(cs@, lo as int, n as int),
        decreases hi,
    {
        hi -= 1;
    }
    assert(cs@.subrange(lo as int, hi as int) == trimmed(input@));
    let yes = vec!['t', 'r', 'u', 'e'];
    let on = vec!['o', 'n'];
    let online = vec!['o', 'n', 'l', 'i', 'n', 'e'];
    let no = vec!['f', 'a', 'l', 's', 'e'];
    let off = vec!['o', 'f', 'f'];
    let offline = vec!['o', 'f', 'f', 'l', 'i', 'n', 'e'];
    assert(yes@ =~= seq!['t', 'r', 'u', 'e']);
    assert(on@ =~= seq!['o', 'n']);
    assert(online@ =~= seq!['o', 'n', 'l', 'i', 'n', 'e']);
    assert(no@ =~= seq!['f', 'a', 'l', 's', 'e']);
    assert(off@ =~= seq!['o', 'f', 'f']);
    assert(offline@ =~= seq!['o', 'f', 'f', 'l', 'i', 'n', 'e']);
    if is_word(&cs, lo, hi, &yes) || is_word(&cs, lo, hi, &on) || is_word(&cs, lo, hi, &online) {
        return Some(Scalar::Flag(true));
    }
    if is_word(&cs, lo, hi, &no) || is_word(&cs, lo, hi, &off) || is_word(&cs, lo, hi, &offline) {
        return Some(Scalar::Flag(false));
    }
    let mut end: usize = lo;
    while end < n && !space(cs[end])
        invariant
            n == cs@.len(),
            lo <= end <= n,
            token_end(cs@, end as int) == token_end(cs@, lo as int),
        decreases n - end,
    {
        end += 1;
    }
    if end == lo {
        return None;
    }
    let mut token = String::new();
    let mut k: usize = lo;
    while k < end
        invariant
            n == cs@.len(),
            lo <= k <= end <= n,
            token@ == cs@.subrange(lo as int, k as int),
        decreases end - k,
    {
        push_char(&mut token, cs[k]);
        assert(cs@.subrange(lo as int, k + 1) =~= cs@.subrange(lo as int, k as int).push(cs@[k as int]));
        k += 1;
    }
    Some(Scalar::Token(token))
}

} // verus!
