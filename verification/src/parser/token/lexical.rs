use vstd::prelude::*;

use crate::parser::source::starts_with_at;

verus! {

/// Unicode's White_Space property.
pub open spec fn spec_is_whitespace(c: char) -> bool {
    ||| c == ' '
    ||| ('\u{9}' <= c && c <= '\u{d}')
    ||| c == '\u{85}'
    ||| c == '\u{a0}'
    ||| c == '\u{1680}'
    ||| ('\u{2000}' <= c && c <= '\u{200a}')
    ||| c == '\u{2028}'
    ||| c == '\u{2029}'
    ||| c == '\u{202f}'
    ||| c == '\u{205f}'
    ||| c == '\u{3000}'
}

/// `c` has Unicode's White_Space property.
pub fn is_whitespace(c: char) -> (r: bool)
    ensures
        r == spec_is_whitespace(c),
{
    c == ' ' || ('\u{9}' <= c && c <= '\u{d}') || c == '\u{85}' || c == '\u{a0}' || c
        == '\u{1680}' || ('\u{2000}' <= c && c <= '\u{200a}') || c == '\u{2028}' || c
        == '\u{2029}' || c == '\u{202f}' || c == '\u{205f}' || c == '\u{3000}'
}

/// An identifier starts with an ASCII letter, `_` or `$`.
pub open spec fn spec_is_ident_start(c: char) -> bool {
    ('a' <= c && c <= 'z') || ('A' <= c && c <= 'Z') || c == '_' || c == '$'
}

/// An identifier continues with the characters it may start with, or an ASCII digit.
pub open spec fn spec_is_ident_cont(c: char) -> bool {
    spec_is_ident_start(c) || ('0' <= c && c <= '9')
}

pub open spec fn spec_is_decimal_digit(c: char) -> bool {
    '0' <= c && c <= '9'
}

pub open spec fn is_not_newline(c: char) -> bool {
    c != '\n'
}

pub open spec fn is_not_quote(c: char) -> bool {
    c != '"'
}

pub open spec fn is_underscore(c: char) -> bool {
    c == '_'
}

/// The end of the run of characters of `s`, from index `i` on, of which `p` holds.
pub open spec fn run_end(s: Seq<char>, i: int, p: spec_fn(char) -> bool) -> int
    decreases s.len() - i,
{
    if 0 <= i < s.len() && p(s[i]) {
        run_end(s, i + 1, p)
    } else {
        i
    }
}

pub proof fn lemma_run_end_bounds(s: Seq<char>, i: int, p: spec_fn(char) -> bool)
    requires
        0 <= i <= s.len(),
    ensures
        i <= run_end(s, i, p) <= s.len(),
        forall|j: int| i <= j < run_end(s, i, p) ==> p(#[trigger] s[j]),
        run_end(s, i, p) == s.len() || !p(s[run_end(s, i, p)]),
        i < s.len() && p(s[i]) ==> run_end(s, i, p) > i,
    decreases s.len() - i,
{
    if i < s.len() && p(s[i]) {
        lemma_run_end_bounds(s, i + 1, p);
    }
}

/// A run is determined by where it stops.
pub proof fn lemma_run_end_unique(s: Seq<char>, i: int, e: int, p: spec_fn(char) -> bool)
    requires
        0 <= i <= e <= s.len(),
        forall|j: int| i <= j < e ==> p(#[trigger] s[j]),
        e == s.len() || !p(s[e]),
    ensures
        run_end(s, i, p) == e,
    decreases e - i,
{
    if i < e {
        lemma_run_end_unique(s, i + 1, e, p);
    }
}

/// The index just after the first `*/` of `s` that starts at or after `j`.
pub open spec fn block_comment_end(s: Seq<char>, j: int) -> Option<int>
    decreases s.len() - j,
{
    if j < 0 || j >= s.len() {
        None
    } else if starts_with_at(s, j, seq!['*', '/']) {
        Some(j + 2)
    } else {
        block_comment_end(s, j + 1)
    }
}

pub proof fn lemma_block_comment_end_bounds(s: Seq<char>, j: int)
    requires
        0 <= j,
    ensures
        block_comment_end(s, j) matches Some(e) ==> j + 2 <= e <= s.len(),
    decreases s.len() - j,
{
    if j < s.len() && !starts_with_at(s, j, seq!['*', '/']) {
        lemma_block_comment_end_bounds(s, j + 1);
    }
}

/// Where the comments and whitespace that start at `i` end: `Ok` of the index after them,
/// or `Err` of the start of a block comment that is never closed.
pub open spec fn skip_trivia(s: Seq<char>, i: int) -> Result<int, int>
    decreases s.len() - i,
{
    if i < 0 || i > s.len() {
        Ok(i)
    } else if starts_with_at(s, i, seq!['/', '/']) {
        let e = run_end(s, i + 2, |c: char| is_not_newline(c));
        if i < e <= s.len() {
            skip_trivia(s, e)
        } else {
            Ok(i)
        }
    } else if starts_with_at(s, i, seq!['/', '*']) {
        match block_comment_end(s, i + 2) {
            Some(e) => if i < e <= s.len() {
                skip_trivia(s, e)
            } else {
                Ok(i)
            },
            None => Err(i),
        }
    } else if i < s.len() && spec_is_whitespace(s[i]) {
        let e = run_end(s, i, |c: char| spec_is_whitespace(c));
        if i < e <= s.len() {
            skip_trivia(s, e)
        } else {
            Ok(i)
        }
    } else {
        Ok(i)
    }
}

pub proof fn lemma_skip_trivia_bounds(s: Seq<char>, i: int)
    requires
        0 <= i <= s.len(),
    ensures
        skip_trivia(s, i) matches Ok(e) ==> i <= e <= s.len(),
        skip_trivia(s, i) matches Err(e) ==> i <= e && e + 2 <= s.len(),
    decreases s.len() - i,
{
    if starts_with_at(s, i, seq!['/', '/']) {
        let e = run_end(s, i + 2, |c: char| is_not_newline(c));
        lemma_run_end_bounds(s, i + 2, |c: char| is_not_newline(c));
        lemma_skip_trivia_bounds(s, e);
    } else if starts_with_at(s, i, seq!['/', '*']) {
        lemma_block_comment_end_bounds(s, i + 2);
        match block_comment_end(s, i + 2) {
            Some(e) => lemma_skip_trivia_bounds(s, e),
            None => {},
        }
    } else if i < s.len() && spec_is_whitespace(s[i]) {
        let e = run_end(s, i, |c: char| spec_is_whitespace(c));
        lemma_run_end_bounds(s, i, |c: char| spec_is_whitespace(c));
        lemma_skip_trivia_bounds(s, e);
    }
}

} // verus!
