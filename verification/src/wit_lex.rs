//! Lexical layer of the WIT grammar: white space, comments, identifiers and
//! keywords, over a character sequence and a position in it.
use vstd::prelude::*;
use crate::text::{chars_of, matches_at, matches_at_exec, slice_chars, string_of};

verus! {

/// White space in the grammar's sense: space, tab, carriage return, line feed.
pub open spec fn is_ms(c: char) -> bool {
    c == ' ' || c == '\t' || c == '\r' || c == '\n'
}

/// ASCII letters.
pub open spec fn is_alpha(c: char) -> bool {
    ('a' <= c && c <= 'z') || ('A' <= c && c <= 'Z')
}

/// ASCII digits.
pub open spec fn is_digit(c: char) -> bool {
    '0' <= c && c <= '9'
}

/// Characters that may continue an identifier.
pub open spec fn is_ident_char(c: char) -> bool {
    is_alpha(c) || is_digit(c) || c == '_' || c == '-'
}

/// The position after the white space starting at `p`.
pub open spec fn ms0(s: Seq<char>, p: int) -> int
    decreases s.len() - p,
{
    if 0 <= p < s.len() && is_ms(s[p]) {
        ms0(s, p + 1)
    } else {
        p
    }
}

/// The position after the identifier characters starting at `p`.
pub open spec fn ident_end(s: Seq<char>, p: int) -> int
    decreases s.len() - p,
{
    if 0 <= p < s.len() && is_ident_char(s[p]) {
        ident_end(s, p + 1)
    } else {
        p
    }
}

/// The end of the identifier at `p`: a letter or `_`, then letters, digits, `_` and `-`.
pub open spec fn ident_at(s: Seq<char>, p: int) -> Option<int> {
    if 0 <= p < s.len() && (is_alpha(s[p]) || s[p] == '_') {
        Some(ident_end(s, p + 1))
    } else {
        None
    }
}

/// The position after the first line feed at or after `p` (or the end).
pub open spec fn line_end(s: Seq<char>, p: int) -> int
    decreases s.len() - p,
{
    if 0 <= p < s.len() && s[p] != '\n' {
        line_end(s, p + 1)
    } else {
        p
    }
}

/// The position after all white space and `//` comments starting at `p`.
pub open spec fn skip(s: Seq<char>, p: int) -> int
    decreases s.len() - p,
{
    if 0 <= p < s.len() && is_ms(s[p]) {
        skip(s, p + 1)
    } else if 0 <= p && p + 2 <= s.len() && s[p] == '/' && s[p + 1] == '/' {
        proof {
            lemma_line_end(s, p + 2);
        }
        skip(s, line_end(s, p + 2))
    } else {
        p
    }
}

/// The position after the literal `lit` at `p`, if it is there.
pub open spec fn tag_at(s: Seq<char>, p: int, lit: Seq<char>) -> Option<int> {
    if matches_at(s, p, lit) {
        Some(p + lit.len())
    } else {
        None
    }
}

/// The literal `lit`, with white space around it.
pub open spec fn ws_tag(s: Seq<char>, p: int, lit: Seq<char>) -> Option<int> {
    match tag_at(s, ms0(s, p), lit) {
        Some(q) => Some(ms0(s, q)),
        None => None,
    }
}

/// An identifier with white space around it: the name and the position after.
pub open spec fn ws_ident(s: Seq<char>, p: int) -> Option<(Seq<char>, int)> {
    let a = ms0(s, p);
    match ident_at(s, a) {
        Some(b) => Some((s.subrange(a, b), ms0(s, b))),
        None => None,
    }
}

pub proof fn lemma_ms0(s: Seq<char>, p: int)
    ensures
        p <= ms0(s, p),
        0 <= p <= s.len() ==> ms0(s, p) <= s.len(),
        0 <= p ==> forall|j: int| p <= j < ms0(s, p) ==> is_ms(#[trigger] s[j]),
        0 <= p <= ms0(s, p) < s.len() ==> !is_ms(s[ms0(s, p)]),
    decreases s.len() - p,
{
    if 0 <= p < s.len() && is_ms(s[p]) {
        lemma_ms0(s, p + 1);
    }
}

pub proof fn lemma_ident_end(s: Seq<char>, p: int)
    ensures
        p <= ident_end(s, p),
        0 <= p <= s.len() ==> ident_end(s, p) <= s.len(),
    decreases s.len() - p,
{
    if 0 <= p < s.len() && is_ident_char(s[p]) {
        lemma_ident_end(s, p + 1);
    }
}

pub proof fn lemma_line_end(s: Seq<char>, p: int)
    ensures
        p <= line_end(s, p),
        0 <= p <= s.len() ==> line_end(s, p) <= s.len(),
    decreases s.len() - p,
{
    if 0 <= p < s.len() && s[p] != '\n' {
        lemma_line_end(s, p + 1);
    }
}

pub proof fn lemma_skip(s: Seq<char>, p: int)
    ensures
        p <= skip(s, p),
        0 <= p <= s.len() ==> skip(s, p) <= s.len(),
    decreases s.len() - p,
{
    if 0 <= p < s.len() && is_ms(s[p]) {
        lemma_skip(s, p + 1);
    } else if 0 <= p && p + 2 <= s.len() && s[p] == '/' && s[p + 1] == '/' {
        lemma_line_end(s, p + 2);
        lemma_skip(s, line_end(s, p + 2));
    }
}

/// Positions reached through a literal lie beyond it and within the text.
pub proof fn lemma_ws_tag(s: Seq<char>, p: int, lit: Seq<char>)
    requires
        0 <= p,
    ensures
        ws_tag(s, p, lit) matches Some(q) ==> p + lit.len() <= q <= s.len(),
{
    lemma_ms0(s, p);
    if let Some(q) = tag_at(s, ms0(s, p), lit) {
        lemma_ms0(s, q);
    }
}

/// Positions reached through an identifier lie beyond it and within the text.
pub proof fn lemma_ws_ident(s: Seq<char>, p: int)
    requires
        0 <= p,
    ensures
        ws_ident(s, p) matches Some((n, q)) ==> p < q <= s.len(),
{
    lemma_ms0(s, p);
    let a = ms0(s, p);
    if let Some(b) = ident_at(s, a) {
        lemma_ident_end(s, a + 1);
        lemma_ms0(s, b);
    }
}

/// Executable form of `ms0`.
pub fn ms0_exec(s: &Vec<char>, p: usize) -> (q: usize)
    requires
        p <= s@.len(),
    ensures
        q as int == ms0(s@, p as int),
        p <= q <= s@.len(),
{
    let mut q = p;
    while q < s.len() && (s[q] == ' ' || s[q] == '\t' || s[q] == '\r' || s[q] == '\n')
        invariant
            p <= q <= s@.len(),
            ms0(s@, q as int) == ms0(s@, p as int),
        decreases s@.len() - q,
    {
        q = q + 1;
    }
    q
}

/// Executable form of `skip`.
pub fn skip_exec(s: &Vec<char>, p: usize) -> (q: usize)
    requires
        p <= s@.len(),
    ensures
        q as int == skip(s@, p as int),
        p <= q <= s@.len(),
{
    let mut q = p;
    loop
        invariant
            p <= q <= s@.len(),
            skip(s@, q as int) == skip(s@, p as int),
        decreases s@.len() - q,
    {
        if q < s.len() && (s[q] == ' ' || s[q] == '\t' || s[q] == '\r' || s[q] == '\n') {
            q = q + 1;
        } else if q < s.len() && s.len() - q >= 2 && s[q] == '/' && s[q + 1] == '/' {
            let mut e = q + 2;
            while e < s.len() && s[e] != '\n'
                invariant
                    q + 2 <= e <= s@.len(),
                    line_end(s@, e as int) == line_end(s@, q + 2),
                decreases s@.len() - e,
            {
                e = e + 1;
            }
            q = e;
        } else {
            return q;
        }
    }
}

/// Executable form of `tag_at` for the literal `lit`.
pub fn tag_at_exec(s: &Vec<char>, p: usize, lit: &Vec<char>) -> (r: Option<usize>)
    requires
        p <= s@.len(),
    ensures
        r matches Some(q) ==> tag_at(s@, p as int, lit@) == Some(q as int),
        r is None ==> tag_at(s@, p as int, lit@) is None,
{
    if matches_at_exec(s, p, lit) {
        assert(p + lit.len() <= s.len());
        Some(p + lit.len())
    } else {
        None
    }
}

/// Executable form of `ws_tag` for the literal `lit`.
pub fn ws_tag_exec(s: &Vec<char>, p: usize, lit: &str) -> (r: Option<usize>)
    requires
        p <= s@.len(),
    ensures
        r matches Some(q) ==> ws_tag(s@, p as int, lit@) == Some(q as int) && p + lit@.len() <= q <= s@.len(),
        r is None ==> ws_tag(s@, p as int, lit@) is None,
{
    proof {
        lemma_ws_tag(s@, p as int, lit@);
    }
    let a = ms0_exec(s, p);
    let l = chars_of(lit);
    match tag_at_exec(s, a, &l) {
        Some(q) => Some(ms0_exec(s, q)),
        None => None,
    }
}

/// Executable form of `ws_ident`.
pub fn ws_ident_exec(s: &Vec<char>, p: usize) -> (r: Option<(std::string::String, usize)>)
    requires
        p <= s@.len(),
    ensures
        r matches Some((n, q)) ==> ws_ident(s@, p as int) == Some((n@, q as int)) && p < q <= s@.len(),
        r is None ==> ws_ident(s@, p as int) is None,
{
    proof {
        lemma_ws_ident(s@, p as int);
    }
    let a = ms0_exec(s, p);
    if a < s.len() && (('a' <= s[a] && s[a] <= 'z') || ('A' <= s[a] && s[a] <= 'Z') || s[a] == '_') {
        let mut b = a + 1;
        while b < s.len() && (('a' <= s[b] && s[b] <= 'z') || ('A' <= s[b] && s[b] <= 'Z')
            || ('0' <= s[b] && s[b] <= '9') || s[b] == '_' || s[b] == '-')
            invariant
                a < b <= s@.len(),
                ident_end(s@, b as int) == ident_end(s@, a + 1),
            decreases s@.len() - b,
        {
            b = b + 1;
        }
        let name = slice_chars(s, a, b);
        let q = ms0_exec(s, b);
        Some((string_of(&name), q))
    } else {
        None
    }
}

} // verus!
