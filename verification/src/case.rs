//! Identifier case conversions used when turning WIT names into Rust names.
use vstd::prelude::*;
use crate::text::{append_chars, chars_of, replace_char, replace_char_exec, seqs_of, slice_chars, split, split_exec, string_of};

verus! {

/// The uppercase mapping of a character, as `char::to_uppercase` yields it.
pub uninterp spec fn upper_chars(c: char) -> Seq<char>;

/// `c` with ASCII lowercase letters mapped to uppercase, as `char::to_ascii_uppercase`.
pub open spec fn ascii_upper(c: char) -> char {
    if 'a' <= c && c <= 'z' {
        ((c as u32) - 32) as char
    } else {
        c
    }
}

/// Executable form of `ascii_upper`.
pub fn ascii_upper_exec(c: char) -> (r: char)
    ensures
        r == ascii_upper(c),
{
    if 'a' <= c && c <= 'z' {
        let x: u32 = c as u32;
        let b: u8 = x as u8;
        assert(b == x) by (bit_vector)
            requires
                b == x as u8,
                x <= 122u32;
        let r = (b - 32) as char;
        r
    } else {
        c
    }
}

/// The characters of `char::to_uppercase(c)`.
///
/// Calls `char::to_uppercase`. The contract names the full Unicode mapping
/// `upper_chars` and states only its ASCII part: an ASCII character maps to
/// its ASCII uppercase form.
#[verifier::external_body]
pub(crate) fn to_uppercase_chars(c: char) -> (r: Vec<char>)
    ensures
        r@ == upper_chars(c),
        (c as u32) < 128 ==> r@ == seq![ascii_upper(c)],
{
    c.to_uppercase().collect()
}

/// The uppercase form of a character: its ASCII uppercase form for an ASCII
/// character, else the full Unicode mapping.
pub open spec fn upper_of(c: char) -> Seq<char> {
    if (c as u32) < 128 {
        seq![ascii_upper(c)]
    } else {
        upper_chars(c)
    }
}

/// A word with its first character in uppercase (`upper_of`) and the rest unchanged.
pub open spec fn capitalize(w: Seq<char>) -> Seq<char> {
    if w.len() == 0 {
        Seq::empty()
    } else {
        upper_of(w[0]) + w.drop_first()
    }
}

/// The concatenation of the capitalized words.
pub open spec fn capitalize_all(ws: Seq<Seq<char>>) -> Seq<char>
    decreases ws.len(),
{
    if ws.len() == 0 {
        Seq::empty()
    } else {
        capitalize_all(ws.drop_last()) + capitalize(ws.last())
    }
}

fn capitalize_into(out: &mut Vec<char>, w: &Vec<char>)
    ensures
        final(out)@ == old(out)@ + capitalize(w@),
{
    if w.len() > 0 {
        let up = to_uppercase_chars(w[0]);
        append_chars(out, &up);
        let rest = slice_chars(w, 1, w.len());
        append_chars(out, &rest);
        assert(rest@ =~= w@.drop_first());
    } else {
        assert(old(out)@ + capitalize(w@) =~= old(out)@);
    }
}

fn capitalize_all_exec(ws: &Vec<Vec<char>>) -> (r: Vec<char>)
    ensures
        r@ == capitalize_all(seqs_of(ws@)),
{
    let mut out: Vec<char> = Vec::new();
    let mut i: usize = 0;
    while i < ws.len()
        invariant
            i <= ws@.len(),
            out@ == capitalize_all(seqs_of(ws@).take(i as int)),
        decreases ws@.len() - i,
    {
        capitalize_into(&mut out, &ws[i]);
        i = i + 1;
        assert(seqs_of(ws@).take(i as int).drop_last() =~= seqs_of(ws@).take(i - 1));
    }
    assert(seqs_of(ws@).take(ws@.len() as int) =~= seqs_of(ws@));
    out
}

/// kebab-case to PascalCase: split at `-`, capitalize each part, concatenate.
pub open spec fn kebab_pascal(s: Seq<char>) -> Seq<char> {
    capitalize_all(split(s, seq!['-']))
}

/// kebab-case to snake_case: every `-` becomes `_`.
pub open spec fn kebab_snake(s: Seq<char>) -> Seq<char> {
    replace_char(s, '-', '_')
}

/// Character form of `kebab_to_pascal`.
pub fn kebab_pascal_chars(s: &Vec<char>) -> (r: Vec<char>)
    ensures
        r@ == kebab_pascal(s@),
{
    let dash: Vec<char> = vec!['-'];
    assert(dash@ =~= seq!['-']);
    let parts = split_exec(s, &dash);
    capitalize_all_exec(&parts)
}

/// Converts kebab-case to PascalCase (for type names).
pub fn kebab_to_pascal(kebab: &str) -> (r: String)
    ensures
        r@ == kebab_pascal(kebab@),
{
    let v = chars_of(kebab);
    string_of(&kebab_pascal_chars(&v))
}

/// Converts kebab-case to snake_case (for function and parameter names).
pub fn kebab_to_snake(kebab: &str) -> (r: String)
    ensures
        r@ == kebab_snake(kebab@),
{
    let v = chars_of(kebab);
    string_of(&replace_char_exec(&v, '-', '_'))
}

/// The pieces of `s` between occurrences of `-` or `_`.
pub open spec fn split_dash_underscore(s: Seq<char>) -> Seq<Seq<char>>
    decreases s.len(),
{
    if s.len() == 0 {
        seq![s]
    } else {
        let rest = split_dash_underscore(s.drop_last());
        if s.last() == '-' || s.last() == '_' {
            rest.push(Seq::empty())
        } else {
            rest.update(rest.len() - 1, rest.last().push(s.last()))
        }
    }
}

proof fn lemma_split_du_len(s: Seq<char>)
    ensures
        split_dash_underscore(s).len() >= 1,
    decreases s.len(),
{
    if s.len() > 0 {
        lemma_split_du_len(s.drop_last());
    }
}

fn split_dash_underscore_exec(s: &Vec<char>) -> (r: Vec<Vec<char>>)
    ensures
        seqs_of(r@) == split_dash_underscore(s@),
{
    let mut out: Vec<Vec<char>> = Vec::new();
    let mut cur: Vec<char> = Vec::new();
    let mut i: usize = 0;
    proof {
        assert(s@.take(0) =~= Seq::<char>::empty());
        assert(seqs_of(out@).push(cur@) =~= seq![Seq::<char>::empty()]);
    }
    while i < s.len()
        invariant
            i <= s@.len(),
            seqs_of(out@).push(cur@) == split_dash_underscore(s@.take(i as int)),
        decreases s@.len() - i,
    {
        let c = s[i];
        let ghost prev = s@.take(i as int);
        proof {
            lemma_split_du_len(prev);
            assert(s@.take(i + 1).drop_last() =~= prev);
            assert(s@.take(i + 1).last() == c);
        }
        if c == '-' || c == '_' {
            let ghost old_out = out@;
            let done = cur;
            out.push(done);
            cur = Vec::new();
            assert(seqs_of(out@) =~= seqs_of(old_out).push(done@));
            assert(seqs_of(out@).push(cur@) =~= split_dash_underscore(s@.take(i + 1)));
        } else {
            let ghost old_cur = cur@;
            cur.push(c);
            assert(seqs_of(out@).push(cur@) =~= seqs_of(out@).push(old_cur).update(
                seqs_of(out@).len() as int, old_cur.push(c)));
        }
        i = i + 1;
    }
    assert(s@.take(s@.len() as int) =~= s@);
    let ghost old_out = out@;
    out.push(cur);
    assert(seqs_of(out@) =~= seqs_of(old_out).push(cur@));
    out
}

/// kebab-case or snake_case to PascalCase: split at `-` and `_`, capitalize
/// each part, concatenate.
pub open spec fn camel(s: Seq<char>) -> Seq<char> {
    capitalize_all(split_dash_underscore(s))
}

/// Character form of the WIT name conversion to PascalCase.
pub fn camel_chars(s: &Vec<char>) -> (r: Vec<char>)
    ensures
        r@ == camel(s@),
{
    let parts = split_dash_underscore_exec(s);
    capitalize_all_exec(&parts)
}

/// snake_case to CamelCase as the process macro does it: `_` is dropped and
/// the next character (and the first one) is ASCII-uppercased.
pub open spec fn snake_camel_from(s: Seq<char>, capitalize_next: bool) -> Seq<char>
    decreases s.len(),
{
    if s.len() == 0 {
        Seq::empty()
    } else if s[0] == '_' {
        snake_camel_from(s.drop_first(), true)
    } else if capitalize_next {
        seq![ascii_upper(s[0])] + snake_camel_from(s.drop_first(), false)
    } else {
        seq![s[0]] + snake_camel_from(s.drop_first(), false)
    }
}

/// The CamelCase variant name of a snake_case method name.
pub open spec fn snake_camel(s: Seq<char>) -> Seq<char> {
    snake_camel_from(s, true)
}

proof fn lemma_snake_camel_split(s: Seq<char>, i: int, cap: bool)
    requires
        0 <= i < s.len(),
    ensures
        snake_camel_from(s.skip(i), cap) == (if s[i] == '_' {
            snake_camel_from(s.skip(i + 1), true)
        } else if cap {
            seq![ascii_upper(s[i])] + snake_camel_from(s.skip(i + 1), false)
        } else {
            seq![s[i]] + snake_camel_from(s.skip(i + 1), false)
        }),
{
    assert(s.skip(i).drop_first() =~= s.skip(i + 1));
}

/// Converts a snake_case method name to a CamelCase variant name.
pub fn snake_to_camel(snake: &str) -> (r: String)
    ensures
        r@ == snake_camel(snake@),
{
    let v = chars_of(snake);
    let mut out: Vec<char> = Vec::new();
    let mut cap = true;
    let mut i: usize = 0;
    assert(v@.skip(0) =~= v@);
    assert(out@ + snake_camel_from(v@, cap) =~= snake_camel_from(v@, cap));
    while i < v.len()
        invariant
            i <= v@.len(),
            out@ + snake_camel_from(v@.skip(i as int), cap) == snake_camel(v@),
        decreases v@.len() - i,
    {
        let c = v[i];
        proof {
            lemma_snake_camel_split(v@, i as int, cap);
        }
        if c == '_' {
            cap = true;
        } else if cap {
            out.push(ascii_upper_exec(c));
            cap = false;
        } else {
            out.push(c);
        }
        i = i + 1;
        assert(out@ + snake_camel_from(v@.skip(i as int), cap) =~= snake_camel(v@));
    }
    assert(v@.skip(v@.len() as int) =~= Seq::<char>::empty());
    assert(out@ + snake_camel_from(v@.skip(i as int), cap) =~= out@);
    string_of(&out)
}

} // verus!
