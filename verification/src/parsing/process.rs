//! What is done to a line before it is lexed.

use crate::text::{from_chars, to_chars};
use vstd::prelude::*;

verus! {

/// Whether `c` has the Unicode property `White_Space`.
#[verifier::allow_in_spec]
pub fn is_blank(c: char) -> bool
    returns
        ('\u{9}' <= c && c <= '\u{d}') || c == ' ' || c == '\u{85}' || c == '\u{a0}' || c
            == '\u{1680}' || ('\u{2000}' <= c && c <= '\u{200a}') || c == '\u{2028}' || c
            == '\u{2029}' || c == '\u{202f}' || c == '\u{205f}' || c == '\u{3000}',
{
    ('\u{9}' <= c && c <= '\u{d}') || c == ' ' || c == '\u{85}' || c == '\u{a0}' || c
        == '\u{1680}' || ('\u{2000}' <= c && c <= '\u{200a}') || c == '\u{2028}' || c
        == '\u{2029}' || c == '\u{202f}' || c == '\u{205f}' || c == '\u{3000}'
}

/// `s` without the white space at its start.
pub open spec fn trim_start(s: Seq<char>) -> Seq<char>
    decreases s.len(),
{
    if s.len() > 0 && is_blank(s[0]) {
        trim_start(s.skip(1))
    } else {
        s
    }
}

/// `s` without the white space at its end.
pub open spec fn trim_end(s: Seq<char>) -> Seq<char>
    decreases s.len(),
{
    if s.len() > 0 && is_blank(s.last()) {
        trim_end(s.drop_last())
    } else {
        s
    }
}

/// `s` without the white space at its start and at its end.
pub open spec fn trimmed(s: Seq<char>) -> Seq<char> {
    trim_end(trim_start(s))
}

/// `s` with a `;` after it, unless it ends in one.
pub open spec fn terminated(s: Seq<char>) -> Seq<char> {
    if s.len() > 0 && s.last() == ';' {
        s
    } else {
        s.push(';')
    }
}

/// The line as the lexer gets it: without the white space around it (a
/// newline at the end is white space) and ending in `;`.
pub open spec fn process_spec(input: Seq<char>) -> Seq<char> {
    terminated(trimmed(input))
}

/// Strips the white space around `input` and makes it end in `;`, the
/// terminator at which the parser closes the last statement.
pub fn process(input: String) -> (r: String)
    ensures
        r@ == process_spec(input@),
        r@.len() > 0 && r@.last() == ';',
{
    let chars = to_chars(input.as_str());
    let mut start: usize = 0;
    assert(chars@.skip(0) == chars@);
    while start < chars.len() && is_blank(chars[start])
        invariant
            start <= chars.len(),
            trim_start(chars@) == trim_start(chars@.skip(start as int)),
        decreases chars.len() - start,
    {
        assert(chars@.skip(start as int).skip(1) == chars@.skip(start + 1));
        start += 1;
    }
    assert(trim_start(chars@) == chars@.skip(start as int));
    let mut end: usize = chars.len();
    while end > start && is_blank(chars[end - 1])
        invariant
            start <= end <= chars.len(),
            trimmed(chars@) == trim_end(chars@.subrange(start as int, end as int)),
        decreases end,
    {
        assert(chars@.subrange(start as int, end as int).drop_last() == chars@.subrange(
            start as int,
            end - 1,
        ));
        end -= 1;
    }
    let mut out = from_chars(&chars, start, end);
    if !(end > start && chars[end - 1] == ';') {
        out.push(';');
    }
    out
}

/// No newline is left at the end of a trimmed line.
pub proof fn lemma_trimmed_has_no_newline_at_end(s: Seq<char>)
    ensures
        trimmed(s).len() > 0 ==> trimmed(s).last() != '\n',
{
    lemma_trim_end_last(trim_start(s));
}

/// What `trim_end` leaves does not end in white space.
pub proof fn lemma_trim_end_last(s: Seq<char>)
    ensures
        trim_end(s).len() > 0 ==> !is_blank(trim_end(s).last()),
    decreases s.len(),
{
    if s.len() > 0 && is_blank(s.last()) {
        lemma_trim_end_last(s.drop_last());
    }
}

} // verus!
