//! Alias expansion: a rewrite of the line, before it is lexed.
//!
//! The line is cut into segments at the separators `;`, `&&` and `|` that
//! stand outside quotes. The first word of a segment is its head. A head that
//! is an alias is replaced by the value of the alias, and so on with the new
//! head, at most ten times in a segment. A segment whose head is `alias` is
//! left as it is; if it defines an alias, the segments after it see the
//! definition.

use crate::builtins::{assignment, split_assignment};
use crate::table::{assign, lookup, Entries, Table};
use crate::text::{
    extend_chars, find_from, from_chars, position_from, same, skip_blanks, skip_spaces, to_chars,
};
use vstd::prelude::*;

verus! {

/// How many times the head of one segment is replaced at most.
pub const EXPANSION_BOUND: usize = 10;

/// Whether a place in the line is outside quotes, or inside which.
#[derive(Clone, Copy, Debug, PartialEq, Eq, Structural)]
pub enum Quote {
    Outside,
    Single,
    Double,
}

/// Whether a separator starts at `i`: `;`, `|`, or `&&`.
pub open spec fn separator_at(s: Seq<char>, i: int) -> bool {
    s[i] == ';' || s[i] == '|' || (s[i] == '&' && i + 1 < s.len() && s[i + 1] == '&')
}

/// Where the segment ends that is read from `i` in the state `q`: at the
/// first separator outside quotes, or at the end of the line. A `\` outside
/// single quotes takes the character after it with it, so that an escaped
/// quote or separator is neither.
pub open spec fn segment_end(s: Seq<char>, i: int, q: Quote) -> int
    decreases s.len() - i,
{
    if i < 0 || i >= s.len() {
        i
    } else {
        match q {
            Quote::Outside => if separator_at(s, i) {
                i
            } else if s[i] == '\\' {
                if i + 1 < s.len() {
                    segment_end(s, i + 2, Quote::Outside)
                } else {
                    i + 1
                }
            } else if s[i] == '\'' {
                segment_end(s, i + 1, Quote::Single)
            } else if s[i] == '"' {
                segment_end(s, i + 1, Quote::Double)
            } else {
                segment_end(s, i + 1, Quote::Outside)
            },
            Quote::Single => if s[i] == '\'' {
                segment_end(s, i + 1, Quote::Outside)
            } else {
                segment_end(s, i + 1, Quote::Single)
            },
            Quote::Double => if s[i] == '\\' && i + 1 < s.len() {
                segment_end(s, i + 2, Quote::Double)
            } else if s[i] == '"' {
                segment_end(s, i + 1, Quote::Outside)
            } else {
                segment_end(s, i + 1, Quote::Double)
            },
        }
    }
}

/// A segment ends at or after its start, within the line, and at a
/// separator if before the end of the line.
pub proof fn lemma_segment_end(s: Seq<char>, i: int, q: Quote)
    requires
        0 <= i <= s.len(),
    ensures
        i <= segment_end(s, i, q) <= s.len(),
        segment_end(s, i, q) < s.len() ==> separator_at(s, segment_end(s, i, q)),
    decreases s.len() - i,
{
    if i < s.len() {
        match q {
            Quote::Outside => if separator_at(s, i) {
            } else if s[i] == '\\' {
                if i + 1 < s.len() {
                    lemma_segment_end(s, i + 2, Quote::Outside);
                }
            } else if s[i] == '\'' {
                lemma_segment_end(s, i + 1, Quote::Single);
            } else if s[i] == '"' {
                lemma_segment_end(s, i + 1, Quote::Double);
            } else {
                lemma_segment_end(s, i + 1, Quote::Outside);
            },
            Quote::Single => if s[i] == '\'' {
                lemma_segment_end(s, i + 1, Quote::Outside);
            } else {
                lemma_segment_end(s, i + 1, Quote::Single);
            },
            Quote::Double => if s[i] == '\\' && i + 1 < s.len() {
                lemma_segment_end(s, i + 2, Quote::Double);
            } else if s[i] == '"' {
                lemma_segment_end(s, i + 1, Quote::Outside);
            } else {
                lemma_segment_end(s, i + 1, Quote::Double);
            },
        }
    }
}

/// The length of the separator that starts with `c`.
pub open spec fn separator_len(c: char) -> int {
    if c == '&' {
        2
    } else {
        1
    }
}

/// Where the head of `seg` starts: after the blanks at its start.
pub open spec fn head_start(seg: Seq<char>) -> int {
    skip_blanks(seg, 0)
}

/// Where the head of `seg` ends: at the first blank after its start, or at
/// the end of the segment.
pub open spec fn head_end(seg: Seq<char>) -> int {
    position_from(seg, ' ', head_start(seg))
}

/// The head of `seg`: its first word.
pub open spec fn head_of(seg: Seq<char>) -> Seq<char> {
    seg.subrange(head_start(seg), head_end(seg))
}

/// `seg` with `value` in place of its head.
pub open spec fn with_head(seg: Seq<char>, value: Seq<char>) -> Seq<char> {
    seg.subrange(0, head_start(seg)) + value + seg.subrange(head_end(seg), seg.len() as int)
}

/// Whether the head of `seg` is not replaced: there is none, it is `alias`,
/// or it is no alias.
pub open spec fn stays(seg: Seq<char>, table: Entries) -> bool {
    head_of(seg).len() == 0 || head_of(seg) == "alias"@ || lookup(table, head_of(seg)) is None
}

/// `seg` with its head expanded, in at most `bound` steps.
///
/// Each step puts the value of the alias in place of the head. The steps end
/// at a head that is not replaced, and after a value whose first word is the
/// head that it took the place of.
pub open spec fn expand_segment(seg: Seq<char>, table: Entries, bound: nat) -> Seq<char>
    decreases bound,
{
    if bound == 0 || stays(seg, table) {
        seg
    } else {
        let value = lookup(table, head_of(seg)).unwrap();
        if head_of(value) == head_of(seg) {
            with_head(seg, value)
        } else {
            expand_segment(with_head(seg, value), table, (bound - 1) as nat)
        }
    }
}

/// `s` without the blanks at its end.
pub open spec fn strip_end(s: Seq<char>) -> Seq<char>
    decreases s.len(),
{
    if s.len() > 0 && s.last() == ' ' {
        strip_end(s.drop_last())
    } else {
        s
    }
}

/// `value` without the quotes around it, where it starts and ends with the
/// same quote.
pub open spec fn unquoted(value: Seq<char>) -> Seq<char> {
    if value.len() >= 2 && ((value[0] == '\'' && value.last() == '\'') || (value[0] == '"'
        && value.last() == '"')) {
        value.subrange(1, value.len() - 1)
    } else {
        value
    }
}

/// The alias that `seg` defines: its head is `alias`, and what follows,
/// without the blanks around it, is `name=value`. The value is taken without
/// the quotes around it.
pub open spec fn definition(seg: Seq<char>) -> Option<(Seq<char>, Seq<char>)> {
    if head_of(seg) == "alias"@ {
        let rest = seg.subrange(head_end(seg), seg.len() as int);
        let arg = strip_end(rest.subrange(skip_blanks(rest, 0), rest.len() as int));
        match assignment(arg) {
            Some((name, value)) => Some((name, unquoted(value))),
            None => None,
        }
    } else {
        None
    }
}

/// The aliases as the segments after `seg` see them.
pub open spec fn provisional(seg: Seq<char>, table: Entries) -> Entries {
    match definition(seg) {
        Some((name, value)) => assign(table, name, value),
        None => table,
    }
}

/// The line from `i` on with its aliases expanded: each segment expanded
/// with the aliases as they stand before it, and the separators as they are.
pub open spec fn expand_from(s: Seq<char>, i: int, table: Entries) -> Seq<char>
    decreases s.len() - i,
    when i >= 0
    via expand_from_decreases
{
    if i >= s.len() {
        Seq::empty()
    } else {
        let end = segment_end(s, i, Quote::Outside);
        let seg = s.subrange(i, end);
        if end >= s.len() {
            expand_segment(seg, table, EXPANSION_BOUND as nat)
        } else {
            expand_segment(seg, table, EXPANSION_BOUND as nat) + s.subrange(
                end,
                end + separator_len(s[end]),
            ) + expand_from(s, end + separator_len(s[end]), provisional(seg, table))
        }
    }
}

#[via_fn]
proof fn expand_from_decreases(s: Seq<char>, i: int, table: Entries) {
    if i < s.len() {
        lemma_segment_end(s, i, Quote::Outside);
    }
}

/// The line `s` with its aliases expanded.
pub open spec fn expand_spec(s: Seq<char>, table: Entries) -> Seq<char> {
    expand_from(s, 0, table)
}

/// Where the segment ends that starts at `from`.
fn find_segment_end(chars: &Vec<char>, from: usize) -> (r: usize)
    requires
        from <= chars.len(),
    ensures
        r == segment_end(chars@, from as int, Quote::Outside),
        from <= r <= chars.len(),
{
    let mut i: usize = from;
    let mut q = Quote::Outside;
    let n = chars.len();
    proof {
        lemma_segment_end(chars@, from as int, Quote::Outside);
    }
    loop
        invariant
            n == chars.len(),
            from <= i <= n,
            segment_end(chars@, i as int, q) == segment_end(chars@, from as int, Quote::Outside),
        decreases n - i,
    {
        if i >= n {
            return i;
        }
        let c = chars[i];
        match q {
            Quote::Outside => {
                if c == ';' || c == '|' || (c == '&' && i + 1 < n && chars[i + 1] == '&') {
                    return i;
                } else if c == '\\' {
                    if i + 1 < n {
                        i += 2;
                    } else {
                        return i + 1;
                    }
                } else if c == '\'' {
                    q = Quote::Single;
                    i += 1;
                } else if c == '"' {
                    q = Quote::Double;
                    i += 1;
                } else {
                    i += 1;
                }
            },
            Quote::Single => {
                if c == '\'' {
                    q = Quote::Outside;
                }
                i += 1;
            },
            Quote::Double => {
                if c == '\\' && i + 1 < n {
                    i += 2;
                } else {
                    if c == '"' {
                        q = Quote::Outside;
                    }
                    i += 1;
                }
            },
        }
    }
}

/// The segment `seg` with its head expanded.
fn expand_head(seg: Vec<char>, table: &Table) -> (r: Vec<char>)
    ensures
        r@ == expand_segment(seg@, table@, EXPANSION_BOUND as nat),
{
    let mut cur = seg;
    let mut bound: usize = EXPANSION_BOUND;
    loop
        invariant
            expand_segment(cur@, table@, bound as nat) == expand_segment(
                seg@,
                table@,
                EXPANSION_BOUND as nat,
            ),
        decreases bound,
    {
        if bound == 0 {
            return cur;
        }
        let start = skip_spaces(&cur, 0);
        let end = find_from(&cur, ' ', start);
        let head = from_chars(&cur, start, end);
        if end == start || same(head.as_str(), "alias") {
            return cur;
        }
        let value = match table.get(head.as_str()) {
            None => {
                return cur;
            },
            Some(value) => value,
        };
        let v = to_chars(value.as_str());
        let value_start = skip_spaces(&v, 0);
        let value_end = find_from(&v, ' ', value_start);
        let value_head = from_chars(&v, value_start, value_end);
        let mut next: Vec<char> = Vec::new();
        extend_chars(&mut next, &cur, 0, start);
        extend_chars(&mut next, &v, 0, v.len());
        extend_chars(&mut next, &cur, end, cur.len());
        proof {
            assert(v@.subrange(0, v.len() as int) =~= v@);
            assert(next@ =~= with_head(cur@, value@));
        }
        let again = value_head == head;
        cur = next;
        if again {
            return cur;
        }
        bound -= 1;
    }
}

/// Adds to `table` the alias that `seg` defines, if it defines one.
fn define(seg: &Vec<char>, table: &mut Table)
    ensures
        final(table)@ == provisional(seg@, old(table)@),
{
    let start = skip_spaces(seg, 0);
    let end = find_from(seg, ' ', start);
    let head = from_chars(seg, start, end);
    if !same(head.as_str(), "alias") {
        return ;
    }
    let mut rest: Vec<char> = Vec::new();
    extend_chars(&mut rest, seg, end, seg.len());
    assert(rest@ =~= seg@.subrange(end as int, seg.len() as int));
    let from = skip_spaces(&rest, 0);
    let mut to: usize = rest.len();
    while to > from && rest[to - 1] == ' '
        invariant
            from <= to <= rest.len(),
            strip_end(rest@.subrange(from as int, rest.len() as int)) == strip_end(
                rest@.subrange(from as int, to as int),
            ),
        decreases to,
    {
        assert(rest@.subrange(from as int, to as int).drop_last() =~= rest@.subrange(
            from as int,
            to - 1,
        ));
        to -= 1;
    }
    let arg = from_chars(&rest, from, to);
    match split_assignment(arg.as_str()) {
        Some((name, value)) => {
            let v = to_chars(value.as_str());
            let n = v.len();
            let plain = if n >= 2 && ((v[0] == '\'' && v[n - 1] == '\'') || (v[0] == '"' && v[n
                - 1] == '"')) {
                from_chars(&v, 1, n - 1)
            } else {
                value
            };
            table.insert(name, plain);
        },
        None => {},
    }
}

/// Expands the aliases in the line `input`: the head of each segment is
/// replaced as `expand_segment` says, with the aliases of `aliases` and
/// those that earlier segments of the line define.
pub fn expand_aliases(input: &str, aliases: &Table) -> (r: String)
    ensures
        r@ == expand_spec(input@, aliases@),
{
    let chars = to_chars(input);
    let n = chars.len();
    let mut table = aliases.clone();
    let mut out: Vec<char> = Vec::new();
    let mut i: usize = 0;
    proof {
        assert(out@ + expand_from(chars@, 0, table@) =~= expand_from(chars@, 0, aliases@));
    }
    while i < n
        invariant
            n == chars.len(),
            i <= n,
            out@ + expand_from(chars@, i as int, table@) == expand_spec(chars@, aliases@),
        decreases n - i,
    {
        proof {
            lemma_segment_end(chars@, i as int, Quote::Outside);
        }
        let end = find_segment_end(&chars, i);
        let mut seg: Vec<char> = Vec::new();
        extend_chars(&mut seg, &chars, i, end);
        assert(seg@ =~= chars@.subrange(i as int, end as int));
        let ghost before = out@;
        let ghost whole = expand_from(chars@, i as int, table@);
        if end < n {
            define_after(&seg, &mut table, &mut out);
            let width: usize = if chars[end] == '&' {
                2
            } else {
                1
            };
            extend_chars(&mut out, &chars, end, end + width);
            i = end + width;
            assert(out@ + expand_from(chars@, i as int, table@) =~= before + whole);
        } else {
            let expanded = expand_head(seg, &table);
            extend_chars(&mut out, &expanded, 0, expanded.len());
            assert(expanded@.subrange(0, expanded.len() as int) =~= expanded@);
            i = end;
            assert(out@ + expand_from(chars@, i as int, table@) =~= before + whole);
        }
    }
    assert(out@ + Seq::<char>::empty() =~= out@);
    crate::text::collect(&out)
}

/// Adds the segment `seg`, expanded, to `out`, and to `table` the alias that
/// the segment defines.
fn define_after(seg: &Vec<char>, table: &mut Table, out: &mut Vec<char>)
    ensures
        final(out)@ == old(out)@ + expand_segment(seg@, old(table)@, EXPANSION_BOUND as nat),
        final(table)@ == provisional(seg@, old(table)@),
{
    let mut copy: Vec<char> = Vec::new();
    extend_chars(&mut copy, seg, 0, seg.len());
    assert(copy@ =~= seg@);
    let expanded = expand_head(copy, table);
    extend_chars(out, &expanded, 0, expanded.len());
    assert(expanded@.subrange(0, expanded.len() as int) =~= expanded@);
    define(seg, table);
}

/// A segment whose head is not replaced stays as it is.
pub proof fn lemma_stays(seg: Seq<char>, table: Entries, bound: nat)
    requires
        stays(seg, table),
    ensures
        expand_segment(seg, table, bound) == seg,
{
}

/// The head of a word followed by nothing, or by text that starts with a
/// blank, is the word.
pub proof fn lemma_head_of_word(name: Seq<char>, rest: Seq<char>)
    requires
        name.len() > 0,
        forall|k: int| 0 <= k < name.len() ==> name[k] != ' ',
        rest.len() == 0 || rest[0] == ' ',
    ensures
        head_start(name + rest) == 0,
        head_end(name + rest) == name.len(),
        head_of(name + rest) == name,
        forall|value: Seq<char>| #[trigger] with_head(name + rest, value) == value + rest,
{
    let seg = name + rest;
    assert(seg[0] == name[0]);
    lemma_word_end(seg, name.len() as int, 0);
    assert(seg.subrange(0, name.len() as int) =~= name);
    assert forall|value: Seq<char>| #[trigger] with_head(seg, value) == value + rest by {
        assert(seg.subrange(0, 0) =~= Seq::<char>::empty());
        assert(seg.subrange(name.len() as int, seg.len() as int) =~= rest);
        assert(seg.subrange(0, 0) + value + rest =~= value + rest);
    }
}

/// Where no blank stands from `i` up to `n`, and `n` is the end of `s` or a
/// blank, the word that starts at `i` ends at `n`.
proof fn lemma_word_end(s: Seq<char>, n: int, i: int)
    requires
        0 <= i <= n <= s.len(),
        forall|k: int| i <= k < n ==> s[k] != ' ',
        n == s.len() || s[n] == ' ',
    ensures
        position_from(s, ' ', i) == n,
    decreases n - i,
{
    if i < n {
        lemma_word_end(s, n, i + 1);
    }
}

/// Whether `seg` is left as it is by `bound` steps of expansion.
pub open spec fn settled(seg: Seq<char>, table: Entries, bound: nat) -> bool {
    expand_segment(seg, table, bound) == seg
}

/// An alias stands for its value: where `name` is an alias for `value`, a
/// segment that starts with the word `name` expands to the value followed by
/// the rest of the segment. This is so where the expansion ends with that
/// step: where the first word of the value is `name` again, or the new
/// segment is left as it is.
pub proof fn lemma_alias_expands(
    table: Entries,
    name: Seq<char>,
    value: Seq<char>,
    rest: Seq<char>,
)
    requires
        lookup(table, name) == Some(value),
        name.len() > 0,
        forall|k: int| 0 <= k < name.len() ==> name[k] != ' ',
        name != "alias"@,
        rest.len() == 0 || rest[0] == ' ',
        head_of(value) == name || settled(value + rest, table, (EXPANSION_BOUND - 1) as nat),
    ensures
        expand_segment(name + rest, table, EXPANSION_BOUND as nat) == value + rest,
{
    lemma_head_of_word(name, rest);
    let seg = name + rest;
    assert(with_head(seg, value) == value + rest);
    assert(!stays(seg, table));
}

/// The same for a value whose first word is no alias: the expansion ends
/// with the first step.
pub proof fn lemma_alias_expands_once(
    table: Entries,
    name: Seq<char>,
    value: Seq<char>,
    rest: Seq<char>,
)
    requires
        lookup(table, name) == Some(value),
        name.len() > 0,
        forall|k: int| 0 <= k < name.len() ==> name[k] != ' ',
        name != "alias"@,
        rest.len() == 0 || rest[0] == ' ',
        stays(value + rest, table),
    ensures
        expand_segment(name + rest, table, EXPANSION_BOUND as nat) == value + rest,
{
    lemma_stays(value + rest, table, (EXPANSION_BOUND - 1) as nat);
    lemma_alias_expands(table, name, value, rest);
}

/// An alias that a line defines is seen by the next segment of the line:
/// after a segment that defines `name` as `value`, the lookup of `name`
/// gives `value`.
pub proof fn lemma_definition_is_seen(seg: Seq<char>, table: Entries)
    ensures
        definition(seg) matches Some(d) ==> lookup(provisional(seg, table), d.0) == Some(d.1),
{
    match definition(seg) {
        Some(d) => {
            crate::table::lemma_assign_same(table, d.0, d.1);
        },
        None => {},
    }
}

} // verus!
