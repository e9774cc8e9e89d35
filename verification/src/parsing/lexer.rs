//! The lexer: from the characters of a line to its tokens.
//!
//! Outside quotes a blank ends a word and a meta character ends a word and
//! is a token of its own. A word is made of pieces: runs of plain text,
//! variables, `~`, and quoted spans. A word of one piece is that piece; a word
//! of several is a group.

use crate::errors::{SyntaxError, SyntaxErrorView};
use crate::parsing::scanner::Scanner;
use crate::token::{views, Token, TokenView, Tokens};
use vstd::prelude::*;

verus! {

/// Whether `c` is one of the characters that meta tokens are made of.
#[verifier::allow_in_spec]
pub fn is_meta(c: char) -> bool
    returns
        c == '&' || c == '<' || c == '>' || c == ';' || c == '|',
{
    c == '&' || c == '<' || c == '>' || c == ';' || c == '|'
}

/// Whether `c` separates words.
#[verifier::allow_in_spec]
pub fn is_whitespace(c: char) -> bool
    returns
        c == ' ',
{
    c == ' '
}

/// Whether `c` is the escape character.
#[verifier::allow_in_spec]
pub fn is_escape(c: char) -> bool
    returns
        c == '\\',
{
    c == '\\'
}

/// Whether `c` is the single quote.
#[verifier::allow_in_spec]
pub fn is_single_quote(c: char) -> bool
    returns
        c == '\'',
{
    c == '\''
}

/// Whether `c` is the double quote.
#[verifier::allow_in_spec]
pub fn is_double_quote(c: char) -> bool
    returns
        c == '"',
{
    c == '"'
}

/// Whether `c` ends the name of a variable.
#[verifier::allow_in_spec]
pub fn is_break_point(c: char) -> bool
    returns
        is_meta(c) || is_whitespace(c) || c == '$' || is_single_quote(c) || is_double_quote(c),
{
    is_meta(c) || is_whitespace(c) || c == '$' || is_single_quote(c) || is_double_quote(c)
}

/// Whether `text` is one of the six meta tokens.
pub open spec fn is_meta_text(text: Seq<char>) -> bool {
    ||| text == seq![';']
    ||| text == seq!['|']
    ||| text == seq!['&', '&']
    ||| text == seq!['<']
    ||| text == seq!['>']
    ||| text == seq!['>', '>']
}

/// Where the name of a variable ends that starts at `i`: at the first break
/// point from `i` on, or at the end of the input.
pub open spec fn name_end(s: Seq<char>, i: int) -> int
    decreases s.len() - i,
{
    if i < 0 || i >= s.len() || is_break_point(s[i]) {
        i
    } else {
        name_end(s, i + 1)
    }
}

/// Where the first single quote stands from `i` on, or the end of the input.
pub open spec fn quote_end(s: Seq<char>, i: int) -> int
    decreases s.len() - i,
{
    if i < 0 || i >= s.len() || is_single_quote(s[i]) {
        i
    } else {
        quote_end(s, i + 1)
    }
}

/// Whether a `~` at `i` stands for the home directory: it does before the end
/// of the input, a `/`, a meta character or a blank.
pub open spec fn tilde_at(s: Seq<char>, i: int) -> bool {
    i + 1 >= s.len() || s[i + 1] == '/' || is_meta(s[i + 1]) || is_whitespace(s[i + 1])
}

/// Whether a `\` at `i` between double quotes escapes the character after
/// it: it does before `$`, `"` and `\`.
pub open spec fn escapes_at(s: Seq<char>, i: int) -> bool {
    i + 1 < s.len() && (s[i + 1] == '$' || s[i + 1] == '"' || s[i + 1] == '\\')
}

/// `pieces` with the pending text `lit`, if any, added as a plain token.
pub open spec fn flushed(pieces: Seq<TokenView>, lit: Seq<char>) -> Seq<TokenView> {
    if lit.len() == 0 {
        pieces
    } else {
        pieces.push(TokenView::Plain(lit))
    }
}

/// `out` with the word made of `pieces` added: nothing for no piece, the
/// piece itself for one, a group for more.
pub open spec fn closed(out: Seq<TokenView>, pieces: Seq<TokenView>) -> Seq<TokenView> {
    if pieces.len() == 0 {
        out
    } else if pieces.len() == 1 {
        out.push(pieces[0])
    } else {
        out.push(TokenView::Group(pieces))
    }
}

/// `pieces` with a quoted token of `children` added, and unchanged where
/// nothing stood between the quotes.
pub open spec fn quoted(pieces: Seq<TokenView>, children: Seq<TokenView>, double: bool) -> Seq<
    TokenView,
> {
    if children.len() == 0 {
        pieces
    } else if double {
        pieces.push(TokenView::DoubleQuoted(children))
    } else {
        pieces.push(TokenView::SingleQuoted(children))
    }
}

/// The error for a character that may not stand where it does.
pub open spec fn unexpected(c: char) -> SyntaxErrorView {
    SyntaxErrorView::UnexpectedToken(seq![c])
}

/// What stands between double quotes, read from `i` (just after the opening
/// quote, or further on with `lit` and `children` already read): the
/// children of the quoted token and the place after the closing quote.
///
/// `\` before `$`, `"` or `\` gives that character as text and is text
/// itself elsewhere; `$` starts a variable, which must have a name; every
/// other character is text. The input must not end before the closing quote.
pub open spec fn double_quoted(
    s: Seq<char>,
    i: int,
    lit: Seq<char>,
    children: Seq<TokenView>,
) -> Result<(Seq<TokenView>, int), SyntaxErrorView>
    decreases s.len() - i,
    when i >= 0
    via double_quoted_decreases
{
    if i >= s.len() {
        Err(SyntaxErrorView::UnclosedQuote)
    } else if is_double_quote(s[i]) {
        Ok((flushed(children, lit), i + 1))
    } else if is_escape(s[i]) && escapes_at(s, i) {
        double_quoted(s, i + 2, lit.push(s[i + 1]), children)
    } else if s[i] == '$' {
        if name_end(s, i + 1) == i + 1 {
            Err(unexpected('$'))
        } else {
            double_quoted(
                s,
                name_end(s, i + 1),
                Seq::empty(),
                flushed(children, lit).push(
                    TokenView::Variable(s.subrange(i + 1, name_end(s, i + 1))),
                ),
            )
        }
    } else {
        double_quoted(s, i + 1, lit.push(s[i]), children)
    }
}

#[via_fn]
proof fn double_quoted_decreases(
    s: Seq<char>,
    i: int,
    lit: Seq<char>,
    children: Seq<TokenView>,
) {
    if i < s.len() {
        lemma_name_end(s, i + 1);
    }
}

/// The name of a variable ends at or after its start, within the input.
pub proof fn lemma_name_end(s: Seq<char>, i: int)
    requires
        0 <= i <= s.len(),
    ensures
        i <= name_end(s, i) <= s.len(),
        forall|k: int| i <= k < name_end(s, i) ==> !is_break_point(#[trigger] s[k]),
    decreases s.len() - i,
{
    if i < s.len() && !is_break_point(s[i]) {
        lemma_name_end(s, i + 1);
    }
}

/// The closing quote stands at or after the place the search starts from.
pub proof fn lemma_quote_end(s: Seq<char>, i: int)
    requires
        0 <= i <= s.len(),
    ensures
        i <= quote_end(s, i) <= s.len(),
    decreases s.len() - i,
{
    if i < s.len() && !is_single_quote(s[i]) {
        lemma_quote_end(s, i + 1);
    }
}

/// A double-quoted span ends after the place it is read from, within the
/// input.
pub proof fn lemma_double_quoted_end(
    s: Seq<char>,
    i: int,
    lit: Seq<char>,
    children: Seq<TokenView>,
)
    requires
        0 <= i,
    ensures
        double_quoted(s, i, lit, children) matches Ok(r) ==> i < r.1 <= s.len(),
    decreases s.len() - i,
{
    if i >= s.len() {
    } else if is_double_quote(s[i]) {
    } else if is_escape(s[i]) && escapes_at(s, i) {
        lemma_double_quoted_end(s, i + 2, lit.push(s[i + 1]), children);
    } else if s[i] == '$' {
        lemma_name_end(s, i + 1);
        if name_end(s, i + 1) != i + 1 {
            lemma_double_quoted_end(
                s,
                name_end(s, i + 1),
                Seq::empty(),
                flushed(children, lit).push(
                    TokenView::Variable(s.subrange(i + 1, name_end(s, i + 1))),
                ),
            );
        }
    } else {
        lemma_double_quoted_end(s, i + 1, lit.push(s[i]), children);
    }
}

/// The tokens of `s` from `i` on, after `out`, with the word in progress made
/// of `pieces` and of the pending text `lit`.
///
/// - a blank ends the word;
/// - `;`, `|`, `<` end the word and are meta tokens; so are `>` and `>>`, and
///   `&&`; a single `&` is refused;
/// - `$` starts a variable, named up to the next break point; it must have a
///   name;
/// - `~` is the home token before the end of the input, `/`, a meta character
///   or a blank, and text elsewhere;
/// - `'` opens a span that runs to the next `'` and is taken as it stands;
/// - `"` opens a span read by `double_quoted`;
/// - `\` makes the character after it text;
/// - every other character is text.
pub open spec fn lex_from(
    s: Seq<char>,
    i: int,
    lit: Seq<char>,
    pieces: Seq<TokenView>,
    out: Seq<TokenView>,
) -> Result<Seq<TokenView>, SyntaxErrorView>
    decreases s.len() - i,
    when i >= 0
    via lex_from_decreases
{
    if i >= s.len() {
        Ok(closed(out, flushed(pieces, lit)))
    } else if is_whitespace(s[i]) {
        lex_from(s, i + 1, Seq::empty(), Seq::empty(), closed(out, flushed(pieces, lit)))
    } else if s[i] == ';' || s[i] == '|' || s[i] == '<' {
        lex_from(
            s,
            i + 1,
            Seq::empty(),
            Seq::empty(),
            closed(out, flushed(pieces, lit)).push(TokenView::Meta(seq![s[i]])),
        )
    } else if s[i] == '>' {
        if i + 1 < s.len() && s[i + 1] == '>' {
            lex_from(
                s,
                i + 2,
                Seq::empty(),
                Seq::empty(),
                closed(out, flushed(pieces, lit)).push(TokenView::Meta(seq!['>', '>'])),
            )
        } else {
            lex_from(
                s,
                i + 1,
                Seq::empty(),
                Seq::empty(),
                closed(out, flushed(pieces, lit)).push(TokenView::Meta(seq!['>'])),
            )
        }
    } else if s[i] == '&' {
        if i + 1 < s.len() && s[i + 1] == '&' {
            lex_from(
                s,
                i + 2,
                Seq::empty(),
                Seq::empty(),
                closed(out, flushed(pieces, lit)).push(TokenView::Meta(seq!['&', '&'])),
            )
        } else {
            Err(unexpected('&'))
        }
    } else if s[i] == '$' {
        if name_end(s, i + 1) == i + 1 {
            Err(unexpected('$'))
        } else {
            lex_from(
                s,
                name_end(s, i + 1),
                Seq::empty(),
                flushed(pieces, lit).push(
                    TokenView::Variable(s.subrange(i + 1, name_end(s, i + 1))),
                ),
                out,
            )
        }
    } else if s[i] == '~' {
        if tilde_at(s, i) {
            lex_from(s, i + 1, Seq::empty(), flushed(pieces, lit).push(TokenView::Tilde), out)
        } else {
            lex_from(s, i + 1, lit.push('~'), pieces, out)
        }
    } else if is_single_quote(s[i]) {
        if quote_end(s, i + 1) >= s.len() {
            Err(SyntaxErrorView::UnclosedQuote)
        } else {
            lex_from(
                s,
                quote_end(s, i + 1) + 1,
                Seq::empty(),
                quoted(
                    flushed(pieces, lit),
                    flushed(Seq::empty(), s.subrange(i + 1, quote_end(s, i + 1))),
                    false,
                ),
                out,
            )
        }
    } else if is_double_quote(s[i]) {
        match double_quoted(s, i + 1, Seq::empty(), Seq::empty()) {
            Err(e) => Err(e),
            Ok((children, after)) => lex_from(
                s,
                after,
                Seq::empty(),
                quoted(flushed(pieces, lit), children, true),
                out,
            ),
        }
    } else if is_escape(s[i]) {
        if i + 1 < s.len() {
            lex_from(s, i + 2, lit.push(s[i + 1]), pieces, out)
        } else {
            lex_from(s, i + 1, lit, pieces, out)
        }
    } else {
        lex_from(s, i + 1, lit.push(s[i]), pieces, out)
    }
}

#[via_fn]
proof fn lex_from_decreases(
    s: Seq<char>,
    i: int,
    lit: Seq<char>,
    pieces: Seq<TokenView>,
    out: Seq<TokenView>,
) {
    if i < s.len() {
        lemma_name_end(s, i + 1);
        lemma_quote_end(s, i + 1);
        lemma_double_quoted_end(s, i + 1, Seq::empty(), Seq::empty());
    }
}

/// Whether `name` can be the name of a variable: it is not empty and holds
/// no break point.
pub open spec fn is_name(name: Seq<char>) -> bool {
    name.len() > 0 && forall|k: int| 0 <= k < name.len() ==> !is_break_point(#[trigger] name[k])
}

/// Whether `t` can stand between double quotes: text that is not empty, or a
/// variable with a name.
pub open spec fn is_quoted_child(t: TokenView) -> bool {
    match t {
        TokenView::Plain(text) => text.len() > 0,
        TokenView::Variable(name) => is_name(name),
        _ => false,
    }
}

/// Whether `t` can be a piece of a word: text that is not empty, a variable
/// with a name, `~`, a single-quoted span that holds its text as one plain
/// token, or a double-quoted span that holds text and variables. A meta
/// token is no piece, and neither is a group.
pub open spec fn is_piece(t: TokenView) -> bool {
    match t {
        TokenView::Plain(text) => text.len() > 0,
        TokenView::Variable(name) => is_name(name),
        TokenView::Tilde => true,
        TokenView::SingleQuoted(children) => children.len() == 1 && (children[0] matches TokenView::Plain(
            text,
        ) && text.len() > 0),
        TokenView::DoubleQuoted(children) => children.len() > 0 && forall|k: int|
            0 <= k < children.len() ==> is_quoted_child(#[trigger] children[k]),
        TokenView::Meta(_) => false,
        TokenView::Group(_) => false,
    }
}

/// Whether `t` can come out of the lexer: one of the six meta tokens, a
/// piece, or a group of two or more pieces. So no meta token stands inside a
/// quoted span or a group, and no variable inside single quotes.
pub open spec fn is_lexed(t: TokenView) -> bool {
    match t {
        TokenView::Meta(text) => is_meta_text(text),
        TokenView::Group(children) => children.len() >= 2 && forall|k: int|
            0 <= k < children.len() ==> is_piece(#[trigger] children[k]),
        _ => is_piece(t),
    }
}

/// Whether every token of `ts` can come out of the lexer.
pub open spec fn all_lexed(ts: Seq<TokenView>) -> bool {
    forall|k: int| 0 <= k < ts.len() ==> is_lexed(#[trigger] ts[k])
}

/// Whether every token of `ts` can be a piece of a word.
pub open spec fn all_pieces(ts: Seq<TokenView>) -> bool {
    forall|k: int| 0 <= k < ts.len() ==> is_piece(#[trigger] ts[k])
}

/// Whether every token of `ts` can stand between double quotes.
pub open spec fn all_quoted_children(ts: Seq<TokenView>) -> bool {
    forall|k: int| 0 <= k < ts.len() ==> is_quoted_child(#[trigger] ts[k])
}

/// The tokens of the line `s`.
pub open spec fn lex_spec(s: Seq<char>) -> Result<Seq<TokenView>, SyntaxErrorView> {
    lex_from(s, 0, Seq::empty(), Seq::empty(), Seq::empty())
}

/// Adding the pending text keeps pieces pieces, and children children.
proof fn lemma_flushed(pieces: Seq<TokenView>, lit: Seq<char>)
    ensures
        all_pieces(pieces) ==> all_pieces(flushed(pieces, lit)),
        all_quoted_children(pieces) ==> all_quoted_children(flushed(pieces, lit)),
{
}

/// Ending a word of pieces keeps the tokens such as the lexer gives out.
proof fn lemma_closed(out: Seq<TokenView>, pieces: Seq<TokenView>)
    requires
        all_lexed(out),
        all_pieces(pieces),
    ensures
        all_lexed(closed(out, pieces)),
{
    if pieces.len() == 1 {
        assert(is_piece(pieces[0]));
    }
}

/// What stands between double quotes is text and variables.
proof fn lemma_double_quoted_children(
    s: Seq<char>,
    i: int,
    lit: Seq<char>,
    children: Seq<TokenView>,
)
    requires
        0 <= i,
        all_quoted_children(children),
    ensures
        double_quoted(s, i, lit, children) matches Ok(r) ==> all_quoted_children(r.0),
    decreases s.len() - i,
{
    lemma_flushed(children, lit);
    if i >= s.len() {
    } else if is_double_quote(s[i]) {
    } else if is_escape(s[i]) && escapes_at(s, i) {
        lemma_double_quoted_children(s, i + 2, lit.push(s[i + 1]), children);
    } else if s[i] == '$' {
        lemma_name_end(s, i + 1);
        let end = name_end(s, i + 1);
        if end != i + 1 {
            let name = s.subrange(i + 1, end);
            assert(is_name(name)) by {
                assert forall|k: int| 0 <= k < name.len() implies !is_break_point(
                    #[trigger] name[k],
                ) by {
                    assert(name[k] == s[i + 1 + k]);
                }
            }
            lemma_double_quoted_children(
                s,
                end,
                Seq::empty(),
                flushed(children, lit).push(TokenView::Variable(name)),
            );
        }
    } else {
        lemma_double_quoted_children(s, i + 1, lit.push(s[i]), children);
    }
}

/// The lexer gives out only tokens that satisfy `is_lexed`, whatever it has
/// read before, so long as that was such.
proof fn lemma_lex_from_lexed(
    s: Seq<char>,
    i: int,
    lit: Seq<char>,
    pieces: Seq<TokenView>,
    out: Seq<TokenView>,
)
    requires
        0 <= i,
        all_pieces(pieces),
        all_lexed(out),
    ensures
        lex_from(s, i, lit, pieces, out) matches Ok(tokens) ==> all_lexed(tokens),
    decreases s.len() - i,
{
    let none = Seq::<TokenView>::empty();
    lemma_flushed(pieces, lit);
    lemma_closed(out, flushed(pieces, lit));
    let word = closed(out, flushed(pieces, lit));
    if i >= s.len() {
    } else if is_whitespace(s[i]) {
        lemma_lex_from_lexed(s, i + 1, Seq::empty(), none, word);
    } else if s[i] == ';' || s[i] == '|' || s[i] == '<' {
        lemma_lex_from_lexed(s, i + 1, Seq::empty(), none, word.push(TokenView::Meta(seq![s[i]])));
    } else if s[i] == '>' {
        if i + 1 < s.len() && s[i + 1] == '>' {
            lemma_lex_from_lexed(
                s,
                i + 2,
                Seq::empty(),
                none,
                word.push(TokenView::Meta(seq!['>', '>'])),
            );
        } else {
            lemma_lex_from_lexed(s, i + 1, Seq::empty(), none, word.push(TokenView::Meta(seq!['>'])));
        }
    } else if s[i] == '&' {
        if i + 1 < s.len() && s[i + 1] == '&' {
            lemma_lex_from_lexed(
                s,
                i + 2,
                Seq::empty(),
                none,
                word.push(TokenView::Meta(seq!['&', '&'])),
            );
        }
    } else if s[i] == '$' {
        lemma_name_end(s, i + 1);
        let end = name_end(s, i + 1);
        if end != i + 1 {
            let name = s.subrange(i + 1, end);
            assert(is_name(name)) by {
                assert forall|k: int| 0 <= k < name.len() implies !is_break_point(
                    #[trigger] name[k],
                ) by {
                    assert(name[k] == s[i + 1 + k]);
                }
            }
            lemma_lex_from_lexed(
                s,
                end,
                Seq::empty(),
                flushed(pieces, lit).push(TokenView::Variable(name)),
                out,
            );
        }
    } else if s[i] == '~' {
        if tilde_at(s, i) {
            lemma_lex_from_lexed(
                s,
                i + 1,
                Seq::empty(),
                flushed(pieces, lit).push(TokenView::Tilde),
                out,
            );
        } else {
            lemma_lex_from_lexed(s, i + 1, lit.push('~'), pieces, out);
        }
    } else if is_single_quote(s[i]) {
        lemma_quote_end(s, i + 1);
        let end = quote_end(s, i + 1);
        if end < s.len() {
            let children = flushed(Seq::empty(), s.subrange(i + 1, end));
            let next = quoted(flushed(pieces, lit), children, false);
            assert(all_pieces(next)) by {
                if children.len() > 0 {
                    assert(is_piece(TokenView::SingleQuoted(children)));
                }
            }
            lemma_lex_from_lexed(s, end + 1, Seq::empty(), next, out);
        }
    } else if is_double_quote(s[i]) {
        lemma_double_quoted_end(s, i + 1, Seq::empty(), Seq::empty());
        lemma_double_quoted_children(s, i + 1, Seq::empty(), Seq::empty());
        match double_quoted(s, i + 1, Seq::empty(), Seq::empty()) {
            Err(e) => {},
            Ok((children, after)) => {
                let next = quoted(flushed(pieces, lit), children, true);
                assert(all_pieces(next)) by {
                    if children.len() > 0 {
                        assert(is_piece(TokenView::DoubleQuoted(children)));
                    }
                }
                lemma_lex_from_lexed(s, after, Seq::empty(), next, out);
            },
        }
    } else if is_escape(s[i]) {
        if i + 1 < s.len() {
            lemma_lex_from_lexed(s, i + 2, lit.push(s[i + 1]), pieces, out);
        } else {
            lemma_lex_from_lexed(s, i + 1, lit, pieces, out);
        }
    } else {
        lemma_lex_from_lexed(s, i + 1, lit.push(s[i]), pieces, out);
    }
}

/// No meta token comes out of the lexer inside a quoted span or a group,
/// for any input: every token of a line satisfies `is_lexed`. So a group
/// holds two pieces or more, a single-quoted span holds text alone, and a
/// double-quoted span holds text and variables.
pub proof fn lemma_lex_gives_no_meta_inside(s: Seq<char>)
    ensures
        lex_spec(s) matches Ok(tokens) ==> all_lexed(tokens),
{
    lemma_lex_from_lexed(s, 0, Seq::empty(), Seq::empty(), Seq::empty());
}

/// Reads the tokens of the input from the scanner's place to the end.
///
/// The result is that of `lex_from`: the tokens, or the first error. Every
/// token given out satisfies `is_lexed`.
pub fn lex_impl(scanner: &mut Scanner<String>) -> (r: Result<Tokens, SyntaxError>)
    ensures
        final(scanner).input == old(scanner).input,
        match lex_from(
            old(scanner).input@,
            old(scanner).index as int,
            Seq::empty(),
            Seq::empty(),
            Seq::empty(),
        ) {
            Ok(tokens) => r is Ok && views(r.unwrap()@) == tokens && all_lexed(tokens)
                && final(scanner).index >= final(scanner).input@.len(),
            Err(e) => r is Err && r.unwrap_err()@ == e,
        },
{
    let mut buffer = TokenBuffer::new();
    let ghost s = scanner.input@;
    let ghost goal = lex_from(s, scanner.index as int, Seq::empty(), Seq::empty(), Seq::empty());
    proof {
        lemma_lex_from_lexed(s, scanner.index as int, Seq::empty(), Seq::empty(), Seq::empty());
    }
    loop
        invariant
            scanner.input == old(scanner).input,
            s == scanner.input@,
            goal matches Ok(tokens) ==> all_lexed(tokens),
            lex_from(
                s,
                scanner.index as int,
                buffer.literal@,
                views(buffer.token@),
                views(buffer.tokens@),
            ) == goal,
            goal == lex_from(
                old(scanner).input@,
                old(scanner).index as int,
                Seq::empty(),
                Seq::empty(),
                Seq::empty(),
            ),
        decreases s.len() - scanner.index,
    {
        let c = match scanner.peek() {
            None => {
                buffer.save();
                return Ok(buffer.tokens());
            },
            Some(c) => c,
        };
        let ghost i = scanner.index as int;
        if is_whitespace(c) {
            scanner.next();
            buffer.save();
        } else if c == ';' || c == '|' || c == '<' {
            scanner.next();
            let mut text = String::new();
            text.push(c);
            assert(text@ =~= seq![c]);
            buffer.push_meta(text);
        } else if c == '>' {
            scanner.next();
            let mut text = String::new();
            text.push('>');
            if scanner.peek() == Some('>') {
                scanner.next();
                text.push('>');
                assert(text@ =~= seq!['>', '>']);
            } else {
                assert(text@ =~= seq!['>']);
            }
            buffer.push_meta(text);
        } else if c == '&' {
            scanner.next();
            if scanner.peek() == Some('&') {
                scanner.next();
                let mut text = String::new();
                text.push('&');
                text.push('&');
                assert(text@ =~= seq!['&', '&']);
                buffer.push_meta(text);
            } else {
                let mut text = String::new();
                text.push('&');
                assert(text@ =~= seq!['&']);
                return Err(SyntaxError::UnexpectedToken(text));
            }
        } else if c == '$' {
            proof {
                lemma_name_end(s, i + 1);
            }
            match lex_variable(scanner) {
                Ok(variable) => {
                    buffer.push_token(variable);
                },
                Err(e) => {
                    return Err(e);
                },
            }
        } else if c == '~' {
            let after = scanner.peek_next(1);
            scanner.next();
            let home = match after {
                None => true,
                Some(d) => d == '/' || is_meta(d) || is_whitespace(d),
            };
            if home {
                buffer.push_token(Token::Tilde);
            } else {
                buffer.push('~');
            }
        } else if is_single_quote(c) {
            scanner.next();
            proof {
                lemma_quote_end(s, i + 1);
            }
            match lex_single_quoted(scanner) {
                Ok(children) => {
                    buffer.push_tokens(children, false);
                },
                Err(e) => {
                    return Err(e);
                },
            }
        } else if is_double_quote(c) {
            scanner.next();
            proof {
                lemma_double_quoted_end(s, i + 1, Seq::empty(), Seq::empty());
            }
            match lex_double_quoted(scanner) {
                Ok(children) => {
                    buffer.push_tokens(children, true);
                },
                Err(e) => {
                    return Err(e);
                },
            }
        } else if is_escape(c) {
            scanner.next();
            match scanner.peek() {
                Some(d) => {
                    scanner.next();
                    buffer.push(d);
                },
                None => {},
            }
        } else {
            scanner.next();
            buffer.push(c);
        }
    }
}

/// Reads a variable: a `$` and the name after it, up to the next break point
/// or the end of the input. A `$` without a name is refused, and so is any
/// other character in its place.
fn lex_variable(scanner: &mut Scanner<String>) -> (r: Result<Token, SyntaxError>)
    requires
        old(scanner).index <= old(scanner).input@.len(),
    ensures
        final(scanner).input == old(scanner).input,
        ({
            let s = old(scanner).input@;
            let i = old(scanner).index as int;
            if i < s.len() && s[i] == '$' && name_end(s, i + 1) > i + 1 {
                &&& r is Ok
                &&& r.unwrap()@ == TokenView::Variable(s.subrange(i + 1, name_end(s, i + 1)))
                &&& final(scanner).index == name_end(s, i + 1)
            } else {
                r is Err && r.unwrap_err()@ == unexpected('$')
            }
        }),
{
    let ghost s = scanner.input@;
    let ghost i = scanner.index as int;
    let mut dollar = String::new();
    dollar.push('$');
    assert(dollar@ =~= seq!['$']);
    if scanner.peek() != Some('$') {
        return Err(SyntaxError::UnexpectedToken(dollar));
    }
    scanner.next();
    let mut name = String::new();
    assert(s.subrange(i + 1, i + 1) =~= Seq::<char>::empty());
    loop
        invariant
            scanner.input == old(scanner).input,
            s == scanner.input@,
            0 <= i,
            i + 1 <= scanner.index <= s.len(),
            i < s.len(),
            name@ == s.subrange(i + 1, scanner.index as int),
            name_end(s, scanner.index as int) == name_end(s, i + 1),
        ensures
            scanner.input == old(scanner).input,
            scanner.index == name_end(s, i + 1),
            i + 1 <= scanner.index <= s.len(),
            name@ == s.subrange(i + 1, scanner.index as int),
        decreases s.len() - scanner.index,
    {
        match scanner.peek() {
            None => {
                break ;
            },
            Some(c) => {
                if is_break_point(c) {
                    break ;
                }
                scanner.next();
                name.push(c);
                assert(s.subrange(i + 1, scanner.index as int) =~= s.subrange(
                    i + 1,
                    scanner.index - 1,
                ).push(c));
            },
        }
    }
    if name.as_str().unicode_len() == 0 {
        return Err(SyntaxError::UnexpectedToken(dollar));
    }
    Ok(Token::Variable(name))
}

/// Reads what stands between single quotes, from just after the opening
/// quote to just after the closing one: the text as it stands, as one plain
/// token, or no token where the quotes hold nothing.
fn lex_single_quoted(scanner: &mut Scanner<String>) -> (r: Result<Tokens, SyntaxError>)
    requires
        old(scanner).index <= old(scanner).input@.len(),
    ensures
        final(scanner).input == old(scanner).input,
        ({
            let s = old(scanner).input@;
            let i = old(scanner).index as int;
            if i <= s.len() && quote_end(s, i) < s.len() {
                &&& r is Ok
                &&& views(r.unwrap()@) == flushed(Seq::empty(), s.subrange(i, quote_end(s, i)))
                &&& final(scanner).index == quote_end(s, i) + 1
            } else {
                r is Err && r.unwrap_err()@ == SyntaxErrorView::UnclosedQuote
            }
        }),
{
    let ghost s = scanner.input@;
    let ghost i = scanner.index as int;
    let mut text = String::new();
    assert(s.subrange(i, i) =~= Seq::<char>::empty());
    loop
        invariant
            scanner.input == old(scanner).input,
            s == scanner.input@,
            0 <= i <= scanner.index <= s.len(),
            i == old(scanner).index,
            text@ == s.subrange(i, scanner.index as int),
            quote_end(s, scanner.index as int) == quote_end(s, i),
        decreases s.len() - scanner.index,
    {
        match scanner.peek() {
            None => {
                return Err(SyntaxError::UnclosedQuote);
            },
            Some(c) => {
                scanner.next();
                if is_single_quote(c) {
                    let mut children: Vec<Token> = Vec::new();
                    proof {
                        crate::token::lemma_views_empty();
                    }
                    if text.as_str().unicode_len() > 0 {
                        proof {
                            crate::token::lemma_views_push(children@, Token::Plain(text));
                        }
                        children.push(Token::Plain(text));
                    }
                    return Ok(children);
                }
                text.push(c);
                assert(s.subrange(i, scanner.index as int) =~= s.subrange(
                    i,
                    scanner.index - 1,
                ).push(c));
            },
        }
    }
}

/// Reads what stands between double quotes, from just after the opening
/// quote to just after the closing one: text and variables.
fn lex_double_quoted(scanner: &mut Scanner<String>) -> (r: Result<Tokens, SyntaxError>)
    requires
        old(scanner).index <= old(scanner).input@.len(),
    ensures
        final(scanner).input == old(scanner).input,
        match double_quoted(
            old(scanner).input@,
            old(scanner).index as int,
            Seq::empty(),
            Seq::empty(),
        ) {
            Ok((children, after)) => r is Ok && views(r.unwrap()@) == children
                && final(scanner).index == after,
            Err(e) => r is Err && r.unwrap_err()@ == e,
        },
{
    let ghost s = scanner.input@;
    let ghost goal = double_quoted(s, scanner.index as int, Seq::empty(), Seq::empty());
    let mut text = String::new();
    let mut children: Vec<Token> = Vec::new();
    proof {
        crate::token::lemma_views_empty();
    }
    loop
        invariant
            scanner.input == old(scanner).input,
            s == scanner.input@,
            scanner.index <= s.len(),
            double_quoted(s, scanner.index as int, text@, views(children@)) == goal,
            goal == double_quoted(
                old(scanner).input@,
                old(scanner).index as int,
                Seq::empty(),
                Seq::empty(),
            ),
        decreases s.len() - scanner.index,
    {
        let c = match scanner.peek() {
            None => {
                return Err(SyntaxError::UnclosedQuote);
            },
            Some(c) => c,
        };
        let ghost i = scanner.index as int;
        if is_double_quote(c) {
            scanner.next();
            if text.as_str().unicode_len() > 0 {
                proof {
                    crate::token::lemma_views_push(children@, Token::Plain(text));
                }
                children.push(Token::Plain(text));
            }
            return Ok(children);
        } else if c == '$' {
            if text.as_str().unicode_len() > 0 {
                proof {
                    crate::token::lemma_views_push(children@, Token::Plain(text));
                }
                children.push(Token::Plain(text));
            }
            text = String::new();
            proof {
                lemma_name_end(s, i + 1);
            }
            match lex_variable(scanner) {
                Ok(variable) => {
                    proof {
                        crate::token::lemma_views_push(children@, variable);
                    }
                    children.push(variable);
                        },
                Err(e) => {
                    return Err(e);
                },
            }
        } else if is_escape(c) {
            let after = scanner.peek_next(1);
            scanner.next();
            match after {
                Some(d) => {
                    if d == '$' || d == '"' || d == '\\' {
                        scanner.next();
                        text.push(d);
                                } else {
                        text.push(c);
                                }
                },
                None => {
                    text.push(c);
                        },
            }
        } else {
            scanner.next();
            text.push(c);
        }
    }
}

/// The words read so far and the word in progress.
struct TokenBuffer {
    /// The text at the end of the word in progress that is no piece yet.
    literal: String,
    /// The pieces of the word in progress.
    token: Vec<Token>,
    /// The tokens that are complete.
    tokens: Vec<Token>,
}

impl TokenBuffer {
    fn new() -> (r: TokenBuffer)
        ensures
            r.literal@ == Seq::<char>::empty(),
            views(r.token@) == Seq::<TokenView>::empty(),
            views(r.tokens@) == Seq::<TokenView>::empty(),
    {
        proof {
            crate::token::lemma_views_empty();
        }
        TokenBuffer { literal: String::new(), token: Vec::new(), tokens: Vec::new() }
    }

    /// Adds `c` to the text of the word in progress.
    fn push(&mut self, c: char)
        ensures
            final(self).literal@ == old(self).literal@.push(c),
            final(self).token == old(self).token,
            final(self).tokens == old(self).tokens,
    {
        self.literal.push(c);
    }

    /// Makes a plain piece of the pending text.
    fn flush(&mut self)
        ensures
            final(self).literal@ == Seq::<char>::empty(),
            views(final(self).token@) == flushed(views(old(self).token@), old(self).literal@),
            final(self).tokens == old(self).tokens,
    {
        if self.literal.as_str().unicode_len() > 0 {
            let mut text = String::new();
            std::mem::swap(&mut text, &mut self.literal);
            proof {
                crate::token::lemma_views_push(self.token@, Token::Plain(text));
            }
            self.token.push(Token::Plain(text));
        }
    }

    /// Adds `token` to the word in progress, after the pending text.
    fn push_token(&mut self, token: Token)
        ensures
            final(self).literal@ == Seq::<char>::empty(),
            views(final(self).token@) == flushed(views(old(self).token@), old(self).literal@).push(
                token@,
            ),
            final(self).tokens == old(self).tokens,
    {
        self.flush();
        proof {
            crate::token::lemma_views_push(self.token@, token);
        }
        self.token.push(token);
    }

    /// Adds to the word in progress, after the pending text, the span that
    /// stood between quotes, unless it is empty.
    fn push_tokens(&mut self, children: Tokens, double: bool)
        ensures
            final(self).literal@ == Seq::<char>::empty(),
            views(final(self).token@) == quoted(
                flushed(views(old(self).token@), old(self).literal@),
                views(children@),
                double,
            ),
            final(self).tokens == old(self).tokens,
    {
        self.flush();
        if children.len() > 0 {
            let token = if double {
                Token::DoubleQuoted(children)
            } else {
                Token::SingleQuoted(children)
            };
            proof {
                crate::token::lemma_views_push(self.token@, token);
            }
            self.token.push(token);
        }
    }

    /// Ends the word in progress. Says whether there was one.
    fn save(&mut self) -> (r: bool)
        ensures
            final(self).literal@ == Seq::<char>::empty(),
            views(final(self).token@) == Seq::<TokenView>::empty(),
            views(final(self).tokens@) == closed(
                views(old(self).tokens@),
                flushed(views(old(self).token@), old(self).literal@),
            ),
            r == (flushed(views(old(self).token@), old(self).literal@).len() > 0),
    {
        self.flush();
        let mut pieces: Vec<Token> = Vec::new();
        std::mem::swap(&mut pieces, &mut self.token);
        proof {
            crate::token::lemma_views_empty();
            assert(views(self.token@) =~= Seq::<TokenView>::empty());
        }
        if pieces.len() == 0 {
            return false;
        }
        let word = if pieces.len() == 1 {
            let ghost only = pieces@[0];
            let t = pieces.pop().unwrap();
            assert(t == only);
            t
        } else {
            Token::Group(pieces)
        };
        proof {
            crate::token::lemma_views_push(self.tokens@, word);
        }
        self.tokens.push(word);
        true
    }

    /// Ends the word in progress and adds the meta token written `text`.
    fn push_meta(&mut self, text: String)
        ensures
            final(self).literal@ == Seq::<char>::empty(),
            views(final(self).token@) == Seq::<TokenView>::empty(),
            views(final(self).tokens@) == closed(
                views(old(self).tokens@),
                flushed(views(old(self).token@), old(self).literal@),
            ).push(TokenView::Meta(text@)),
    {
        self.save();
        proof {
            crate::token::lemma_views_push(self.tokens@, Token::Meta(text));
        }
        self.tokens.push(Token::Meta(text));
    }

    /// The complete tokens.
    fn tokens(self) -> (r: Tokens)
        ensures
            r == self.tokens,
    {
        self.tokens
    }
}

} // verus!
