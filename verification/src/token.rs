//! The tokens of the command language and how each resolves to text.

use crate::table::{value_of, Entries, Table};
use vstd::prelude::*;

verus! {

/// The kind of a token, without its contents.
#[derive(Clone, Copy, Debug, PartialEq, Eq, Structural)]
pub enum TokenType {
    Meta,
    Plain,
    DoubleQuoted,
    SingleQuoted,
    Variable,
    Tilde,
    Group,
}

/// A token of the command language.
#[derive(Debug, PartialEq)]
pub enum Token {
    /// One of `;`, `|`, `&&`, `<`, `>`, `>>`.
    Meta(String),
    /// Unquoted text.
    Plain(String),
    /// The name of a variable; resolves to its value.
    Variable(String),
    /// `~`; resolves to the value of `HOME`.
    Tilde,
    /// Neighbouring tokens with no blank between them.
    Group(Vec<Token>),
    /// What stood between double quotes.
    DoubleQuoted(Vec<Token>),
    /// What stood between single quotes.
    SingleQuoted(Vec<Token>),
}

pub type Tokens = Vec<Token>;

/// A token over sequences of characters.
pub enum TokenView {
    Meta(Seq<char>),
    Plain(Seq<char>),
    Variable(Seq<char>),
    Tilde,
    Group(Seq<TokenView>),
    DoubleQuoted(Seq<TokenView>),
    SingleQuoted(Seq<TokenView>),
}

/// The views of a sequence of tokens.
pub open spec fn views(ts: Seq<Token>) -> Seq<TokenView>
    decreases ts,
{
    Seq::new(ts.len(), |i: int| if 0 <= i < ts.len() { ts[i]@ } else { TokenView::Tilde })
}

impl View for Token {
    type V = TokenView;

    open spec fn view(&self) -> TokenView
        decreases self,
    {
        match self {
            Token::Meta(s) => TokenView::Meta(s@),
            Token::Plain(s) => TokenView::Plain(s@),
            Token::Variable(s) => TokenView::Variable(s@),
            Token::Tilde => TokenView::Tilde,
            Token::Group(ts) => TokenView::Group(views(ts@)),
            Token::DoubleQuoted(ts) => TokenView::DoubleQuoted(views(ts@)),
            Token::SingleQuoted(ts) => TokenView::SingleQuoted(views(ts@)),
        }
    }
}

/// The texts of the first `n` tokens of `ts`, one after the other.
pub open spec fn resolve_first(ts: Seq<TokenView>, n: nat, env: Entries) -> Seq<char>
    decreases ts, n,
{
    if n == 0 || n > ts.len() {
        Seq::empty()
    } else {
        resolve_first(ts, (n - 1) as nat, env) + ts[n - 1].resolve(env)
    }
}

/// The texts of all of `ts`, one after the other.
pub open spec fn resolve_all(ts: Seq<TokenView>, env: Entries) -> Seq<char> {
    resolve_first(ts, ts.len(), env)
}

impl TokenView {
    /// The text that the token stands for, with the variables of `env`: a
    /// meta or plain token is its own text, a variable its value (empty where
    /// it has none), `~` the value of `HOME`, and a group or a quoted token
    /// the texts of its children, one after the other.
    pub open spec fn resolve(self, env: Entries) -> Seq<char>
        decreases self, 0nat,
    {
        match self {
            TokenView::Meta(s) => s,
            TokenView::Plain(s) => s,
            TokenView::Variable(name) => value_of(env, name),
            TokenView::Tilde => value_of(env, "HOME"@),
            TokenView::Group(ts) => resolve_first(ts, ts.len(), env),
            TokenView::DoubleQuoted(ts) => resolve_first(ts, ts.len(), env),
            TokenView::SingleQuoted(ts) => resolve_first(ts, ts.len(), env),
        }
    }

    /// The kind of the token.
    pub open spec fn kind(self) -> TokenType {
        match self {
            TokenView::Meta(_) => TokenType::Meta,
            TokenView::Plain(_) => TokenType::Plain,
            TokenView::Variable(_) => TokenType::Variable,
            TokenView::Tilde => TokenType::Tilde,
            TokenView::Group(_) => TokenType::Group,
            TokenView::DoubleQuoted(_) => TokenType::DoubleQuoted,
            TokenView::SingleQuoted(_) => TokenType::SingleQuoted,
        }
    }
}

/// The token of kind `token_type` made from `value`: a meta, plain or
/// variable token takes the text of `value` as its own, a group or quoted
/// token takes `value` as its children, and `~` takes nothing.
pub open spec fn tokenize_spec(value: Seq<TokenView>, token_type: TokenType, env: Entries)
    -> TokenView {
    match token_type {
        TokenType::Meta => TokenView::Meta(resolve_all(value, env)),
        TokenType::Plain => TokenView::Plain(resolve_all(value, env)),
        TokenType::DoubleQuoted => TokenView::DoubleQuoted(value),
        TokenType::SingleQuoted => TokenView::SingleQuoted(value),
        TokenType::Variable => TokenView::Variable(resolve_all(value, env)),
        TokenType::Tilde => TokenView::Tilde,
        TokenType::Group => TokenView::Group(value),
    }
}

impl Token {
    /// The text that the token stands for, with the variables of `env`.
    pub fn resolve(&self, env: &Table) -> (r: String)
        ensures
            r@ == self@.resolve(env@),
        decreases self,
    {
        match self {
            Token::Meta(s) => s.clone(),
            Token::Plain(s) => s.clone(),
            Token::Variable(s) => env.get_or_empty(s.as_str()),
            Token::Tilde => env.get_or_empty("HOME"),
            Token::DoubleQuoted(ts) => join_all(ts, env),
            Token::SingleQuoted(ts) => join_all(ts, env),
            Token::Group(ts) => join_all(ts, env),
        }
    }

    /// The kind of the token.
    pub fn kind(&self) -> (r: TokenType)
        ensures
            r == self@.kind(),
    {
        match self {
            Token::Meta(_) => TokenType::Meta,
            Token::Plain(_) => TokenType::Plain,
            Token::Variable(_) => TokenType::Variable,
            Token::Tilde => TokenType::Tilde,
            Token::Group(_) => TokenType::Group,
            Token::DoubleQuoted(_) => TokenType::DoubleQuoted,
            Token::SingleQuoted(_) => TokenType::SingleQuoted,
        }
    }

    /// Whether the token is the meta token written `text`.
    pub fn is_meta(&self, text: &str) -> (r: bool)
        ensures
            r == (self@ == TokenView::Meta(text@)),
    {
        match self {
            Token::Meta(s) => crate::text::same(s.as_str(), text),
            _ => false,
        }
    }
}

impl Clone for Token {
    fn clone(&self) -> (r: Token)
        ensures
            r@ == self@,
        decreases self,
    {
        match self {
            Token::Meta(s) => Token::Meta(s.clone()),
            Token::Plain(s) => Token::Plain(s.clone()),
            Token::Variable(s) => Token::Variable(s.clone()),
            Token::Tilde => Token::Tilde,
            Token::Group(ts) => Token::Group(clone_tokens(ts)),
            Token::DoubleQuoted(ts) => Token::DoubleQuoted(clone_tokens(ts)),
            Token::SingleQuoted(ts) => Token::SingleQuoted(clone_tokens(ts)),
        }
    }
}

/// A copy of `ts`.
pub fn clone_tokens(ts: &Vec<Token>) -> (r: Vec<Token>)
    ensures
        views(r@) == views(ts@),
    decreases ts,
{
    let mut out: Vec<Token> = Vec::new();
    let mut i: usize = 0;
    while i < ts.len()
        invariant
            i <= ts.len(),
            out@.len() == i,
            forall|j: int| 0 <= j < i ==> out@[j]@ == ts@[j]@,
        decreases ts.len() - i,
    {
        out.push(ts[i].clone());
        i += 1;
    }
    assert(views(out@) =~= views(ts@));
    out
}

/// The texts of `tokens`, one after the other.
pub fn join_all(tokens: &Vec<Token>, env: &Table) -> (r: String)
    ensures
        r@ == resolve_all(views(tokens@), env@),
    decreases tokens,
{
    let mut out = String::new();
    let mut i: usize = 0;
    while i < tokens.len()
        invariant
            i <= tokens.len(),
            out@ == resolve_first(views(tokens@), i as nat, env@),
        decreases tokens.len() - i,
    {
        let piece = tokens[i].resolve(env);
        out.append(piece.as_str());
        i += 1;
    }
    out
}

/// The texts of `tokens`, one after the other.
pub fn join_tokens(tokens: Vec<Token>, env: &Table) -> (r: String)
    ensures
        r@ == resolve_all(views(tokens@), env@),
{
    join_all(&tokens, env)
}

/// The token of kind `token_type` made from `value`.
pub fn tokenize(value: Vec<Token>, token_type: TokenType, env: &Table) -> (r: Token)
    ensures
        r@ == tokenize_spec(views(value@), token_type, env@),
{
    match token_type {
        TokenType::Meta => Token::Meta(join_all(&value, env)),
        TokenType::Plain => Token::Plain(join_all(&value, env)),
        TokenType::DoubleQuoted => Token::DoubleQuoted(value),
        TokenType::SingleQuoted => Token::SingleQuoted(value),
        TokenType::Variable => Token::Variable(join_all(&value, env)),
        TokenType::Tilde => Token::Tilde,
        TokenType::Group => Token::Group(value),
    }
}

/// The views of a sequence with one more token.
pub proof fn lemma_views_push(ts: Seq<Token>, t: Token)
    ensures
        views(ts.push(t)) == views(ts).push(t@),
{
    assert(views(ts.push(t)) =~= views(ts).push(t@));
}

/// The views of no tokens.
pub proof fn lemma_views_empty()
    ensures
        views(Seq::<Token>::empty()) == Seq::<TokenView>::empty(),
{
    assert(views(Seq::<Token>::empty()) =~= Seq::<TokenView>::empty());
}

} // verus!
