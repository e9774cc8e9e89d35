//! The stages of the front end, each under its own name: a line is
//! preprocessed, lexed and parsed.

use crate::errors::{SyntaxError, SyntaxErrorView};
use crate::parsing::front_spec;
use crate::parsing::lexer::{all_lexed, lex_impl, lex_spec};
use crate::parsing::parser::{parse_impl, parse_spec};
use crate::parsing::process::{process, process_spec};
use crate::parsing::scanner::Scanner;
use crate::runnable::Runnable;
use crate::table::Table;
use crate::token::{views, Token};
use vstd::prelude::*;

verus! {

/// Strips the white space around `input` and makes it end in `;`.
pub fn preprocess(input: String) -> (r: String)
    ensures
        r@ == process_spec(input@),
{
    process(input)
}

/// Strips the white space around `input` and makes it end in `;`, in place.
pub fn clean(input: &mut String) -> (r: &mut String)
    ensures
        r@ == process_spec(old(input)@),
        *final(input) == *final(r),
{
    let mut line = String::new();
    std::mem::swap(&mut line, input);
    *input = process(line);
    input
}

/// The tokens of `input`. Every token given out satisfies `is_lexed`: no
/// meta token stands inside a quoted span or a group.
pub fn lex(input: String) -> (r: Result<Vec<Token>, SyntaxError>)
    ensures
        match lex_spec(input@) {
            Ok(tokens) => r is Ok && views(r.unwrap()@) == tokens && all_lexed(tokens),
            Err(e) => r is Err && r.unwrap_err()@ == e,
        },
{
    let mut scanner = Scanner::new(input);
    lex_impl(&mut scanner)
}

/// The tree of `tokens`: the sequence of their statements.
pub fn parse(tokens: Vec<Token>, env: &Table) -> (r: Result<Runnable, SyntaxError>)
    ensures
        match parse_spec(views(tokens@), env@) {
            Ok(root) => r is Ok && r.unwrap()@ == root,
            Err(e) => r is Err && r.unwrap_err()@ == e,
        },
{
    let mut scanner = Scanner::new(tokens);
    match parse_impl(&mut scanner, env) {
        Ok(sequence) => Ok(Runnable::Sequence(sequence)),
        Err(e) => Err(e),
    }
}

/// The tree of the line `input`.
pub fn tokenize(input: String, env: &Table) -> (r: Result<Runnable, SyntaxError>)
    ensures
        match front_spec(input@, env@) {
            Ok(root) => r is Ok && r.unwrap()@ == root,
            Err(e) => r is Err && r.unwrap_err()@ == e,
        },
{
    let input = preprocess(input);
    let tokens = match lex(input) {
        Ok(tokens) => tokens,
        Err(e) => {
            return Err(e);
        },
    };
    parse(tokens, env)
}

} // verus!
