//! The front end: from a line of input to the tree of nodes it describes.

pub mod lexer;
pub mod parser;
pub mod process;
pub mod render;
pub mod scanner;

use crate::errors::{SyntaxError, SyntaxErrorView};
use crate::node::NodeView;
use crate::parsing::lexer::{lex_impl, lex_spec};
use crate::parsing::parser::{parse_impl, parse_spec};
use crate::parsing::process::{process, process_spec};
use crate::parsing::scanner::Scanner;
use crate::sequence::Sequence;
use crate::table::{Entries, Table};
use vstd::prelude::*;

verus! {

/// The tree of a line of input: the line is stripped and terminated, lexed,
/// and its tokens are parsed.
pub open spec fn front_spec(input: Seq<char>, env: Entries) -> Result<NodeView, SyntaxErrorView> {
    match lex_spec(process_spec(input)) {
        Err(e) => Err(e),
        Ok(tokens) => parse_spec(tokens, env),
    }
}

/// Reads a line of input and builds the sequence of its statements.
pub fn parse(input: String, env: &Table) -> (r: Result<Sequence, SyntaxError>)
    ensures
        match front_spec(input@, env@) {
            Ok(root) => r is Ok && r.unwrap()@ == root,
            Err(e) => r is Err && r.unwrap_err()@ == e,
        },
{
    let input = process(input);
    let mut scanner = Scanner::new(input);
    let tokens = match lex_impl(&mut scanner) {
        Ok(tokens) => tokens,
        Err(e) => {
            return Err(e);
        },
    };
    let mut scanner = Scanner::new(tokens);
    parse_impl(&mut scanner, env)
}

} // verus!
