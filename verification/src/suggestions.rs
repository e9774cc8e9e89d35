//! The suggestion that the line editor shows after the cursor.

use crate::text::{starts_with, strip_prefix};
use vstd::prelude::*;

verus! {

/// What the line editor needs to show a suggested command: the command that
/// the last answer of the text-generation service proposed, or nothing.
#[derive(Clone, Debug, PartialEq)]
pub struct ShellHelper {
    pub suggestion: String,
}

/// What is shown after a line that is typed up to `pos`, with the cursor at
/// `len`: the rest of the suggestion, where the cursor is at the end of the
/// line and the line is how the suggestion starts.
pub open spec fn hint_spec(suggestion: Seq<char>, line: Seq<char>, pos: int, len: int) -> Option<
    Seq<char>,
> {
    if pos == len && suggestion.len() > 0 && starts_with(suggestion, line) {
        Some(suggestion.skip(line.len() as int))
    } else {
        None
    }
}

/// The hint as the editor shows it: in grey.
pub open spec fn highlighted(hint: Seq<char>) -> Seq<char> {
    "\x1b[38;5;240m"@ + hint + "\x1b[0m"@
}

impl ShellHelper {
    /// A helper with nothing to suggest.
    pub fn new() -> (r: ShellHelper)
        ensures
            r.suggestion@ == Seq::<char>::empty(),
    {
        ShellHelper { suggestion: String::new() }
    }

    /// What to show after `line` when the cursor is at the byte `pos` of it.
    pub fn hint(&self, line: &str, pos: usize) -> (r: Option<String>)
        ensures
            match hint_spec(self.suggestion@, line@, pos as int, line.len() as int) {
                Some(rest) => r is Some && r.unwrap()@ == rest,
                None => r is None,
            },
    {
        if pos != line.len() || self.suggestion.as_str().unicode_len() == 0 {
            return None;
        }
        strip_prefix(self.suggestion.as_str(), line)
    }

    /// The hint as the editor shows it.
    pub fn highlight_hint(&self, hint: &str) -> (r: String)
        ensures
            r@ == highlighted(hint@),
    {
        let mut out = String::from_str("\x1b[38;5;240m");
        out.append(hint);
        out.append("\x1b[0m");
        out
    }
}

} // verus!
