//! How the shell is started, and what it does with the result of a line.

use crate::text::{starts_with, strip_prefix};
use vstd::prelude::*;

verus! {

/// The words with which an answer of the text-generation service proposes a
/// command.
pub const COMMAND_PREFIX: &'static str = "COMMAND: ";

/// What the shell is started for.
#[derive(Debug, PartialEq)]
pub enum Mode {
    /// Read lines from the user.
    Interactive,
    /// Run the statements of the file, one to a line, and end.
    File(String),
    /// Print how the shell is called, and end.
    Usage,
}

/// A `Mode` over sequences of characters.
pub enum ModeView {
    Interactive,
    File(Seq<char>),
    Usage,
}

impl View for Mode {
    type V = ModeView;

    open spec fn view(&self) -> ModeView {
        match self {
            Mode::Interactive => ModeView::Interactive,
            Mode::File(path) => ModeView::File(path@),
            Mode::Usage => ModeView::Usage,
        }
    }
}

/// The line that says how the shell is called.
pub const USAGE: &'static str = "Usage: aish [file]";

/// What the shell is started for, by the arguments of the process, of which
/// the first is the program itself: without another it reads from the user,
/// with one it runs that file, with more it prints how it is called.
pub open spec fn mode_spec(args: Seq<Seq<char>>) -> ModeView {
    if args.len() == 1 {
        ModeView::Interactive
    } else if args.len() == 2 {
        ModeView::File(args[1])
    } else {
        ModeView::Usage
    }
}

/// What the shell is started for, by the arguments of the process.
pub fn mode(args: &Vec<String>) -> (r: Mode)
    ensures
        r@ == mode_spec(crate::text::texts(args@)),
{
    if args.len() == 1 {
        Mode::Interactive
    } else if args.len() == 2 {
        Mode::File(args[1].clone())
    } else {
        Mode::Usage
    }
}

/// What the shell writes for a line.
#[derive(Debug, PartialEq)]
pub struct Shown {
    /// For the standard output.
    pub stdout: Option<String>,
    /// For the standard error.
    pub stderr: Option<String>,
}

/// What becomes of the suggestion after a line that ended with `outcome`.
///
/// An output that starts with `COMMAND: ` proposes what follows these words.
/// Any other output takes the suggestion away. A failure leaves it.
pub open spec fn suggestion_after(suggestion: Seq<char>, outcome: Result<Seq<char>, Seq<char>>)
    -> Seq<char> {
    match outcome {
        Ok(output) => if starts_with(output, COMMAND_PREFIX@) {
            output.skip(COMMAND_PREFIX@.len() as int)
        } else {
            Seq::empty()
        },
        Err(_) => suggestion,
    }
}

/// What is written to the standard output after a line that ended with
/// `outcome`: its output, unless that is empty or proposes a command.
pub open spec fn stdout_after(outcome: Result<Seq<char>, Seq<char>>) -> Option<Seq<char>> {
    match outcome {
        Ok(output) => if !starts_with(output, COMMAND_PREFIX@) && output.len() > 0 {
            Some(output)
        } else {
            None
        },
        Err(_) => None,
    }
}

/// What is written to the standard error after a line that ended with
/// `outcome`: its failure.
pub open spec fn stderr_after(outcome: Result<Seq<char>, Seq<char>>) -> Option<Seq<char>> {
    match outcome {
        Ok(_) => None,
        Err(why) => Some("Error in command: "@ + why),
    }
}

/// Takes note of how a line has ended: keeps in `suggestion` the command
/// that the line proposed, if any, and says what to write.
pub fn conclude(suggestion: &mut String, outcome: Result<String, String>) -> (r: Shown)
    ensures
        ({
            let ended = match outcome {
                Ok(output) => Ok(output@),
                Err(why) => Err(why@),
            };
            &&& final(suggestion)@ == suggestion_after(old(suggestion)@, ended)
            &&& match stdout_after(ended) {
                Some(text) => r.stdout is Some && r.stdout.unwrap()@ == text,
                None => r.stdout is None,
            }
            &&& match stderr_after(ended) {
                Some(text) => r.stderr is Some && r.stderr.unwrap()@ == text,
                None => r.stderr is None,
            }
        }),
{
    match outcome {
        Ok(output) => {
            match strip_prefix(output.as_str(), COMMAND_PREFIX) {
                Some(command) => {
                    *suggestion = command;
                    Shown { stdout: None, stderr: None }
                },
                None => {
                    *suggestion = String::new();
                    if output.as_str().unicode_len() > 0 {
                        Shown { stdout: Some(output), stderr: None }
                    } else {
                        Shown { stdout: None, stderr: None }
                    }
                },
            }
        },
        Err(why) => {
            let mut text = String::from_str("Error in command: ");
            text.append(why.as_str());
            Shown { stdout: None, stderr: Some(text) }
        },
    }
}

} // verus!
