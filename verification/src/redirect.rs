//! The three redirections. Each wraps exactly one stage.

use crate::command::{first_stage, CommandType};
use crate::errors::{SyntaxError, SyntaxErrorView};
use crate::node::NodeView;
use vstd::prelude::*;

verus! {

/// The kind of a redirection.
#[derive(Clone, Copy, Debug, PartialEq, Eq, Structural)]
pub enum RedirectType {
    /// `>`: the output replaces the file.
    Output,
    /// `>>`: the output is added to the file.
    OutputAppend,
    /// `<`: the input comes from the file.
    Input,
    /// No redirection.
    NoRedirect,
}

impl RedirectType {
    /// `node` with this redirection around it.
    pub open spec fn around(self, node: NodeView, file: Seq<char>) -> NodeView {
        match self {
            RedirectType::Output => NodeView::OutputRedirect(Box::new(node), file),
            RedirectType::OutputAppend => NodeView::OutputRedirectAppend(Box::new(node), file),
            RedirectType::Input => NodeView::InputRedirect(Box::new(node), file),
            RedirectType::NoRedirect => node,
        }
    }

    /// The redirection that the meta token `text` asks for.
    pub open spec fn of(text: Seq<char>) -> RedirectType {
        if text == "<"@ {
            RedirectType::Input
        } else if text == ">"@ {
            RedirectType::Output
        } else if text == ">>"@ {
            RedirectType::OutputAppend
        } else {
            RedirectType::NoRedirect
        }
    }

    /// The redirection that the meta token `text` asks for, and `NoRedirect` for
    /// any other text.
    pub fn from_meta(text: &str) -> (r: RedirectType)
        ensures
            r == RedirectType::of(text@),
    {
        if crate::text::same(text, "<") {
            RedirectType::Input
        } else if crate::text::same(text, ">") {
            RedirectType::Output
        } else if crate::text::same(text, ">>") {
            RedirectType::OutputAppend
        } else {
            RedirectType::NoRedirect
        }
    }
}

/// A stage whose output replaces a file.
#[derive(Debug, PartialEq)]
pub struct OutputRedirect {
    commands: Vec<CommandType>,
    output_file: String,
}

/// A stage whose output is added to a file.
#[derive(Debug, PartialEq)]
pub struct OutputRedirectAppend {
    commands: Vec<CommandType>,
    output_file: String,
}

/// A stage that reads from a file.
#[derive(Debug, PartialEq)]
pub struct InputRedirect {
    commands: Vec<CommandType>,
    input_file: String,
}

impl Clone for OutputRedirect {
    fn clone(&self) -> (r: OutputRedirect)
        ensures
            first_stage(r.inner()) == first_stage(self.inner()),
            r.file() == self.file(),
        decreases self,
    {
        proof {
            use_type_invariant(self);
            self.lemma_inner_decreases();
        }
        let command = self.commands[0].clone();
        OutputRedirect::around(command, self.output_file.clone())
    }
}

impl OutputRedirect {
    #[verifier::type_invariant]
    spec fn wraps_one(self) -> bool {
        self.commands@.len() == 1
    }

    /// What is wrapped is smaller than the redirection.
    pub proof fn lemma_inner_decreases(&self)
        ensures
            decreases_to!(self => self.inner()),
    {
    }

    /// What is wrapped.
    pub closed spec fn inner(&self) -> Seq<CommandType> {
        self.commands@
    }

    /// The file written.
    pub closed spec fn file(&self) -> Seq<char> {
        self.output_file@
    }

    /// The redirection of `commands` to `output_file`. It takes exactly one
    /// stage.
    pub fn new(commands: Vec<CommandType>, output_file: String) -> (r: Result<
        OutputRedirect,
        SyntaxError,
    >)
        ensures
            commands@.len() == 1 ==> r is Ok && r.unwrap().inner() == commands@ && r.unwrap().file()
                == output_file@,
            commands@.len() != 1 ==> r is Err && r.unwrap_err()@ == SyntaxErrorView::InternalError,
    {
        if commands.len() != 1 {
            return Err(SyntaxError::InternalError);
        }
        Ok(OutputRedirect { commands, output_file })
    }

    /// The redirection of `command` to `output_file`.
    pub fn around(command: CommandType, output_file: String) -> (r: OutputRedirect)
        ensures
            r.inner() == seq![command],
            r.file() == output_file@,
    {
        let mut commands: Vec<CommandType> = Vec::new();
        commands.push(command);
        assert(commands@ =~= seq![command]);
        OutputRedirect { commands, output_file }
    }

    /// The stage that is wrapped.
    pub fn command(&self) -> (r: &CommandType)
        ensures
            self.inner().len() == 1,
            *r == self.inner()[0],
    {
        proof {
            use_type_invariant(self);
        }
        &self.commands[0]
    }

    /// The file written.
    pub fn path(&self) -> (r: &str)
        ensures
            r@ == self.file(),
    {
        self.output_file.as_str()
    }
}

impl Clone for OutputRedirectAppend {
    fn clone(&self) -> (r: OutputRedirectAppend)
        ensures
            first_stage(r.inner()) == first_stage(self.inner()),
            r.file() == self.file(),
        decreases self,
    {
        proof {
            use_type_invariant(self);
            self.lemma_inner_decreases();
        }
        let command = self.commands[0].clone();
        OutputRedirectAppend::around(command, self.output_file.clone())
    }
}

impl OutputRedirectAppend {
    #[verifier::type_invariant]
    spec fn wraps_one(self) -> bool {
        self.commands@.len() == 1
    }

    /// What is wrapped is smaller than the redirection.
    pub proof fn lemma_inner_decreases(&self)
        ensures
            decreases_to!(self => self.inner()),
    {
    }

    /// What is wrapped.
    pub closed spec fn inner(&self) -> Seq<CommandType> {
        self.commands@
    }

    /// The file written.
    pub closed spec fn file(&self) -> Seq<char> {
        self.output_file@
    }

    /// The redirection of `commands` to the end of `output_file`. It takes
    /// exactly one stage.
    pub fn new(commands: Vec<CommandType>, output_file: String) -> (r: Result<
        OutputRedirectAppend,
        SyntaxError,
    >)
        ensures
            commands@.len() == 1 ==> r is Ok && r.unwrap().inner() == commands@ && r.unwrap().file()
                == output_file@,
            commands@.len() != 1 ==> r is Err && r.unwrap_err()@ == SyntaxErrorView::InternalError,
    {
        if commands.len() != 1 {
            return Err(SyntaxError::InternalError);
        }
        Ok(OutputRedirectAppend { commands, output_file })
    }

    /// The redirection of `command` to the end of `output_file`.
    pub fn around(command: CommandType, output_file: String) -> (r: OutputRedirectAppend)
        ensures
            r.inner() == seq![command],
            r.file() == output_file@,
    {
        let mut commands: Vec<CommandType> = Vec::new();
        commands.push(command);
        assert(commands@ =~= seq![command]);
        OutputRedirectAppend { commands, output_file }
    }

    /// The stage that is wrapped.
    pub fn command(&self) -> (r: &CommandType)
        ensures
            self.inner().len() == 1,
            *r == self.inner()[0],
    {
        proof {
            use_type_invariant(self);
        }
        &self.commands[0]
    }

    /// The file written.
    pub fn path(&self) -> (r: &str)
        ensures
            r@ == self.file(),
    {
        self.output_file.as_str()
    }
}

impl Clone for InputRedirect {
    fn clone(&self) -> (r: InputRedirect)
        ensures
            first_stage(r.inner()) == first_stage(self.inner()),
            r.file() == self.file(),
        decreases self,
    {
        proof {
            use_type_invariant(self);
            self.lemma_inner_decreases();
        }
        let command = self.commands[0].clone();
        InputRedirect::around(command, self.input_file.clone())
    }
}

impl InputRedirect {
    #[verifier::type_invariant]
    spec fn wraps_one(self) -> bool {
        self.commands@.len() == 1
    }

    /// What is wrapped is smaller than the redirection.
    pub proof fn lemma_inner_decreases(&self)
        ensures
            decreases_to!(self => self.inner()),
    {
    }

    /// What is wrapped.
    pub closed spec fn inner(&self) -> Seq<CommandType> {
        self.commands@
    }

    /// The file read.
    pub closed spec fn file(&self) -> Seq<char> {
        self.input_file@
    }

    /// The redirection of `input_file` into `commands`. It takes exactly one
    /// stage.
    pub fn new(commands: Vec<CommandType>, input_file: String) -> (r: Result<
        InputRedirect,
        SyntaxError,
    >)
        ensures
            commands@.len() == 1 ==> r is Ok && r.unwrap().inner() == commands@ && r.unwrap().file()
                == input_file@,
            commands@.len() != 1 ==> r is Err && r.unwrap_err()@ == SyntaxErrorView::InternalError,
    {
        if commands.len() != 1 {
            return Err(SyntaxError::InternalError);
        }
        Ok(InputRedirect { commands, input_file })
    }

    /// The redirection of `input_file` into `command`.
    pub fn around(command: CommandType, input_file: String) -> (r: InputRedirect)
        ensures
            r.inner() == seq![command],
            r.file() == input_file@,
    {
        let mut commands: Vec<CommandType> = Vec::new();
        commands.push(command);
        assert(commands@ =~= seq![command]);
        InputRedirect { commands, input_file }
    }

    /// The stage that is wrapped.
    pub fn command(&self) -> (r: &CommandType)
        ensures
            self.inner().len() == 1,
            *r == self.inner()[0],
    {
        proof {
            use_type_invariant(self);
        }
        &self.commands[0]
    }

    /// The file read.
    pub fn path(&self) -> (r: &str)
        ensures
            r@ == self.file(),
    {
        self.input_file.as_str()
    }
}

} // verus!
