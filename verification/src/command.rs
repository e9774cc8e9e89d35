//! The commands: the leaves of the tree, and the redirections around them.

use crate::builtins::{
    builtin, builtin_aliases, builtin_env, builtin_name, builtin_result, is_builtin, BuiltinAction,
};
use crate::errors::{RuntimeError, SyntaxError, SyntaxErrorView};
use crate::node::NodeView;
use crate::openai_client::{chosen_key, missing_key, OpenAIClient};
use crate::redirect::{InputRedirect, OutputRedirect, OutputRedirectAppend, RedirectType};
use crate::runnable::Runnable;
use crate::table::{Entries, Table};
use crate::text::texts;
use crate::token::{clone_tokens, join_all, resolve_all, views, Token, TokenView};
use vstd::prelude::*;

verus! {

/// A node that can stand in a pipeline: a command, or a redirection around
/// one.
#[derive(Debug, PartialEq)]
pub enum CommandType {
    Builtin(BuiltinCommand),
    External(ExternalCommand),
    Llm(LlmCommand),
    InputRedirect(InputRedirect),
    OutputRedirect(OutputRedirect),
    OutputRedirectAppend(OutputRedirectAppend),
}

/// A built-in command: its name and its arguments, as tokens that are
/// resolved when it runs.
#[derive(Debug, PartialEq)]
pub struct BuiltinCommand {
    tokens: Vec<Token>,
}

/// An external program: its name and its arguments, as tokens that are
/// resolved when it runs.
#[derive(Debug, PartialEq)]
pub struct ExternalCommand {
    tokens: Vec<Token>,
}

/// A prompt for the text-generation service.
#[derive(Debug, PartialEq)]
pub struct LlmCommand {
    prompt: String,
    openai_client: OpenAIClient,
}

/// The views of a sequence of stages.
pub open spec fn stage_views(cs: Seq<CommandType>) -> Seq<NodeView>
    decreases cs,
{
    Seq::new(
        cs.len(),
        |i: int|
            if 0 <= i < cs.len() {
                cs[i]@
            } else {
                NodeView::Sequence(Seq::empty())
            },
    )
}

impl View for CommandType {
    type V = NodeView;

    open spec fn view(&self) -> NodeView {
        stage_view(*self)
    }
}

/// The view of a stage.
pub open spec fn stage_view(c: CommandType) -> NodeView
    decreases c,
    via stage_view_decreases
{
    match c {
        CommandType::Builtin(c) => NodeView::Builtin(c.words()),
        CommandType::External(c) => NodeView::External(c.words()),
        CommandType::Llm(c) => NodeView::Llm { prompt: c.text(), api_key: c.api_key() },
        CommandType::InputRedirect(r) => NodeView::InputRedirect(
            Box::new(first_stage(r.inner())),
            r.file(),
        ),
        CommandType::OutputRedirect(r) => NodeView::OutputRedirect(
            Box::new(first_stage(r.inner())),
            r.file(),
        ),
        CommandType::OutputRedirectAppend(r) => NodeView::OutputRedirectAppend(
            Box::new(first_stage(r.inner())),
            r.file(),
        ),
    }
}

#[via_fn]
proof fn stage_view_decreases(c: CommandType) {
    match c {
        CommandType::InputRedirect(r) => r.lemma_inner_decreases(),
        CommandType::OutputRedirect(r) => r.lemma_inner_decreases(),
        CommandType::OutputRedirectAppend(r) => r.lemma_inner_decreases(),
        _ => {},
    }
}

/// The view of the first of `cs`.
pub open spec fn first_stage(cs: Seq<CommandType>) -> NodeView
    decreases cs,
{
    if cs.len() > 0 {
        stage_view(cs[0])
    } else {
        NodeView::Sequence(Seq::empty())
    }
}

/// The texts of `words`, each resolved with `env`.
pub open spec fn resolved(words: Seq<TokenView>, env: Entries) -> Seq<Seq<char>> {
    Seq::new(words.len(), |i: int| words[i].resolve(env))
}

/// The command that `words` make.
///
/// No word makes none. One double-quoted word alone is a prompt for the
/// text-generation service, which needs a key in `env`. Words of which the
/// first resolves to the name of a built-in make that built-in; all others
/// make an external command.
pub open spec fn command_spec(words: Seq<TokenView>, env: Entries) -> Result<
    NodeView,
    SyntaxErrorView,
> {
    if words.len() == 0 {
        Err(SyntaxErrorView::ExpectedToken(Seq::empty()))
    } else if words.len() == 1 && words[0] is DoubleQuoted {
        match chosen_key(None, env) {
            Some(key) => Ok(
                NodeView::Llm { prompt: resolve_all(words[0]->DoubleQuoted_0, env), api_key: key },
            ),
            None => Err(missing_key()),
        }
    } else if builtin_name(words[0].resolve(env)) {
        Ok(NodeView::Builtin(words))
    } else {
        Ok(NodeView::External(words))
    }
}

/// The name of the command of a stage: the text of its first word, `llm`
/// for a request, and for a redirection the name of what it wraps.
pub open spec fn name_of(node: NodeView, env: Entries) -> Seq<char>
    decreases node,
{
    match node {
        NodeView::Builtin(words) => words[0].resolve(env),
        NodeView::External(words) => words[0].resolve(env),
        NodeView::Llm { prompt, api_key } => "llm"@,
        NodeView::InputRedirect(inner, file) => name_of(*inner, env),
        NodeView::OutputRedirect(inner, file) => name_of(*inner, env),
        NodeView::OutputRedirectAppend(inner, file) => name_of(*inner, env),
        _ => Seq::empty(),
    }
}

/// The arguments of the command of a stage: the texts of its words after
/// the first, the prompt of a request, and for a redirection the arguments
/// of what it wraps.
pub open spec fn args_of(node: NodeView, env: Entries) -> Seq<Seq<char>>
    decreases node,
{
    match node {
        NodeView::Builtin(words) => resolved(words, env).skip(1),
        NodeView::External(words) => resolved(words, env).skip(1),
        NodeView::Llm { prompt, api_key } => seq![prompt],
        NodeView::InputRedirect(inner, file) => args_of(*inner, env),
        NodeView::OutputRedirect(inner, file) => args_of(*inner, env),
        NodeView::OutputRedirectAppend(inner, file) => args_of(*inner, env),
        _ => Seq::empty(),
    }
}

/// The texts of the tokens of `tokens` from `from` on, each resolved with
/// `env`.
fn resolve_from(tokens: &Vec<Token>, from: usize, env: &Table) -> (r: Vec<String>)
    requires
        from <= tokens.len(),
    ensures
        texts(r@) == resolved(views(tokens@), env@).skip(from as int),
{
    let mut out: Vec<String> = Vec::new();
    let mut i: usize = from;
    while i < tokens.len()
        invariant
            from <= i <= tokens.len(),
            out@.len() == i - from,
            forall|k: int| 0 <= k < out@.len() ==> out@[k]@ == views(tokens@)[from + k].resolve(env@),
        decreases tokens.len() - i,
    {
        out.push(tokens[i].resolve(env));
        i += 1;
    }
    assert(texts(out@) =~= resolved(views(tokens@), env@).skip(from as int));
    out
}

impl CommandType {
    /// The command that `tokens` make, as `command_spec` says.
    pub fn create(tokens: Vec<Token>, env: &Table) -> (r: Result<CommandType, SyntaxError>)
        ensures
            match command_spec(views(tokens@), env@) {
                Ok(node) => r is Ok && r.unwrap()@ == node,
                Err(e) => r is Err && r.unwrap_err()@ == e,
            },
    {
        if tokens.len() == 0 {
            return Err(SyntaxError::ExpectedToken(String::new()));
        }
        if tokens.len() == 1 {
            if let Token::DoubleQuoted(prompt) = &tokens[0] {
                let text = join_all(prompt, env);
                return match OpenAIClient::new(None, env) {
                    Ok(client) => Ok(CommandType::Llm(LlmCommand::new(text, client))),
                    Err(e) => Err(e),
                };
            }
        }
        let name = tokens[0].resolve(env);
        if is_builtin(name.as_str()) {
            Ok(CommandType::Builtin(BuiltinCommand { tokens }))
        } else {
            Ok(CommandType::External(ExternalCommand { tokens }))
        }
    }

    /// This stage with a redirection of kind `kind` around it, to or from
    /// the file `file`; with `RedirectType::NoRedirect`, this stage as it is.
    pub fn redirect(self, kind: RedirectType, file: String) -> (r: CommandType)
        ensures
            r@ == kind.around(self@, file@),
    {
        match kind {
            RedirectType::Input => CommandType::InputRedirect(InputRedirect::around(self, file)),
            RedirectType::Output => CommandType::OutputRedirect(OutputRedirect::around(self, file)),
            RedirectType::OutputAppend => CommandType::OutputRedirectAppend(
                OutputRedirectAppend::around(self, file),
            ),
            RedirectType::NoRedirect => self,
        }
    }

    /// The name of the command of this stage, resolved with `env`: that
    /// of the command itself, or of the command that a redirection wraps.
    pub fn cmd(&self, env: &Table) -> (r: String)
        ensures
            r@ == name_of(self@, env@),
        decreases self,
    {
        match self {
            CommandType::Builtin(c) => c.cmd(env),
            CommandType::External(c) => c.cmd(env),
            CommandType::Llm(c) => c.cmd(),
            CommandType::InputRedirect(r) => {
                proof {
                    r.lemma_inner_decreases();
                }
                r.command().cmd(env)
            },
            CommandType::OutputRedirect(r) => {
                proof {
                    r.lemma_inner_decreases();
                }
                r.command().cmd(env)
            },
            CommandType::OutputRedirectAppend(r) => {
                proof {
                    r.lemma_inner_decreases();
                }
                r.command().cmd(env)
            },
        }
    }

    /// The arguments of the command of this stage, each resolved with
    /// `env`.
    pub fn args(&self, env: &Table) -> (r: Vec<String>)
        ensures
            texts(r@) == args_of(self@, env@),
        decreases self,
    {
        match self {
            CommandType::Builtin(c) => c.args(env),
            CommandType::External(c) => c.args(env),
            CommandType::Llm(c) => c.args(),
            CommandType::InputRedirect(r) => {
                proof {
                    r.lemma_inner_decreases();
                }
                r.command().args(env)
            },
            CommandType::OutputRedirect(r) => {
                proof {
                    r.lemma_inner_decreases();
                }
                r.command().args(env)
            },
            CommandType::OutputRedirectAppend(r) => {
                proof {
                    r.lemma_inner_decreases();
                }
                r.command().args(env)
            },
        }
    }

    /// This stage as a node that can be run.
    pub fn unpack_run(self) -> (r: Runnable)
        ensures
            r@ == self@,
    {
        Runnable::Command(self)
    }

    /// This stage as a node that can stand in a pipeline.
    pub fn unpack_cmd(self) -> (r: CommandType)
        ensures
            r == self,
    {
        self
    }
}

impl Clone for CommandType {
    fn clone(&self) -> (r: CommandType)
        ensures
            r@ == self@,
        decreases self,
    {
        match self {
            CommandType::Builtin(c) => CommandType::Builtin(c.clone()),
            CommandType::External(c) => CommandType::External(c.clone()),
            CommandType::Llm(c) => CommandType::Llm(c.clone()),
            CommandType::InputRedirect(r) => CommandType::InputRedirect(r.clone()),
            CommandType::OutputRedirect(r) => CommandType::OutputRedirect(r.clone()),
            CommandType::OutputRedirectAppend(r) => CommandType::OutputRedirectAppend(r.clone()),
        }
    }
}

impl Clone for BuiltinCommand {
    fn clone(&self) -> (r: BuiltinCommand)
        ensures
            r.words() == self.words(),
    {
        proof {
            use_type_invariant(self);
        }
        let tokens = clone_tokens(&self.tokens);
        assert(views(tokens@).len() == tokens@.len());
        assert(views(self.tokens@).len() == self.tokens@.len());
        BuiltinCommand { tokens }
    }
}

impl Clone for ExternalCommand {
    fn clone(&self) -> (r: ExternalCommand)
        ensures
            r.words() == self.words(),
    {
        proof {
            use_type_invariant(self);
        }
        let tokens = clone_tokens(&self.tokens);
        assert(views(tokens@).len() == tokens@.len());
        assert(views(self.tokens@).len() == self.tokens@.len());
        ExternalCommand { tokens }
    }
}

impl Clone for LlmCommand {
    fn clone(&self) -> (r: LlmCommand)
        ensures
            r.text() == self.text(),
            r.api_key() == self.api_key(),
    {
        LlmCommand { prompt: self.prompt.clone(), openai_client: self.openai_client.clone() }
    }
}

impl BuiltinCommand {
    #[verifier::type_invariant]
    spec fn has_name(self) -> bool {
        self.tokens@.len() > 0
    }

    /// The words of the command: its name, then its arguments.
    pub closed spec fn words(&self) -> Seq<TokenView> {
        views(self.tokens@)
    }

    /// The command made of `tokens`, the first of which is its name. Without
    /// a token there is none.
    pub fn new(tokens: Vec<Token>) -> (r: Result<BuiltinCommand, SyntaxError>)
        ensures
            tokens@.len() > 0 ==> r is Ok && r.unwrap().words() == views(tokens@),
            tokens@.len() == 0 ==> r is Err && r.unwrap_err()@ == SyntaxErrorView::InternalError,
    {
        if tokens.len() == 0 {
            return Err(SyntaxError::InternalError);
        }
        Ok(BuiltinCommand { tokens })
    }

    /// The name of the command, resolved with `env`.
    pub fn cmd(&self, env: &Table) -> (r: String)
        ensures
            self.words().len() > 0,
            r@ == self.words()[0].resolve(env@),
    {
        proof {
            use_type_invariant(self);
        }
        self.tokens[0].resolve(env)
    }

    /// The arguments of the command, each resolved with `env`.
    pub fn args(&self, env: &Table) -> (r: Vec<String>)
        ensures
            texts(r@) == resolved(self.words(), env@).skip(1),
    {
        proof {
            use_type_invariant(self);
        }
        resolve_from(&self.tokens, 1, env)
    }

    /// Runs the command on the shell's variables and aliases: its words are
    /// resolved with the variables as they stand, and the built-in so named
    /// is run with the arguments.
    pub fn run_builtin(&self, env: &mut Table, aliases: &mut Table) -> (r: Result<
        BuiltinAction,
        RuntimeError,
    >)
        ensures
            self.words().len() > 0,
            ({
                let cmd = self.words()[0].resolve(old(env)@);
                let args = resolved(self.words(), old(env)@).skip(1);
                &&& final(env)@ == builtin_env(cmd, args, old(env)@)
                &&& final(aliases)@ == builtin_aliases(cmd, args, old(aliases)@)
                &&& match builtin_result(cmd, args, old(env)@, old(aliases)@) {
                    Ok(action) => r is Ok && r.unwrap()@ == action,
                    Err(why) => r is Err && r.unwrap_err()@ == why,
                }
            }),
    {
        let cmd = self.cmd(env);
        let args = self.args(env);
        builtin(cmd, args, env, aliases)
    }
}

impl ExternalCommand {
    #[verifier::type_invariant]
    spec fn has_name(self) -> bool {
        self.tokens@.len() > 0
    }

    /// The words of the command: the program, then its arguments.
    pub closed spec fn words(&self) -> Seq<TokenView> {
        views(self.tokens@)
    }

    /// The command made of `tokens`, the first of which names the program.
    /// Without a token there is none.
    pub fn new(tokens: Vec<Token>) -> (r: Result<ExternalCommand, SyntaxError>)
        ensures
            tokens@.len() > 0 ==> r is Ok && r.unwrap().words() == views(tokens@),
            tokens@.len() == 0 ==> r is Err && r.unwrap_err()@ == SyntaxErrorView::InternalError,
    {
        if tokens.len() == 0 {
            return Err(SyntaxError::InternalError);
        }
        Ok(ExternalCommand { tokens })
    }

    /// The program, resolved with `env`.
    pub fn cmd(&self, env: &Table) -> (r: String)
        ensures
            self.words().len() > 0,
            r@ == self.words()[0].resolve(env@),
    {
        proof {
            use_type_invariant(self);
        }
        self.tokens[0].resolve(env)
    }

    /// The arguments of the program, each resolved with `env`.
    pub fn args(&self, env: &Table) -> (r: Vec<String>)
        ensures
            texts(r@) == resolved(self.words(), env@).skip(1),
    {
        proof {
            use_type_invariant(self);
        }
        resolve_from(&self.tokens, 1, env)
    }
}

/// What is sent to the service for `prompt` when the command stands in a
/// pipeline and has read `input`: the instruction to answer either in plain
/// words or with a line that starts with `COMMAND:`, then the input and the
/// prompt.
pub open spec fn wrapped(prompt: Seq<char>, input: Seq<char>) -> Seq<char> {
    INSTRUCTION@ + " Input: "@ + input + " Prompt: "@ + prompt
}

/// The instruction that goes before the input and the prompt.
pub const INSTRUCTION: &'static str =
    "Given the following input and prompt, decide whether to return a normal response to the input or a suggested new shell command. Example one: input = result of a git diff, prompt = 'Write a commit message in one line', output = 'COMMAND: git commit -m \"<LLM generated response>\"'.Example two: input = '', prompt = 'hello', output = 'Hello, how are you?'";

impl LlmCommand {
    /// The prompt.
    pub closed spec fn text(&self) -> Seq<char> {
        self.prompt@
    }

    /// The key that the request is sent under.
    pub closed spec fn api_key(&self) -> Seq<char> {
        self.openai_client.key()
    }

    /// The command that sends `prompt` through `openai_client`.
    pub fn new(prompt: String, openai_client: OpenAIClient) -> (r: LlmCommand)
        ensures
            r.text() == prompt@,
            r.api_key() == openai_client.key(),
    {
        LlmCommand { prompt, openai_client }
    }

    /// The name under which the command shows: `llm`.
    pub fn cmd(&self) -> (r: String)
        ensures
            r@ == "llm"@,
    {
        String::from_str("llm")
    }

    /// The arguments of the command: the prompt.
    pub fn args(&self) -> (r: Vec<String>)
        ensures
            texts(r@) == seq![self.text()],
    {
        let mut out: Vec<String> = Vec::new();
        out.push(self.prompt.clone());
        assert(texts(out@) =~= seq![self.text()]);
        out
    }

    /// The client that sends the request.
    pub fn client(&self) -> (r: &OpenAIClient)
        ensures
            r.key() == self.api_key(),
    {
        &self.openai_client
    }

    /// What is sent to the service when the command stands in a pipeline
    /// and has read `stdin` to its end: the prompt wrapped with what was
    /// read, and with nothing where there was nothing to read from.
    pub fn piped_context(&self, stdin: Option<String>) -> (r: String)
        ensures
            r@ == wrapped(
                self.text(),
                match stdin {
                    Some(text) => text@,
                    None => Seq::empty(),
                },
            ),
    {
        match stdin {
            Some(text) => self.context(Some(text)),
            None => self.context(Some(String::new())),
        }
    }

    /// What is sent to the service: the prompt itself when the command runs
    /// alone, and the prompt wrapped with the input when it stands in a
    /// pipeline.
    pub fn context(&self, input: Option<String>) -> (r: String)
        ensures
            r@ == match input {
                Some(text) => wrapped(self.text(), text@),
                None => self.text(),
            },
    {
        match input {
            Some(text) => {
                let mut out = String::from_str(INSTRUCTION);
                out.append(" Input: ");
                out.append(text.as_str());
                out.append(" Prompt: ");
                out.append(self.prompt.as_str());
                out
            },
            None => self.prompt.clone(),
        }
    }
}

} // verus!
