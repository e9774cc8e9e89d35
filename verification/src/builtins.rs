//! The built-in commands: what each prints, what it changes in the shell's
//! variables and aliases, and what it asks of the embedding program.

use crate::errors::RuntimeError;
use crate::table::{assign, lookup, value_of, without, Entries, Table};
use crate::text::{find_from, from_chars, joined, position_from, same, texts, to_chars};
use vstd::prelude::*;

verus! {

/// Whether `name` is the name of a built-in command.
pub open spec fn builtin_name(name: Seq<char>) -> bool {
    ||| name == "cd"@
    ||| name == "pwd"@
    ||| name == "exit"@
    ||| name == "echo"@
    ||| name == "export"@
    ||| name == "unset"@
    ||| name == "alias"@
}

/// Whether `cmd` is the name of a built-in command.
pub fn is_builtin(cmd: &str) -> (r: bool)
    ensures
        r == builtin_name(cmd@),
{
    same(cmd, "cd") || same(cmd, "pwd") || same(cmd, "exit") || same(cmd, "echo") || same(
        cmd,
        "export",
    ) || same(cmd, "unset") || same(cmd, "alias")
}

/// What a built-in leaves to the embedding program.
#[derive(Debug, PartialEq)]
pub enum BuiltinAction {
    /// Write the text to the command's output.
    Print(String),
    /// Make the directory the working directory; `check_directory` says
    /// what becomes of the command where it does not exist.
    ChangeDirectory(String),
    /// Write the working directory to the command's output, as `pwd` formats
    /// it.
    PrintWorkingDirectory,
    /// End the shell with status 0.
    Exit,
    /// Nothing is left to do.
    Nothing,
}

/// A `BuiltinAction` over sequences of characters.
pub enum BuiltinActionView {
    Print(Seq<char>),
    ChangeDirectory(Seq<char>),
    PrintWorkingDirectory,
    Exit,
    Nothing,
}

impl View for BuiltinAction {
    type V = BuiltinActionView;

    open spec fn view(&self) -> BuiltinActionView {
        match self {
            BuiltinAction::Print(s) => BuiltinActionView::Print(s@),
            BuiltinAction::ChangeDirectory(s) => BuiltinActionView::ChangeDirectory(s@),
            BuiltinAction::PrintWorkingDirectory => BuiltinActionView::PrintWorkingDirectory,
            BuiltinAction::Exit => BuiltinActionView::Exit,
            BuiltinAction::Nothing => BuiltinActionView::Nothing,
        }
    }
}

/// What `echo` prints: its arguments with one blank between neighbours,
/// and a newline.
pub open spec fn echo_spec(msg: Seq<Seq<char>>) -> Seq<char> {
    joined(msg, " "@).push('\n')
}

/// What `echo` prints for `msg`.
pub fn echo(msg: &Vec<String>) -> (r: String)
    ensures
        r@ == echo_spec(texts(msg@)),
{
    let mut out = crate::text::join(msg, " ");
    out.push('\n');
    out
}

/// What `pwd` prints where the working directory is `directory`: the
/// directory and a newline.
pub fn pwd(directory: &str) -> (r: String)
    ensures
        r@ == directory@.push('\n'),
{
    let mut out = String::from_str(directory);
    out.push('\n');
    out
}

/// The directory that `cd` goes to: its first argument, and the value of
/// `HOME` where it has none.
pub open spec fn cd_spec(args: Seq<Seq<char>>, env: Entries) -> Seq<char> {
    if args.len() == 0 {
        value_of(env, "HOME"@)
    } else {
        args[0]
    }
}

/// The directory that `cd` goes to.
pub fn cd(args: &Vec<String>, env: &Table) -> (r: String)
    ensures
        r@ == cd_spec(texts(args@), env@),
{
    if args.len() == 0 {
        env.get_or_empty("HOME")
    } else {
        args[0].clone()
    }
}

/// What becomes of `cd` once it is known whether the directory exists: it
/// fails where it does not.
pub fn check_directory(exists: bool) -> (r: Result<(), RuntimeError>)
    ensures
        exists ==> r is Ok,
        !exists ==> r is Err && r.unwrap_err()@ == "cd: no such directory"@,
{
    if exists {
        Ok(())
    } else {
        Err(RuntimeError::CommandFailed(String::from_str("cd: no such directory")))
    }
}

/// The name and the value in `NAME=VALUE`: what stands before the first `=`
/// and what stands after it. Text without `=` holds neither.
pub open spec fn assignment(arg: Seq<char>) -> Option<(Seq<char>, Seq<char>)> {
    let at = position_from(arg, '=', 0);
    if at < arg.len() {
        Some((arg.subrange(0, at), arg.subrange(at + 1, arg.len() as int)))
    } else {
        None
    }
}

/// The name and the value in `NAME=VALUE`.
pub fn split_assignment(arg: &str) -> (r: Option<(String, String)>)
    ensures
        match assignment(arg@) {
            Some((name, value)) => r is Some && r.unwrap().0@ == name && r.unwrap().1@ == value,
            None => r is None,
        },
{
    let chars = to_chars(arg);
    let at = find_from(&chars, '=', 0);
    if at < chars.len() {
        Some((from_chars(&chars, 0, at), from_chars(&chars, at + 1, chars.len())))
    } else {
        None
    }
}

/// `value` with a `~` at its start replaced by `home`, where the `~` is all
/// of it or stands before a `/`.
pub open spec fn expand_home(value: Seq<char>, home: Seq<char>) -> Seq<char> {
    if value.len() > 0 && value[0] == '~' && (value.len() == 1 || value[1] == '/') {
        home + value.skip(1)
    } else {
        value
    }
}

/// `value` with a leading `~` or `~/` expanded to `home`.
pub fn expand_tilde(value: String, home: &str) -> (r: String)
    ensures
        r@ == expand_home(value@, home@),
{
    let chars = to_chars(value.as_str());
    if chars.len() > 0 && chars[0] == '~' && (chars.len() == 1 || chars[1] == '/') {
        let rest = from_chars(&chars, 1, chars.len());
        String::from_str(home).concat(rest.as_str())
    } else {
        value
    }
}

/// The variables as `export` prints them: a line `NAME="VALUE"` for each.
pub open spec fn variable_lines(entries: Entries) -> Seq<char>
    decreases entries.len(),
{
    if entries.len() == 0 {
        Seq::empty()
    } else {
        variable_lines(entries.drop_last()) + entries.last().0 + "=\""@ + entries.last().1
            + "\"\n"@
    }
}

/// The aliases as `alias` prints them: a line `name='value'` for each.
pub open spec fn alias_lines(entries: Entries) -> Seq<char>
    decreases entries.len(),
{
    if entries.len() == 0 {
        Seq::empty()
    } else {
        alias_lines(entries.drop_last()) + alias_line(entries.last().0, entries.last().1)
    }
}

/// The line that `alias` prints for one alias.
pub open spec fn alias_line(name: Seq<char>, value: Seq<char>) -> Seq<char> {
    name + "='"@ + value + "'\n"@
}

/// What `export` does to the variables `env`.
///
/// Without an argument nothing. With one argument `NAME=VALUE` it sets the
/// variable, after expanding a leading `~` or `~/` of the value to the value
/// of `HOME`.
pub open spec fn export_env(args: Seq<Seq<char>>, env: Entries) -> Entries {
    if args.len() == 1 && assignment(args[0]) is Some {
        assign(
            env,
            assignment(args[0]).unwrap().0,
            expand_home(assignment(args[0]).unwrap().1, value_of(env, "HOME"@)),
        )
    } else {
        env
    }
}

/// What `export` gives: the list of all variables where it has no
/// argument, nothing where it sets a variable, and an error for an argument
/// without `=` and for more than one argument.
pub open spec fn export_result(args: Seq<Seq<char>>, env: Entries) -> Result<Seq<char>, Seq<char>> {
    if args.len() == 0 {
        Ok(variable_lines(env))
    } else if args.len() > 1 {
        Err("export: too many arguments"@)
    } else if assignment(args[0]) is Some {
        Ok(Seq::empty())
    } else {
        Err("export: not an assignment"@)
    }
}

/// The built-in `export`: lists the variables, or sets one.
pub fn export(args: &Vec<String>, env: &mut Table) -> (r: Result<String, RuntimeError>)
    ensures
        final(env)@ == export_env(texts(args@), old(env)@),
        match export_result(texts(args@), old(env)@) {
            Ok(text) => r is Ok && r.unwrap()@ == text,
            Err(why) => r is Err && r.unwrap_err()@ == why,
        },
{
    if args.len() == 0 {
        let mut out = String::new();
        let mut i: usize = 0;
        while i < env.len()
            invariant
                i <= env@.len(),
                *env == *old(env),
                out@ == variable_lines(env@.subrange(0, i as int)),
            decreases env@.len() - i,
        {
            let ghost next = env@.subrange(0, i + 1);
            assert(next.drop_last() == env@.subrange(0, i as int));
            out.append(env.name_at(i));
            out.append("=\"");
            out.append(env.value_at(i));
            out.append("\"\n");
            i += 1;
        }
        assert(env@.subrange(0, env@.len() as int) == env@);
        Ok(out)
    } else if args.len() > 1 {
        Err(RuntimeError::CommandFailed(String::from_str("export: too many arguments")))
    } else {
        match split_assignment(args[0].as_str()) {
            Some((name, value)) => {
                let home = env.get_or_empty("HOME");
                env.insert(name, expand_tilde(value, home.as_str()));
                Ok(String::new())
            },
            None => Err(
                RuntimeError::CommandFailed(String::from_str("export: not an assignment")),
            ),
        }
    }
}

/// `env` without the variables named by the first `n` of `args`.
pub open spec fn unset_first(args: Seq<Seq<char>>, n: nat, env: Entries) -> Entries
    decreases n,
{
    if n == 0 || n > args.len() {
        env
    } else {
        without(unset_first(args, (n - 1) as nat, env), args[n - 1])
    }
}

/// The built-in `unset`: removes each variable that `args` names.
pub fn unset(args: &Vec<String>, env: &mut Table)
    ensures
        final(env)@ == unset_first(texts(args@), args@.len(), old(env)@),
{
    let mut i: usize = 0;
    while i < args.len()
        invariant
            i <= args.len(),
            env@ == unset_first(texts(args@), i as nat, old(env)@),
        decreases args.len() - i,
    {
        env.remove(args[i].as_str());
        i += 1;
    }
}

/// What `alias` does to the aliases: with one argument `name=value` it
/// defines the alias, or gives it a new value; else nothing.
pub open spec fn alias_table(args: Seq<Seq<char>>, aliases: Entries) -> Entries {
    if args.len() == 1 && assignment(args[0]) is Some {
        assign(aliases, assignment(args[0]).unwrap().0, assignment(args[0]).unwrap().1)
    } else {
        aliases
    }
}

/// The error of `alias` for a name that is no alias.
pub open spec fn alias_missing(name: Seq<char>) -> Seq<char> {
    "Alias '"@ + name + "' not found"@
}

/// What `alias` gives: the list of all aliases where it has no argument;
/// nothing where it defines one; the line of the alias that its one argument
/// names, or an error where there is none; an error for more than one
/// argument.
pub open spec fn alias_result(args: Seq<Seq<char>>, aliases: Entries) -> Result<
    Seq<char>,
    Seq<char>,
> {
    if args.len() == 0 {
        Ok(alias_lines(aliases))
    } else if args.len() > 1 {
        Err("Usage: alias [name[=value] ...]"@)
    } else if assignment(args[0]) is Some {
        Ok(Seq::empty())
    } else {
        match lookup(aliases, args[0]) {
            Some(value) => Ok(alias_line(args[0], value)),
            None => Err(alias_missing(args[0])),
        }
    }
}

/// The built-in `alias`: lists the aliases, defines one, or shows one.
pub fn alias(args: &Vec<String>, aliases: &mut Table) -> (r: Result<String, RuntimeError>)
    ensures
        final(aliases)@ == alias_table(texts(args@), old(aliases)@),
        match alias_result(texts(args@), old(aliases)@) {
            Ok(text) => r is Ok && r.unwrap()@ == text,
            Err(why) => r is Err && r.unwrap_err()@ == why,
        },
{
    if args.len() == 0 {
        let mut out = String::new();
        let mut i: usize = 0;
        while i < aliases.len()
            invariant
                i <= aliases@.len(),
                *aliases == *old(aliases),
                out@ == alias_lines(aliases@.subrange(0, i as int)),
            decreases aliases@.len() - i,
        {
            let ghost next = aliases@.subrange(0, i + 1);
            assert(next.drop_last() == aliases@.subrange(0, i as int));
            out.append(aliases.name_at(i));
            out.append("='");
            out.append(aliases.value_at(i));
            out.append("'\n");
            i += 1;
        }
        assert(aliases@.subrange(0, aliases@.len() as int) == aliases@);
        Ok(out)
    } else if args.len() > 1 {
        Err(RuntimeError::CommandFailed(String::from_str("Usage: alias [name[=value] ...]")))
    } else {
        match split_assignment(args[0].as_str()) {
            Some((name, value)) => {
                aliases.insert(name, value);
                Ok(String::new())
            },
            None => match aliases.get(args[0].as_str()) {
                Some(value) => {
                    let mut out = args[0].clone();
                    out.append("='");
                    out.append(value.as_str());
                    out.append("'\n");
                    Ok(out)
                },
                None => {
                    let mut why = String::from_str("Alias '");
                    why.append(args[0].as_str());
                    why.append("' not found");
                    Err(RuntimeError::CommandFailed(why))
                },
            },
        }
    }
}

/// The error for a name that is no built-in.
pub open spec fn not_found(cmd: Seq<char>) -> Seq<char> {
    cmd + ": command not found"@
}

/// What the built-in `cmd` does to the variables.
pub open spec fn builtin_env(cmd: Seq<char>, args: Seq<Seq<char>>, env: Entries) -> Entries {
    if cmd == "export"@ {
        export_env(args, env)
    } else if cmd == "unset"@ {
        unset_first(args, args.len(), env)
    } else {
        env
    }
}

/// What the built-in `cmd` does to the aliases.
pub open spec fn builtin_aliases(cmd: Seq<char>, args: Seq<Seq<char>>, aliases: Entries)
    -> Entries {
    if cmd == "alias"@ {
        alias_table(args, aliases)
    } else {
        aliases
    }
}

/// What the built-in `cmd` gives: what is left to the embedding program, or
/// why the command failed. A name that is no built-in fails.
pub open spec fn builtin_result(
    cmd: Seq<char>,
    args: Seq<Seq<char>>,
    env: Entries,
    aliases: Entries,
) -> Result<BuiltinActionView, Seq<char>> {
    if cmd == "cd"@ {
        Ok(BuiltinActionView::ChangeDirectory(cd_spec(args, env)))
    } else if cmd == "pwd"@ {
        Ok(BuiltinActionView::PrintWorkingDirectory)
    } else if cmd == "exit"@ {
        Ok(BuiltinActionView::Exit)
    } else if cmd == "echo"@ {
        Ok(BuiltinActionView::Print(echo_spec(args)))
    } else if cmd == "export"@ {
        match export_result(args, env) {
            Ok(text) => Ok(printed(text)),
            Err(why) => Err(why),
        }
    } else if cmd == "unset"@ {
        Ok(BuiltinActionView::Nothing)
    } else if cmd == "alias"@ {
        match alias_result(args, aliases) {
            Ok(text) => Ok(printed(text)),
            Err(why) => Err(why),
        }
    } else {
        Err(not_found(cmd))
    }
}

/// The names of `export`, `unset` and `alias` differ from one another and
/// from those of the other built-ins.
pub proof fn lemma_builtin_names_differ()
    ensures
        "export"@ != "unset"@,
        "export"@ != "alias"@,
        "unset"@ != "alias"@,
        "cd"@ != "export"@ && "cd"@ != "unset"@ && "cd"@ != "alias"@,
        "pwd"@ != "export"@ && "pwd"@ != "unset"@ && "pwd"@ != "alias"@,
        "exit"@ != "export"@ && "exit"@ != "unset"@ && "exit"@ != "alias"@,
        "echo"@ != "export"@ && "echo"@ != "unset"@ && "echo"@ != "alias"@,
{
    reveal_strlit("cd");
    reveal_strlit("pwd");
    reveal_strlit("exit");
    reveal_strlit("echo");
    reveal_strlit("export");
    reveal_strlit("unset");
    reveal_strlit("alias");
    assert("cd"@.len() == 2 && "pwd"@.len() == 3 && "exit"@.len() == 4 && "echo"@.len() == 4);
    assert("export"@.len() == 6 && "unset"@.len() == 5 && "alias"@.len() == 5);
    assert("unset"@[0] != "alias"@[0]);
}

/// The action for a text to print: none for no text.
pub open spec fn printed(text: Seq<char>) -> BuiltinActionView {
    if text.len() == 0 {
        BuiltinActionView::Nothing
    } else {
        BuiltinActionView::Print(text)
    }
}

/// The action for a text to print: none for no text.
fn print_action(text: String) -> (r: BuiltinAction)
    ensures
        r@ == printed(text@),
{
    if text.as_str().unicode_len() == 0 {
        BuiltinAction::Nothing
    } else {
        BuiltinAction::Print(text)
    }
}

/// Runs the built-in `cmd` with `args` on the shell's variables and aliases.
pub fn builtin(cmd: String, args: Vec<String>, env: &mut Table, aliases: &mut Table) -> (r: Result<
    BuiltinAction,
    RuntimeError,
>)
    ensures
        final(env)@ == builtin_env(cmd@, texts(args@), old(env)@),
        final(aliases)@ == builtin_aliases(cmd@, texts(args@), old(aliases)@),
        match builtin_result(cmd@, texts(args@), old(env)@, old(aliases)@) {
            Ok(action) => r is Ok && r.unwrap()@ == action,
            Err(why) => r is Err && r.unwrap_err()@ == why,
        },
{
    proof {
        lemma_builtin_names_differ();
    }
    if same(cmd.as_str(), "cd") {
        Ok(BuiltinAction::ChangeDirectory(cd(&args, env)))
    } else if same(cmd.as_str(), "pwd") {
        Ok(BuiltinAction::PrintWorkingDirectory)
    } else if same(cmd.as_str(), "exit") {
        Ok(BuiltinAction::Exit)
    } else if same(cmd.as_str(), "echo") {
        Ok(BuiltinAction::Print(echo(&args)))
    } else if same(cmd.as_str(), "export") {
        match export(&args, env) {
            Ok(text) => Ok(print_action(text)),
            Err(e) => Err(e),
        }
    } else if same(cmd.as_str(), "unset") {
        unset(&args, env);
        Ok(BuiltinAction::Nothing)
    } else if same(cmd.as_str(), "alias") {
        match alias(&args, aliases) {
            Ok(text) => Ok(print_action(text)),
            Err(e) => Err(e),
        }
    } else {
        let mut why = cmd;
        why.append(": command not found");
        Err(RuntimeError::CommandFailed(why))
    }
}

} // verus!
