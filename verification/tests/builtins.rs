use aish::builtins::{
    alias, builtin, cd, check_directory, echo, expand_tilde, export, pwd, split_assignment, unset,
    BuiltinAction,
};
use aish::command::BuiltinCommand;
use aish::errors::RuntimeError;
use aish::table::Table;
use aish::token::Token;

fn strings(list: &[&str]) -> Vec<String> {
    list.iter().map(|s| s.to_string()).collect()
}

fn env() -> Table {
    let mut t = Table::new();
    t.insert("HOME".to_string(), "/home/user".to_string());
    t.insert("A".to_string(), "1".to_string());
    t
}

fn reason(e: RuntimeError) -> String {
    match e {
        RuntimeError::CommandFailed(why) => why,
    }
}

#[test]
fn echo_joins_its_arguments() {
    assert_eq!(echo(&strings(&[])), "\n");
    assert_eq!(echo(&strings(&["a"])), "a\n");
    assert_eq!(echo(&strings(&["Hello,", "world!"])), "Hello, world!\n");
    assert_eq!(echo(&strings(&["a", "", "b"])), "a  b\n");
}

#[test]
fn pwd_prints_the_directory() {
    assert_eq!(pwd("/tmp"), "/tmp\n");
}

#[test]
fn cd_goes_home_without_an_argument() {
    assert_eq!(cd(&strings(&[]), &env()), "/home/user");
    assert_eq!(cd(&strings(&["/tmp", "x"]), &env()), "/tmp");
    assert_eq!(cd(&strings(&[]), &Table::new()), "");
}

#[test]
fn cd_fails_where_the_directory_is_missing() {
    assert!(check_directory(true).is_ok());
    let e = check_directory(false).unwrap_err();
    assert_eq!(e.message(), "Command failed: cd: no such directory");
    assert_eq!(reason(e), "cd: no such directory");
}

#[test]
fn split_assignment_cuts_at_the_first_equals_sign() {
    assert_eq!(split_assignment("A=b"), Some(("A".to_string(), "b".to_string())));
    assert_eq!(split_assignment("A=b=c"), Some(("A".to_string(), "b=c".to_string())));
    assert_eq!(split_assignment("A="), Some(("A".to_string(), "".to_string())));
    assert_eq!(split_assignment("=b"), Some(("".to_string(), "b".to_string())));
    assert_eq!(split_assignment("A"), None);
    assert_eq!(split_assignment(""), None);
}

#[test]
fn expand_tilde_touches_a_leading_tilde_only() {
    assert_eq!(expand_tilde("~".to_string(), "/h"), "/h");
    assert_eq!(expand_tilde("~/x".to_string(), "/h"), "/h/x");
    assert_eq!(expand_tilde("~/a~b".to_string(), "/h"), "/h/a~b");
    assert_eq!(expand_tilde("~x".to_string(), "/h"), "~x");
    assert_eq!(expand_tilde("a~".to_string(), "/h"), "a~");
    assert_eq!(expand_tilde("".to_string(), "/h"), "");
}

#[test]
fn export_lists_the_variables() {
    let mut e = env();
    assert_eq!(export(&strings(&[]), &mut e).unwrap(), "HOME=\"/home/user\"\nA=\"1\"\n");
    assert_eq!(export(&strings(&[]), &mut Table::new()).unwrap(), "");
}

#[test]
fn export_sets_a_variable() {
    let mut e = env();
    assert_eq!(export(&strings(&["FOO=BAR"]), &mut e).unwrap(), "");
    assert_eq!(e.get("FOO"), Some("BAR".to_string()));
    export(&strings(&["A=2"]), &mut e).unwrap();
    assert_eq!(e.get("A"), Some("2".to_string()));
    assert_eq!(e.len(), 3);
    export(&strings(&["P=~/bin"]), &mut e).unwrap();
    assert_eq!(e.get("P"), Some("/home/user/bin".to_string()));
    export(&strings(&["Q=~"]), &mut e).unwrap();
    assert_eq!(e.get("Q"), Some("/home/user".to_string()));
    export(&strings(&["R=~Documents"]), &mut e).unwrap();
    assert_eq!(e.get("R"), Some("~Documents".to_string()));
}

#[test]
fn export_refuses_what_it_cannot_set() {
    let mut e = env();
    assert_eq!(
        reason(export(&strings(&["A=1", "B=2"]), &mut e).unwrap_err()),
        "export: too many arguments"
    );
    assert_eq!(reason(export(&strings(&["A"]), &mut e).unwrap_err()), "export: not an assignment");
    assert_eq!(e.len(), 2);
}

#[test]
fn unset_removes_each_name() {
    let mut e = env();
    e.insert("B".to_string(), "2".to_string());
    unset(&strings(&["A", "MISSING", "HOME"]), &mut e);
    assert_eq!(e.get("A"), None);
    assert_eq!(e.get("HOME"), None);
    assert_eq!(e.get("B"), Some("2".to_string()));
    assert_eq!(e.len(), 1);
    unset(&strings(&[]), &mut e);
    assert_eq!(e.len(), 1);
}

#[test]
fn alias_lists_defines_and_shows() {
    let mut aliases = Table::new();
    assert_eq!(alias(&strings(&[]), &mut aliases).unwrap(), "");
    assert_eq!(alias(&strings(&["a=echo A"]), &mut aliases).unwrap(), "");
    assert_eq!(alias(&strings(&["b=x=y"]), &mut aliases).unwrap(), "");
    assert_eq!(alias(&strings(&[]), &mut aliases).unwrap(), "a='echo A'\nb='x=y'\n");
    assert_eq!(alias(&strings(&["a"]), &mut aliases).unwrap(), "a='echo A'\n");
    assert_eq!(alias(&strings(&["a=echo B"]), &mut aliases).unwrap(), "");
    assert_eq!(alias(&strings(&["a"]), &mut aliases).unwrap(), "a='echo B'\n");
    assert_eq!(aliases.len(), 2);
}

#[test]
fn alias_fails_for_an_unknown_name_and_for_too_many_arguments() {
    let mut aliases = Table::new();
    assert_eq!(reason(alias(&strings(&["zz"]), &mut aliases).unwrap_err()), "Alias 'zz' not found");
    assert_eq!(
        reason(alias(&strings(&["a=b", "c=d"]), &mut aliases).unwrap_err()),
        "Usage: alias [name[=value] ...]"
    );
    assert_eq!(aliases.len(), 0);
}

#[test]
fn builtin_runs_the_command_that_is_named() {
    let mut e = env();
    let mut a = Table::new();
    let mut run = |cmd: &str, args: &[&str]| builtin(cmd.to_string(), strings(args), &mut e, &mut a);
    assert_eq!(run("echo", &["a", "b"]).unwrap(), BuiltinAction::Print("a b\n".to_string()));
    assert_eq!(run("pwd", &[]).unwrap(), BuiltinAction::PrintWorkingDirectory);
    assert_eq!(run("exit", &[]).unwrap(), BuiltinAction::Exit);
    assert_eq!(run("cd", &[]).unwrap(), BuiltinAction::ChangeDirectory("/home/user".to_string()));
    assert_eq!(run("cd", &["/x"]).unwrap(), BuiltinAction::ChangeDirectory("/x".to_string()));
    assert_eq!(run("export", &["B=2"]).unwrap(), BuiltinAction::Nothing);
    assert_eq!(
        run("export", &[]).unwrap(),
        BuiltinAction::Print("HOME=\"/home/user\"\nA=\"1\"\nB=\"2\"\n".to_string())
    );
    assert_eq!(run("unset", &["A", "B"]).unwrap(), BuiltinAction::Nothing);
    assert_eq!(run("alias", &[]).unwrap(), BuiltinAction::Nothing);
    assert_eq!(run("alias", &["l=ls"]).unwrap(), BuiltinAction::Nothing);
    assert_eq!(run("alias", &["l"]).unwrap(), BuiltinAction::Print("l='ls'\n".to_string()));
    assert_eq!(reason(run("llm", &["x"]).unwrap_err()), "llm: command not found");
    assert_eq!(reason(run("", &[]).unwrap_err()), ": command not found");
    assert_eq!(reason(run("export", &["a", "b"]).unwrap_err()), "export: too many arguments");
    assert_eq!(e.len(), 1);
    assert_eq!(a.get("l"), Some("ls".to_string()));
}

#[test]
fn run_builtin_resolves_the_words_first() {
    let mut e = env();
    let mut a = Table::new();
    let command = BuiltinCommand::new(vec![
        Token::Plain("export".to_string()),
        Token::Group(vec![Token::Plain("B=".to_string()), Token::Variable("A".to_string())]),
    ])
    .unwrap();
    assert_eq!(command.run_builtin(&mut e, &mut a).unwrap(), BuiltinAction::Nothing);
    assert_eq!(e.get("B"), Some("1".to_string()));
    let command = BuiltinCommand::new(vec![
        Token::Plain("echo".to_string()),
        Token::Variable("B".to_string()),
        Token::Tilde,
    ])
    .unwrap();
    assert_eq!(
        command.run_builtin(&mut e, &mut a).unwrap(),
        BuiltinAction::Print("1 /home/user\n".to_string())
    );
    assert_eq!(command.clone().cmd(&e), "echo");
}
