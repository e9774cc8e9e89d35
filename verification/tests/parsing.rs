use aish::command::{BuiltinCommand, CommandType, ExternalCommand, LlmCommand};
use aish::errors::SyntaxError;
use aish::openai_client::OpenAIClient;
use aish::parser::{clean, parse, preprocess, tokenize};
use aish::parsing::parser::parse_impl;
use aish::parsing::process::process;
use aish::parsing::scanner::Scanner;
use aish::pipeline::Pipeline;
use aish::redirect::{InputRedirect, OutputRedirect, OutputRedirectAppend, RedirectType};
use aish::runnable::Runnable;
use aish::sequence::{AndSequence, Sequence};
use aish::table::Table;
use aish::token::Token;

fn plain(s: &str) -> Token {
    Token::Plain(s.to_string())
}

fn meta(s: &str) -> Token {
    Token::Meta(s.to_string())
}

fn words(list: &[&str]) -> Vec<Token> {
    list.iter().map(|s| plain(s)).collect()
}

fn external(list: &[&str]) -> CommandType {
    CommandType::External(ExternalCommand::new(words(list)).unwrap())
}

fn builtin(list: &[&str]) -> CommandType {
    CommandType::Builtin(BuiltinCommand::new(words(list)).unwrap())
}

fn pipeline(stages: Vec<CommandType>) -> Runnable {
    Runnable::Pipeline(Pipeline::init(stages))
}

fn sequence(nodes: Vec<Runnable>) -> Runnable {
    Runnable::Sequence(Sequence::init(nodes))
}

fn tree(input: &str) -> Runnable {
    tokenize(input.to_string(), &Table::new()).unwrap()
}

fn refusal(input: &str) -> String {
    tokenize(input.to_string(), &Table::new()).unwrap_err().message()
}

#[test]
fn process_strips_and_terminates() {
    assert_eq!(process("  echo hi \n".to_string()), "echo hi;");
    assert_eq!(process("echo hi;".to_string()), "echo hi;");
    assert_eq!(process("echo hi; ".to_string()), "echo hi;");
    assert_eq!(process("".to_string()), ";");
    assert_eq!(process(" \t\r\n".to_string()), ";");
    assert_eq!(process("\u{a0}\u{2003}a\u{3000}".to_string()), "a;");
    assert_eq!(process("a b".to_string()), "a b;");
    assert_eq!(preprocess("\tls -l\n\n".to_string()), "ls -l;");
}

#[test]
fn clean_works_in_place() {
    let mut line = "  pwd \n".to_string();
    clean(&mut line).push('x');
    assert_eq!(line, "pwd;x");
}

#[test]
fn scanner_over_characters() {
    let mut scanner = Scanner::new("héllo".to_string());
    assert_eq!(scanner.peek(), Some('h'));
    assert_eq!(scanner.peek_next(1), Some('é'));
    assert_eq!(scanner.peek_next(4), Some('o'));
    assert_eq!(scanner.peek_next(5), None);
    assert_eq!(scanner.peek_next(usize::MAX), None);
    assert_eq!(scanner.next(), 'h');
    assert_eq!(scanner.next(), 'é');
    assert_eq!(scanner.peek(), Some('l'));
    scanner.index = 5;
    assert_eq!(scanner.peek(), None);
}

#[test]
fn scanner_over_tokens() {
    let mut scanner = Scanner::new(vec![plain("a"), meta("|")]);
    assert_eq!(scanner.peek(), Some(plain("a")));
    assert_eq!(scanner.next(), plain("a"));
    assert_eq!(scanner.next(), meta("|"));
    assert_eq!(scanner.peek(), None);
}

#[test]
fn parse_one_command_is_a_pipeline_of_one_stage() {
    assert_eq!(tree("ls -l"), sequence(vec![pipeline(vec![external(&["ls", "-l"])])]));
    assert_eq!(tree("echo hi;"), sequence(vec![pipeline(vec![builtin(&["echo", "hi"])])]));
}

#[test]
fn parse_nothing_is_an_empty_sequence() {
    let root = parse(vec![], &Table::new()).unwrap();
    assert_eq!(root, sequence(vec![]));
}

#[test]
fn parse_an_empty_line_lacks_a_command() {
    assert_eq!(refusal(""), "Expected token: ");
    assert_eq!(refusal(";"), "Expected token: ");
    assert_eq!(refusal("ls;;"), "Expected token: ");
    assert!(matches!(
        tokenize("ls && ".to_string(), &Table::new()),
        Err(SyntaxError::ExpectedToken(t)) if t.is_empty()
    ));
    assert_eq!(refusal("ls |"), "Expected token: ");
    assert_eq!(refusal("| ls"), "Expected token: ");
}

#[test]
fn parse_tokens_that_end_after_a_separator_lack_a_command() {
    let env = Table::new();
    assert_eq!(
        parse(vec![plain("a"), meta("|")], &env).unwrap_err().message(),
        "Expected token: "
    );
    assert_eq!(
        parse(vec![plain("a"), meta("&&")], &env).unwrap_err().message(),
        "Expected token: "
    );
    assert_eq!(
        parse(vec![plain("a")], &env).unwrap(),
        sequence(vec![pipeline(vec![external(&["a"])])])
    );
}

#[test]
fn parse_pipelines_and_sequences() {
    assert_eq!(
        tree("a | b x | c; d && e | f && g; h"),
        sequence(vec![
            pipeline(vec![external(&["a"]), external(&["b", "x"]), external(&["c"])]),
            Runnable::AndSequence(AndSequence::init(vec![
                pipeline(vec![external(&["d"])]),
                pipeline(vec![external(&["e"]), external(&["f"])]),
                pipeline(vec![external(&["g"])]),
            ])),
            pipeline(vec![external(&["h"])]),
        ])
    );
}

#[test]
fn parse_redirections_wrap_what_stands_before_them() {
    let inner = || external(&["sort"]);
    assert_eq!(
        tree("sort < in"),
        sequence(vec![pipeline(vec![CommandType::InputRedirect(
            InputRedirect::new(vec![inner()], "in".to_string()).unwrap()
        )])])
    );
    assert_eq!(
        tree("sort > out"),
        sequence(vec![pipeline(vec![CommandType::OutputRedirect(
            OutputRedirect::new(vec![inner()], "out".to_string()).unwrap()
        )])])
    );
    assert_eq!(
        tree("sort >> out"),
        sequence(vec![pipeline(vec![CommandType::OutputRedirectAppend(
            OutputRedirectAppend::new(vec![inner()], "out".to_string()).unwrap()
        )])])
    );
    assert_eq!(
        tree("sort < in > out | wc"),
        sequence(vec![pipeline(vec![
            inner().redirect(RedirectType::Input, "in".to_string()).redirect(
                RedirectType::Output,
                "out".to_string()
            ),
            external(&["wc"]),
        ])])
    );
}

#[test]
fn parse_redirection_needs_a_file() {
    assert_eq!(refusal("ls >"), "Unexpected token: ;");
    assert_eq!(refusal("ls > | wc"), "Unexpected token: |");
    let env = Table::new();
    assert_eq!(
        parse(vec![plain("ls"), meta(">")], &env).unwrap_err().message(),
        "Expected token: "
    );
}

#[test]
fn parse_refuses_a_word_after_a_file() {
    assert!(matches!(
        tokenize("ls > out extra".to_string(), &Table::new()),
        Err(SyntaxError::UnexpectedToken(t)) if t == "extra"
    ));
    assert_eq!(refusal("> out"), "Expected token: ");
}

#[test]
fn parse_refuses_an_unknown_meta_token() {
    let env = Table::new();
    let result = parse(vec![plain("ls"), meta("&"), plain("x")], &env);
    assert_eq!(result.unwrap_err().message(), "Unexpected token: &");
}

#[test]
fn parse_resolves_the_file_with_the_variables() {
    let mut env = Table::new();
    env.insert("OUT".to_string(), "file.txt".to_string());
    let root = tokenize("ls > $OUT".to_string(), &env).unwrap();
    let expected = sequence(vec![pipeline(vec![
        external(&["ls"]).redirect(RedirectType::Output, "file.txt".to_string())
    ])]);
    assert_eq!(root, expected);
}

#[test]
fn parse_impl_stops_at_the_end_of_the_tokens() {
    let mut scanner = Scanner::new(vec![plain("a"), meta(";"), plain("b"), meta(";")]);
    scanner.index = 2;
    let root = parse_impl(&mut scanner, &Table::new()).unwrap();
    assert_eq!(Runnable::Sequence(root), sequence(vec![pipeline(vec![external(&["b"])])]));
}

#[test]
fn create_tells_the_kinds_of_command_apart() {
    let mut env = Table::new();
    env.insert("E".to_string(), "echo".to_string());
    assert!(matches!(CommandType::create(words(&["cd", "x"]), &env), Ok(CommandType::Builtin(_))));
    assert!(matches!(CommandType::create(words(&["ls"]), &env), Ok(CommandType::External(_))));
    assert!(matches!(CommandType::create(words(&["llm"]), &env), Ok(CommandType::External(_))));
    assert!(matches!(
        CommandType::create(vec![Token::Variable("E".to_string())], &env),
        Ok(CommandType::Builtin(_))
    ));
    assert!(matches!(
        CommandType::create(vec![Token::SingleQuoted(vec![plain("pwd")])], &env),
        Ok(CommandType::Builtin(_))
    ));
    assert!(matches!(
        CommandType::create(vec![], &env),
        Err(SyntaxError::ExpectedToken(t)) if t.is_empty()
    ));
    for name in ["cd", "pwd", "exit", "echo", "export", "unset", "alias"] {
        assert!(aish::builtins::is_builtin(name));
    }
    for name in ["llm", "ls", "", "Echo", "cd "] {
        assert!(!aish::builtins::is_builtin(name));
    }
}

#[test]
fn create_makes_a_prompt_of_one_double_quoted_word() {
    let mut env = Table::new();
    let prompt = || vec![Token::DoubleQuoted(vec![plain("say "), Token::Variable("W".to_string())])];
    assert!(matches!(
        CommandType::create(prompt(), &env),
        Err(SyntaxError::InvalidOpenAIKey(t)) if t == "OPENAI_API_KEY not set"
    ));
    env.insert("OPENAI_API_KEY".to_string(), "SECRET-REDACTED".to_string());
    env.insert("W".to_string(), "hi".to_string());
    let command = CommandType::create(prompt(), &env).unwrap();
    assert_eq!(command.cmd(&env), "llm");
    assert_eq!(command.args(&env), vec!["say hi".to_string()]);
    match &command {
        CommandType::Llm(llm) => assert_eq!(llm.client().api_key(), "SECRET-REDACTED"),
        other => panic!("{:?}", other),
    }
    let two = vec![Token::DoubleQuoted(vec![plain("echo")]), plain("x")];
    assert!(matches!(CommandType::create(two, &env), Ok(CommandType::Builtin(_))));
}

#[test]
fn commands_need_a_name() {
    assert!(matches!(BuiltinCommand::new(vec![]), Err(SyntaxError::InternalError)));
    assert!(matches!(ExternalCommand::new(vec![]), Err(SyntaxError::InternalError)));
    assert_eq!(BuiltinCommand::new(vec![]).unwrap_err().message(), "Internal Error");
}

#[test]
fn redirections_take_exactly_one_stage() {
    let file = || "f".to_string();
    assert!(matches!(OutputRedirect::new(vec![], file()), Err(SyntaxError::InternalError)));
    assert!(matches!(
        OutputRedirectAppend::new(vec![external(&["a"]), external(&["b"])], file()),
        Err(SyntaxError::InternalError)
    ));
    assert!(matches!(InputRedirect::new(vec![], file()), Err(SyntaxError::InternalError)));
    let redirect = InputRedirect::new(vec![external(&["a"])], file()).unwrap();
    assert_eq!(redirect.path(), "f");
    assert_eq!(*redirect.command(), external(&["a"]));
}

#[test]
fn redirect_kinds_of_meta_tokens() {
    assert_eq!(RedirectType::from_meta("<"), RedirectType::Input);
    assert_eq!(RedirectType::from_meta(">"), RedirectType::Output);
    assert_eq!(RedirectType::from_meta(">>"), RedirectType::OutputAppend);
    assert_eq!(RedirectType::from_meta("|"), RedirectType::NoRedirect);
    assert_eq!(external(&["a"]).redirect(RedirectType::NoRedirect, "f".to_string()), external(&["a"]));
}

#[test]
fn command_words_are_resolved_when_asked() {
    let mut env = Table::new();
    let command = ExternalCommand::new(vec![
        plain("ls"),
        Token::Variable("DIR".to_string()),
        Token::Group(vec![Token::Tilde, plain("/x")]),
    ])
    .unwrap();
    assert_eq!(command.cmd(&env), "ls");
    assert_eq!(command.args(&env), vec!["".to_string(), "/x".to_string()]);
    env.insert("DIR".to_string(), "/tmp".to_string());
    env.insert("HOME".to_string(), "/h".to_string());
    assert_eq!(command.args(&env), vec!["/tmp".to_string(), "/h/x".to_string()]);
    let wrapped = CommandType::External(command)
        .redirect(RedirectType::Input, "in".to_string())
        .redirect(RedirectType::OutputAppend, "out".to_string());
    assert_eq!(wrapped.cmd(&env), "ls");
    assert_eq!(wrapped.args(&env), vec!["/tmp".to_string(), "/h/x".to_string()]);
}

#[test]
fn prompt_is_wrapped_with_the_input_in_a_pipeline() {
    let client = OpenAIClient::new(Some("k".to_string()), &Table::new()).unwrap();
    let command = LlmCommand::new("Write a commit message".to_string(), client);
    assert_eq!(command.cmd(), "llm");
    assert_eq!(command.args(), vec!["Write a commit message".to_string()]);
    assert_eq!(command.context(None), "Write a commit message");
    assert_eq!(command.piped_context(Some("diff".to_string())), command.context(Some("diff".to_string())));
    assert!(command.piped_context(None).ends_with("how are you?' Input:  Prompt: Write a commit message"));
    assert_eq!(
        command.context(Some("diff".to_string())),
        "Given the following input and prompt, decide whether to return a normal response to the \
         input or a suggested new shell command. Example one: input = result of a git diff, \
         prompt = 'Write a commit message in one line', output = 'COMMAND: git commit -m \
         \"<LLM generated response>\"'.Example two: input = '', prompt = 'hello', output = \
         'Hello, how are you?' Input: diff Prompt: Write a commit message"
    );
}

fn render(node: &Runnable, env: &Table, out: &mut Vec<String>) {
    match node {
        Runnable::Command(command) => render_stage(command, env, out),
        Runnable::Pipeline(pipeline) => {
            for i in 0..pipeline.len() {
                if i > 0 {
                    out.push("|".to_string());
                }
                render_stage(pipeline.stage(i), env, out);
            }
        }
        Runnable::AndSequence(sequence) => {
            for i in 0..sequence.len() {
                if i > 0 {
                    out.push("&&".to_string());
                }
                render(sequence.child(i), env, out);
            }
        }
        Runnable::Sequence(sequence) => {
            for i in 0..sequence.len() {
                render(sequence.child(i), env, out);
                out.push(";".to_string());
            }
        }
    }
}

fn render_stage(stage: &CommandType, env: &Table, out: &mut Vec<String>) {
    match stage {
        CommandType::InputRedirect(r) => {
            render_stage(r.command(), env, out);
            out.push("<".to_string());
            out.push(r.path().to_string());
        }
        CommandType::OutputRedirect(r) => {
            render_stage(r.command(), env, out);
            out.push(">".to_string());
            out.push(r.path().to_string());
        }
        CommandType::OutputRedirectAppend(r) => {
            render_stage(r.command(), env, out);
            out.push(">>".to_string());
            out.push(r.path().to_string());
        }
        CommandType::Llm(_) => out.extend(stage.args(env)),
        _ => {
            out.push(stage.cmd(env));
            out.extend(stage.args(env));
        }
    }
}

#[test]
fn the_words_of_the_tree_are_the_texts_of_the_tokens() {
    let mut env = Table::new();
    env.insert("HOME".to_string(), "/h".to_string());
    env.insert("X".to_string(), "x y".to_string());
    env.insert("OPENAI_API_KEY".to_string(), "SECRET-REDACTED".to_string());
    let lines = [
        "echo  'a b'   \"$X\" ~/z | wc -c > out && cat < in >> log ; pwd",
        "\"what is $X\" | sort; a&&b&&c",
        "export  A=~ ; unset A;",
    ];
    for line in lines {
        let tokens = aish::parser::lex(preprocess(line.to_string())).unwrap();
        let texts: Vec<String> = tokens.iter().map(|t| t.resolve(&env)).collect();
        let root = parse(tokens, &env).unwrap();
        let mut out = Vec::new();
        render(&root, &env, &mut out);
        assert_eq!(out, texts);
    }
    let root = parse(vec![plain("a"), meta("|"), plain("b")], &env).unwrap();
    let mut out = Vec::new();
    render(&root, &env, &mut out);
    assert_eq!(out, vec!["a", "|", "b", ";"]);
}

#[test]
fn a_copy_of_a_tree_is_the_same_tree() {
    let root = tree("a < in | b > out && cd x; pwd >> log");
    assert_eq!(root.clone(), root);
}

#[test]
fn builders_of_the_composite_nodes() {
    assert_eq!(Pipeline::default(), Pipeline::new());
    assert_eq!(Sequence::default(), Sequence::new());
    assert_eq!(AndSequence::default(), AndSequence::new());
    let mut p = Pipeline::new();
    assert_eq!(p.len(), 0);
    p.add(external(&["a"])).add(external(&["b"]));
    assert_eq!(p.len(), 2);
    assert_eq!(*p.stage(1), external(&["b"]));
    let moved = p.transfer();
    assert_eq!(p.len(), 0);
    assert_eq!(moved, Pipeline::init(vec![external(&["a"]), external(&["b"])]));
    p.add(external(&["c"]));
    p.clear();
    assert_eq!(p, Pipeline::new());

    let mut s = Sequence::new();
    s.add(pipeline(vec![external(&["a"])])).add(pipeline(vec![external(&["b"])]));
    assert_eq!(s.len(), 2);
    assert_eq!(*s.child(0), pipeline(vec![external(&["a"])]));
    let moved = s.transfer();
    assert_eq!(s.len(), 0);
    assert_eq!(moved.len(), 2);
    s.add(pipeline(vec![]));
    s.clear();
    assert_eq!(s, Sequence::new());

    let mut a = AndSequence::new();
    a.add(pipeline(vec![external(&["a"])]));
    assert_eq!(a.len(), 1);
    let moved = a.transfer();
    assert_eq!(a, AndSequence::new());
    assert_eq!(moved, AndSequence::init(vec![pipeline(vec![external(&["a"])])]));
    a.add(pipeline(vec![])).clear();
    assert_eq!(a.len(), 0);
    assert_eq!(
        external(&["a"]).unpack_run(),
        Runnable::Command(external(&["a"]).unpack_cmd())
    );
}
