// The shell end to end, with a host made of plain values in place of the
// operating system: a table of files, a list of directories and a handful of
// programs.

use aish::alias::expand_aliases;
use aish::builtins::{check_directory, pwd, BuiltinAction};
use aish::command::CommandType;
use aish::parsing::parse;
use aish::pipeline::{Pipeline, PipelineStep};
use aish::runnable::Runnable;
use aish::sequence::Feedback;
use aish::shell::conclude;
use aish::table::Table;
use std::collections::HashMap;

const HOME: &str = "/home/user";
const START: &str = "/work/dir";

struct Host {
    env: Table,
    aliases: Table,
    cwd: String,
    dirs: Vec<String>,
    files: HashMap<String, Vec<u8>>,
    stdout: Vec<u8>,
    stderr: String,
    suggestion: String,
    exited: bool,
    ran: Vec<String>,
}

impl Host {
    fn new() -> Host {
        let mut env = Table::new();
        env.insert("HOME".to_string(), HOME.to_string());
        env.insert("PATH".to_string(), "/bin".to_string());
        Host {
            env,
            aliases: Table::new(),
            cwd: START.to_string(),
            dirs: vec!["/".to_string(), "/tmp".to_string(), HOME.to_string(), START.to_string()],
            files: HashMap::new(),
            stdout: Vec::new(),
            stderr: String::new(),
            suggestion: String::new(),
            exited: false,
            ran: Vec::new(),
        }
    }

    fn absolute(&self, path: &str) -> String {
        let joined = if path.starts_with('/') {
            path.to_string()
        } else {
            format!("{}/{}", self.cwd, path)
        };
        if joined.len() > 1 && joined.ends_with('/') {
            joined[..joined.len() - 1].to_string()
        } else {
            joined
        }
    }

    fn println(&mut self, text: &str) {
        self.stdout.extend_from_slice(text.as_bytes());
        self.stdout.push(b'\n');
    }

    fn eprintln(&mut self, text: &str) {
        self.stderr.push_str(text);
        self.stderr.push('\n');
    }

    fn write(&mut self, feedback: Feedback) {
        if let Some(text) = feedback.print {
            self.println(&text);
        }
        if let Some(why) = feedback.report {
            self.eprintln(&format!("Error in command: {}", why));
        }
    }

    fn program(
        &mut self,
        name: &str,
        args: &[String],
        stdin: Option<Vec<u8>>,
    ) -> Result<Option<Vec<u8>>, String> {
        self.ran.push(name.to_string());
        let input = stdin.unwrap_or_default();
        match name {
            "wc" if args == ["-c".to_string()] => {
                Ok(Some(format!("{}\n", input.len()).into_bytes()))
            }
            "cat" if args.is_empty() => Ok(Some(input)),
            "cat" if args[0] == "/dev/random" => Ok(Some(vec![0xff, 0xfe, b'a', b'\n', 0x80, b'\n'])),
            "cat" => match self.files.get(&self.absolute(&args[0])) {
                Some(data) => Ok(Some(data.clone())),
                None => Err(format!("cat: {}: No such file or directory", args[0])),
            },
            "head" if args == ["-n".to_string(), "1".to_string()] => {
                let end = input.iter().position(|b| *b == b'\n').map_or(input.len(), |p| p + 1);
                Ok(Some(input[..end].to_vec()))
            }
            "sed" if args == ["s/H/h/g".to_string()] => {
                Ok(Some(input.iter().map(|b| if *b == b'H' { b'h' } else { *b }).collect()))
            }
            "mkdir" if args.len() == 1 => {
                let dir = self.absolute(&args[0]);
                self.dirs.push(dir);
                Ok(Some(Vec::new()))
            }
            _ => Err("No such file or directory (os error 2)".to_string()),
        }
    }

    fn pipe(
        &mut self,
        stage: &CommandType,
        stdin: Option<Vec<u8>>,
    ) -> Result<Option<Vec<u8>>, String> {
        match stage {
            CommandType::Builtin(command) => {
                match command.run_builtin(&mut self.env, &mut self.aliases) {
                    Ok(BuiltinAction::Print(text)) => Ok(Some(text.into_bytes())),
                    Ok(BuiltinAction::ChangeDirectory(path)) => {
                        let target = self.absolute(&path);
                        check_directory(self.dirs.contains(&target)).map_err(|e| e.message())?;
                        self.cwd = target;
                        Ok(Some(Vec::new()))
                    }
                    Ok(BuiltinAction::PrintWorkingDirectory) => {
                        Ok(Some(pwd(&self.cwd).into_bytes()))
                    }
                    Ok(BuiltinAction::Exit) => {
                        self.exited = true;
                        Ok(Some(Vec::new()))
                    }
                    Ok(BuiltinAction::Nothing) => Ok(Some(Vec::new())),
                    Err(e) => Err(e.message()),
                }
            }
            CommandType::External(command) => {
                let name = command.cmd(&self.env);
                let args = command.args(&self.env);
                self.program(&name, &args, stdin)
            }
            CommandType::Llm(command) => {
                let input = stdin.map(|b| String::from_utf8_lossy(&b).into_owned());
                let context = command.piped_context(input);
                let tail = &context[context.len() - 10..];
                Ok(Some(format!("COMMAND: echo {}\n", tail).into_bytes()))
            }
            CommandType::OutputRedirect(redirect) => {
                let target = self.absolute(redirect.path());
                self.files.insert(target.clone(), Vec::new());
                let out = self.pipe(redirect.command(), stdin)?;
                self.files.insert(target, out.unwrap_or_default());
                Ok(None)
            }
            CommandType::OutputRedirectAppend(redirect) => {
                let target = self.absolute(redirect.path());
                let out = self.pipe(redirect.command(), stdin)?;
                self.files.entry(target).or_default().extend(out.unwrap_or_default());
                Ok(None)
            }
            CommandType::InputRedirect(redirect) => {
                let source = self.absolute(redirect.path());
                let data = match self.files.get(&source) {
                    Some(data) => data.clone(),
                    None => return Err("No such file or directory (os error 2)".to_string()),
                };
                self.pipe(redirect.command(), Some(data))
            }
        }
    }

    fn run_pipeline(&mut self, pipeline: &Pipeline) -> Result<String, String> {
        let mut run = pipeline.start();
        let mut stream: Option<Vec<u8>> = None;
        loop {
            match pipeline.next_step(&run) {
                PipelineStep::Pipe { stage, piped } => {
                    let input = if piped { stream.take() } else { None };
                    let out = self.pipe(pipeline.stage(stage), input)?;
                    pipeline.started(&mut run, out.is_some());
                    stream = out;
                }
                PipelineStep::Drain => {
                    let captured = Pipeline::capture(stream.take().unwrap_or_default());
                    if let Some(bytes) = captured.binary {
                        self.stdout.extend(bytes);
                    }
                    return Ok(captured.output);
                }
                PipelineStep::Done => return Ok(String::new()),
            }
        }
    }

    fn run(&mut self, node: &Runnable) -> Result<String, String> {
        if self.exited {
            return Ok(String::new());
        }
        match node {
            Runnable::Command(command) => {
                let out = self.pipe(command, None)?;
                Ok(Pipeline::capture(out.unwrap_or_default()).output)
            }
            Runnable::Pipeline(pipeline) => self.run_pipeline(pipeline),
            Runnable::AndSequence(sequence) => {
                let mut progress = sequence.start();
                while let Some(i) = sequence.next_child(&progress) {
                    let outcome = self.run(sequence.child(i));
                    let feedback = sequence.record(&mut progress, outcome);
                    self.write(feedback);
                }
                sequence.finish(progress)
            }
            Runnable::Sequence(sequence) => {
                let mut progress = sequence.start();
                while let Some(i) = sequence.next_child(&progress) {
                    let outcome = self.run(sequence.child(i));
                    let feedback = sequence.record(&mut progress, outcome);
                    self.write(feedback);
                }
                Ok(sequence.finish(progress))
            }
        }
    }

    fn line(&mut self, input: &str) {
        if self.exited {
            return;
        }
        let expanded = expand_aliases(input, &self.aliases);
        let outcome = match parse(expanded, &self.env) {
            Ok(root) => self.run(&Runnable::Sequence(root)),
            Err(e) => Err(e.message()),
        };
        let shown = conclude(&mut self.suggestion, outcome);
        if let Some(text) = shown.stdout {
            self.println(&text);
        }
        if let Some(text) = shown.stderr {
            self.eprintln(&text);
        }
    }
}

fn canonicalize_path(path: &str) -> String {
    path.to_string()
}

fn run_shell_command(input: &str) -> (String, String, String) {
    let mut host = Host::new();
    let input = input.to_string() + "\n";
    for line in input.lines() {
        host.line(line);
    }
    (
        String::from_utf8_lossy(&host.stdout).to_string().trim().to_string(),
        host.stderr.trim().to_string(),
        START.to_string(),
    )
}

#[test]
fn test_echo_command() {
    let (stdout, stderr, _) = run_shell_command("echo \"Hello, world!\"");
    assert_eq!(stdout, "Hello, world!");
    assert_eq!(stderr, "");
}

#[test]
fn test_and_sequence() {
    let (stdout, stderr, _) = run_shell_command("echo First && echo Second");
    assert_eq!(stdout, "First\nSecond");
    assert_eq!(stderr, "");
}

#[test]
fn test_and_sequence_error() {
    let (stdout, stderr, _) = run_shell_command("cd /nonexistent && echo Second");
    assert_eq!(stdout, "");
    assert!(!stderr.is_empty());
}

#[test]
fn test_pwd_command() {
    let (stdout, stderr, _) = run_shell_command("pwd");
    assert!(!stdout.is_empty());
    assert_eq!(stderr, "");
}

#[test]
fn test_exit_command() {
    let (stdout, stderr, _) = run_shell_command("exit");
    assert_eq!(stdout, "");
    assert_eq!(stderr, "");
}

#[test]
fn test_cd_command() {
    let (stdout, stderr, _) = run_shell_command("cd /tmp && pwd");
    assert_eq!(stdout, canonicalize_path("/tmp"));
    assert_eq!(stderr, "");
}

#[test]
fn test_cd_tilde_command() {
    let (stdout, stderr, _) = run_shell_command("cd ~ && pwd");
    assert_eq!(stdout, canonicalize_path(HOME));
    assert_eq!(stderr, "");
}

#[test]
fn test_cd_tilde_path() {
    let (stdout, stderr, _) = run_shell_command("cd ~/ && pwd");
    assert_eq!(stdout, canonicalize_path(HOME));
    assert_eq!(stderr, "");
}

#[test]
fn test_tilde_mkdir() {
    let (stdout, stderr, root) = run_shell_command("mkdir ~test && cd ~test && pwd");
    assert_eq!(stdout, format!("{}/~test", root));
    assert_eq!(stderr, "");
}

#[test]
fn test_tilde_echo() {
    let (stdout, stderr, _) = run_shell_command("echo ~");
    assert_eq!(stdout, HOME);
    assert_eq!(stderr, "");
}

#[test]
fn test_tilde_variable() {
    let (stdout, stderr, _) = run_shell_command("export FOO=BAR && echo ~$FOO");
    assert_eq!(stdout, "~BAR");
    assert_eq!(stderr, "");
}

#[test]
fn test_tilde_variable_value() {
    let (stdout, stderr, _) = run_shell_command("export FOO=~ && echo $FOO");
    assert_eq!(stdout, canonicalize_path(HOME));
    assert_eq!(stderr, "");
}

#[test]
fn test_tilde_variable_value_path() {
    let (stdout, stderr, _) = run_shell_command("export FOO=~/Documents && echo $FOO");
    assert_eq!(stdout, format!("{}/Documents", canonicalize_path(HOME)));
    assert_eq!(stderr, "");
}

#[test]
fn test_tilde_variable_value_literal() {
    let (stdout, stderr, _) = run_shell_command("export FOO=~Documents && echo $FOO");
    assert_eq!(stdout, "~Documents");
    assert_eq!(stderr, "");
}

#[test]
fn test_pipeline() {
    let (stdout, stderr, _) = run_shell_command("echo Hello | wc -c");
    assert_eq!(stdout, "6");
    assert_eq!(stderr, "");
}

#[test]
fn test_output_redirection() {
    let (stdout, stderr, _) = run_shell_command("echo Hello > test.txt && cat test.txt");
    assert_eq!(stdout, "Hello");
    assert_eq!(stderr, "");
}

#[test]
fn test_output_redirection_append() {
    let (stdout, stderr, _) = run_shell_command(
        "echo Hello > test.txt && \
         echo World >> test.txt && \
         cat test.txt",
    );
    assert_eq!(stdout, "Hello\nWorld");
    assert_eq!(stderr, "");
}

#[test]
fn test_input_redirection() {
    let (stdout, stderr, _) =
        run_shell_command("echo Hello > test.txt && sed 's/H/h/g' < test.txt");
    assert_eq!(stdout, "hello");
    assert_eq!(stderr, "");
}

#[test]
fn test_builtin_error() {
    let (stdout, stderr, _) = run_shell_command("cd /nonexistent");
    assert_eq!(stdout, "");
    assert!(!stderr.is_empty());
}

#[test]
fn test_external_command_error() {
    let (stdout, stderr, _) = run_shell_command("nonexistent_command");
    assert_eq!(stdout, "");
    assert!(!stderr.is_empty());
}

#[test]
fn test_non_utf8_output() {
    let (stdout, stderr, _) = run_shell_command("cat /dev/random | head -n 1");
    assert!(!stdout.is_empty());
    assert_eq!(stderr, "");
}

#[test]
fn test_export_command() {
    let (stdout, stderr, _) = run_shell_command("export FOO=BAR && echo $FOO");
    assert_eq!(stdout, "BAR");
    assert_eq!(stderr, "");
}

#[test]
fn test_export_command_semicolon() {
    let (stdout, stderr, _) = run_shell_command("export FOO=BAR; echo $FOO");
    assert_eq!(stdout, "BAR");
    assert_eq!(stderr, "");
}

#[test]
fn test_export_command_double_quotes() {
    let (stdout, stderr, _) = run_shell_command("export FOO=BAR && echo \"$FOO\"");
    assert_eq!(stdout, "BAR");
    assert_eq!(stderr, "");
}

#[test]
fn test_export_command_double_quotes_with_text() {
    let (stdout, stderr, _) = run_shell_command("export FOO=BAR && echo \"$FOO Hello, World!\"");
    assert_eq!(stdout, "BAR Hello, World!");
    assert_eq!(stderr, "");
}

#[test]
fn test_export_command_escaped() {
    let (stdout, stderr, _) = run_shell_command("export FOO=BAR && echo \\$FOO");
    assert_eq!(stdout, "$FOO");
    assert_eq!(stderr, "");
}

#[test]
fn test_export_command_single_quotes() {
    let (stdout, stderr, _) = run_shell_command("export FOO=BAR && echo '$FOO'");
    assert_eq!(stdout, "$FOO");
    assert_eq!(stderr, "");
}

#[test]
fn and_sequence_error_does_not_print_second() {
    let mut host = Host::new();
    host.line("cd /nonexistent && echo Second");
    assert!(host.stdout.is_empty());
    assert_eq!(host.stderr, "Error in command: Command failed: cd: no such directory\n");
    assert_eq!(host.cwd, START);
}

#[test]
fn and_sequence_runs_nothing_after_a_failure() {
    let mut host = Host::new();
    host.line("nonexistent_command && mkdir a && mkdir b");
    assert_eq!(host.ran, vec!["nonexistent_command".to_string()]);
    assert_eq!(host.dirs.len(), 4);
}

#[test]
fn and_sequence_prints_what_came_before_a_failure() {
    let mut host = Host::new();
    host.line("echo First && cd /nonexistent && echo Third");
    assert_eq!(String::from_utf8_lossy(&host.stdout), "First\n");
    assert_eq!(host.stderr, "Error in command: Command failed: cd: no such directory\n");
}

#[test]
fn sequence_goes_on_after_a_failure() {
    let mut host = Host::new();
    host.line("cd /nonexistent; echo Second");
    assert_eq!(String::from_utf8_lossy(&host.stdout), "Second\n");
    assert_eq!(host.stderr, "Error in command: Command failed: cd: no such directory\n");
}

#[test]
fn alias_defined_and_used_in_one_line() {
    let (stdout, stderr, _) = run_shell_command("alias greet='echo \"Hello, World!\"' && greet");
    assert_eq!(stdout, "Hello, World!");
    assert_eq!(stderr, "");
}

#[test]
fn alias_defined_twice_keeps_the_last_value() {
    let (stdout, stderr, _) =
        run_shell_command("alias a='echo A' && alias a='echo B' && alias a");
    assert_eq!(stdout, "a='echo B'");
    assert_eq!(stderr, "");
}

#[test]
fn alias_is_used_on_the_next_line() {
    let mut host = Host::new();
    host.line("alias hi='echo Hi there'");
    host.line("hi");
    assert_eq!(String::from_utf8_lossy(&host.stdout), "Hi there\n");
    assert_eq!(host.stderr, "");
}

#[test]
fn alias_in_a_pipeline_gives_its_list() {
    let mut host = Host::new();
    host.line("alias a=b");
    host.line("alias | cat");
    assert_eq!(String::from_utf8_lossy(&host.stdout), "a='b'\n");
}

#[test]
fn shell_goes_on_after_an_unknown_command() {
    let mut host = Host::new();
    host.line("nonexistent_command");
    assert!(host.stdout.is_empty());
    assert!(!host.stderr.is_empty());
    host.line("echo still here");
    assert_eq!(String::from_utf8_lossy(&host.stdout), "still here\n");
}

#[test]
fn shell_goes_on_after_a_syntax_error() {
    let mut host = Host::new();
    host.line("echo 'unclosed");
    assert_eq!(host.stderr, "Error in command: Unclosed quote\n");
    host.line("echo ok");
    assert_eq!(String::from_utf8_lossy(&host.stdout), "ok\n");
}

#[test]
fn single_stage_pipeline_gives_output_less_one_newline() {
    let mut host = Host::new();
    host.files.insert(format!("{}/two", START), b"line\n\n".to_vec());
    let root = parse("cat two".to_string(), &host.env).unwrap();
    let out = host.run(root.child(0)).unwrap();
    assert_eq!(out, "line\n");
}

#[test]
fn output_redirection_leaves_nothing_to_the_next_stage() {
    let mut host = Host::new();
    host.line("echo Hello > a.txt | wc -c");
    assert_eq!(String::from_utf8_lossy(&host.stdout), "0\n");
    assert_eq!(host.files[&format!("{}/a.txt", START)], b"Hello\n".to_vec());
}

#[test]
fn stacked_redirections_wrap_one_another() {
    let mut host = Host::new();
    host.line("echo Hello > a.txt > b.txt");
    assert_eq!(host.files[&format!("{}/a.txt", START)], b"Hello\n".to_vec());
    assert_eq!(host.files[&format!("{}/b.txt", START)], Vec::<u8>::new());
}

#[test]
fn unset_removes_a_variable() {
    let (stdout, stderr, _) = run_shell_command("export FOO=BAR && unset FOO && echo x$FOO");
    assert_eq!(stdout, "x");
    assert_eq!(stderr, "");
}

#[test]
fn prompt_in_double_quotes_proposes_a_command() {
    let mut host = Host::new();
    host.env.insert("OPENAI_API_KEY".to_string(), "SECRET-REDACTED".to_string());
    host.line("\"list files\"");
    assert!(host.stdout.is_empty());
    assert_eq!(host.suggestion, "echo list files");
    host.line("echo done");
    assert_eq!(host.suggestion, "");
}

#[test]
fn prompt_without_a_key_is_refused() {
    let mut host = Host::new();
    host.line("\"list files\"");
    assert_eq!(
        host.stderr,
        "Error in command: Invalid OPENAI_API_KEY: OPENAI_API_KEY not set\n"
    );
}
