use aish::command::{CommandType, ExternalCommand};
use aish::pipeline::{strip_newline, Captured, Pipeline, PipelineRun, PipelineStep};
use aish::runnable::Runnable;
use aish::sequence::{AndSequence, Sequence};
use aish::token::Token;

fn node(name: &str) -> Runnable {
    Runnable::Pipeline(Pipeline::init(vec![stage(name)]))
}

fn stage(name: &str) -> CommandType {
    CommandType::External(ExternalCommand::new(vec![Token::Plain(name.to_string())]).unwrap())
}

fn ok(s: &str) -> Result<String, String> {
    Ok(s.to_string())
}

fn err(s: &str) -> Result<String, String> {
    Err(s.to_string())
}

struct Trace {
    ran: Vec<usize>,
    printed: Vec<String>,
    reported: Vec<String>,
}

fn run_and(outcomes: Vec<Result<String, String>>) -> (Trace, Result<String, String>) {
    let sequence = AndSequence::init(outcomes.iter().map(|_| node("x")).collect());
    let mut trace = Trace { ran: vec![], printed: vec![], reported: vec![] };
    let mut progress = sequence.start();
    while let Some(i) = sequence.next_child(&progress) {
        trace.ran.push(i);
        let feedback = sequence.record(&mut progress, outcomes[i].clone());
        trace.printed.extend(feedback.print);
        trace.reported.extend(feedback.report);
    }
    (trace, sequence.finish(progress))
}

fn run_all(outcomes: Vec<Result<String, String>>) -> (Trace, String) {
    let sequence = Sequence::init(outcomes.iter().map(|_| node("x")).collect());
    let mut trace = Trace { ran: vec![], printed: vec![], reported: vec![] };
    let mut progress = sequence.start();
    while let Some(i) = sequence.next_child(&progress) {
        trace.ran.push(i);
        let feedback = sequence.record(&mut progress, outcomes[i].clone());
        trace.printed.extend(feedback.print);
        trace.reported.extend(feedback.report);
    }
    (trace, sequence.finish(progress))
}

#[test]
fn and_sequence_runs_all_while_none_fails() {
    let (trace, result) = run_and(vec![ok("First"), ok(""), ok("Third")]);
    assert_eq!(trace.ran, vec![0, 1, 2]);
    assert_eq!(trace.printed, vec!["First".to_string()]);
    assert!(trace.reported.is_empty());
    assert_eq!(result, ok("Third"));
}

#[test]
fn and_sequence_stops_at_the_first_failure() {
    let (trace, result) = run_and(vec![err("a failed"), ok("b"), ok("c")]);
    assert_eq!(trace.ran, vec![0]);
    assert!(trace.printed.is_empty());
    assert!(trace.reported.is_empty());
    assert_eq!(result, err("a failed"));

    let (trace, result) = run_and(vec![ok("a"), err("b failed"), ok("c"), err("d failed")]);
    assert_eq!(trace.ran, vec![0, 1]);
    assert_eq!(trace.printed, vec!["a".to_string()]);
    assert_eq!(result, err("b failed"));
}

#[test]
fn and_sequence_without_nodes_gives_nothing() {
    let (trace, result) = run_and(vec![]);
    assert!(trace.ran.is_empty());
    assert_eq!(result, ok(""));
}

#[test]
fn sequence_runs_every_node_and_gives_the_last_output() {
    let (trace, result) = run_all(vec![ok("a"), err("b failed"), ok(""), ok("d"), ok("")]);
    assert_eq!(trace.ran, vec![0, 1, 2, 3, 4]);
    assert_eq!(trace.printed, vec!["a".to_string()]);
    assert_eq!(trace.reported, vec!["b failed".to_string()]);
    assert_eq!(result, "d");

    let (trace, result) = run_all(vec![err("x"), err("y")]);
    assert_eq!(trace.ran, vec![0, 1]);
    assert_eq!(trace.reported, vec!["x".to_string(), "y".to_string()]);
    assert_eq!(result, "");
}

#[test]
fn progress_counts_the_nodes_that_ran() {
    let sequence = Sequence::init(vec![node("a"), node("b")]);
    let mut progress = sequence.start();
    assert_eq!((progress.next, progress.held.as_str(), &progress.failure), (0, "", &None));
    sequence.record(&mut progress, ok("out"));
    assert_eq!((progress.next, progress.held.as_str(), &progress.failure), (1, "out", &None));
    assert_eq!(sequence.next_child(&progress), Some(1));
    sequence.record(&mut progress, err("bad"));
    assert_eq!((progress.next, progress.held.as_str(), &progress.failure), (2, "out", &None));
    assert_eq!(sequence.next_child(&progress), None);

    let sequence = AndSequence::init(vec![node("a"), node("b"), node("c")]);
    let mut progress = sequence.start();
    sequence.record(&mut progress, ok("out"));
    let feedback = sequence.record(&mut progress, err("bad"));
    assert_eq!(feedback.print, Some("out".to_string()));
    assert_eq!(feedback.report, None);
    assert_eq!(progress.next, 2);
    assert_eq!(progress.held, "");
    assert_eq!(progress.failure, Some("bad".to_string()));
    assert_eq!(sequence.next_child(&progress), None);
}

#[test]
fn pipeline_starts_each_stage_on_the_output_of_the_one_before() {
    let pipeline = Pipeline::init(vec![stage("a"), stage("b"), stage("c")]);
    let mut run = pipeline.start();
    assert_eq!(run, PipelineRun { next: 0, stream: false });
    assert_eq!(pipeline.next_step(&run), PipelineStep::Pipe { stage: 0, piped: false });
    pipeline.started(&mut run, true);
    assert_eq!(pipeline.next_step(&run), PipelineStep::Pipe { stage: 1, piped: true });
    pipeline.started(&mut run, false);
    assert_eq!(pipeline.next_step(&run), PipelineStep::Pipe { stage: 2, piped: false });
    pipeline.started(&mut run, true);
    assert_eq!(run, PipelineRun { next: 3, stream: true });
    assert_eq!(pipeline.next_step(&run), PipelineStep::Drain);
}

#[test]
fn pipeline_of_one_stage_reads_what_the_stage_wrote() {
    let pipeline = Pipeline::init(vec![stage("a")]);
    let mut run = pipeline.start();
    assert_eq!(pipeline.next_step(&run), PipelineStep::Pipe { stage: 0, piped: false });
    pipeline.started(&mut run, true);
    assert_eq!(pipeline.next_step(&run), PipelineStep::Drain);
    assert_eq!(Pipeline::capture(b"Hello\n".to_vec()).output, "Hello");
}

#[test]
fn pipeline_has_nothing_to_read_after_a_stage_without_output() {
    let pipeline = Pipeline::init(vec![stage("a")]);
    let mut run = pipeline.start();
    pipeline.started(&mut run, false);
    assert_eq!(pipeline.next_step(&run), PipelineStep::Done);
    let empty = Pipeline::new();
    assert_eq!(empty.next_step(&empty.start()), PipelineStep::Done);
    assert_eq!(empty.next_step(&PipelineRun { next: 0, stream: true }), PipelineStep::Done);
}

#[test]
fn capture_takes_exactly_one_newline_off() {
    let text = |s: &str| Pipeline::capture(s.as_bytes().to_vec());
    assert_eq!(text("Hello\n"), Captured { output: "Hello".to_string(), binary: None });
    assert_eq!(text("Hello"), Captured { output: "Hello".to_string(), binary: None });
    assert_eq!(text("Hello\n\n").output, "Hello\n");
    assert_eq!(text("a\nb\n").output, "a\nb");
    assert_eq!(text("\n").output, "");
    assert_eq!(text("").output, "");
    assert_eq!(text("héllo wörld ✓\n").output, "héllo wörld ✓");
    assert_eq!(strip_newline("x\r\n".to_string()), "x\r");
    assert_eq!(Captured::text("6\n".to_string()).output, "6");
}

#[test]
fn capture_keeps_bytes_that_are_no_text() {
    let bytes = vec![b'a', 0xff, b'b', b'\n'];
    let captured = Pipeline::capture(bytes.clone());
    assert_eq!(captured.output, "a\u{fffd}b\n");
    assert_eq!(captured.binary, Some(bytes));
    let bytes = vec![0xe2, 0x82];
    let captured = Pipeline::capture(bytes.clone());
    assert_eq!(captured.output, "\u{fffd}");
    assert_eq!(captured.binary, Some(bytes.clone()));
    assert_eq!(
        Captured::bytes(bytes.clone(), "?".to_string()),
        Captured { output: "?".to_string(), binary: Some(bytes) }
    );
}
