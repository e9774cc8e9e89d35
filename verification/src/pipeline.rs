//! The pipeline: stages of which each reads what the one before it writes.

use crate::command::{stage_views, CommandType};
use crate::node::NodeView;
use vstd::prelude::*;
use vstd::utf8::{decode_utf8, valid_utf8};

verus! {

/// The text that `String::from_utf8_lossy` makes of `bytes`.
pub uninterp spec fn lossy_text(bytes: Seq<u8>) -> Seq<char>;

/// `String::from_utf8`: the text that `bytes` encode, where they are valid
/// UTF-8, and nothing where they are not.
#[verifier::external_body]
fn text_of(bytes: &Vec<u8>) -> (r: Option<String>)
    ensures
        r is Some <==> valid_utf8(bytes@),
        r is Some ==> r.unwrap()@ == decode_utf8(bytes@),
{
    String::from_utf8(bytes.clone()).ok()
}

/// `String::from_utf8_lossy`: a text for any bytes, with the replacement
/// character in place of what is no valid UTF-8.
#[verifier::external_body]
fn lossy_text_of(bytes: &Vec<u8>) -> (r: String)
    ensures
        r@ == lossy_text(bytes@),
{
    String::from_utf8_lossy(bytes).into_owned()
}

/// `text` without the newline at its end, if it ends in one.
pub open spec fn stripped(text: Seq<char>) -> Seq<char> {
    if text.len() > 0 && text.last() == '\n' {
        text.drop_last()
    } else {
        text
    }
}

/// Takes one newline off the end of `text`, if it ends in one.
pub fn strip_newline(text: String) -> (r: String)
    ensures
        r@ == stripped(text@),
{
    let chars = crate::text::to_chars(text.as_str());
    let n = chars.len();
    if n > 0 && chars[n - 1] == '\n' {
        crate::text::from_chars(&chars, 0, n - 1)
    } else {
        text
    }
}

/// What a pipeline gives once the output of its last stage has been read.
#[derive(Debug, PartialEq)]
pub struct Captured {
    /// The output of the pipeline as text.
    pub output: String,
    /// The bytes to write to the standard output as they are, where they are
    /// no text.
    pub binary: Option<Vec<u8>>,
}

impl Captured {
    /// What a pipeline gives where its last stage wrote the text `text`:
    /// the text without one newline at its end, and nothing to write as it
    /// is.
    pub fn text(text: String) -> (r: Captured)
        ensures
            r.output@ == stripped(text@),
            r.binary is None,
    {
        Captured { output: strip_newline(text), binary: None }
    }

    /// What a pipeline gives where its last stage wrote `bytes` that are no
    /// text, and `lossy` is the text made of them: that text, and the bytes
    /// to write as they are.
    pub fn bytes(bytes: Vec<u8>, lossy: String) -> (r: Captured)
        ensures
            r.output == lossy,
            r.binary == Some(bytes),
    {
        Captured { output: lossy, binary: Some(bytes) }
    }
}

/// The output of a pipeline whose last stage wrote `bytes`: where they are
/// valid UTF-8, their text without one newline at its end; elsewhere the
/// text that a lossy conversion makes of them.
pub open spec fn captured_output(bytes: Seq<u8>) -> Seq<char> {
    if valid_utf8(bytes) {
        stripped(decode_utf8(bytes))
    } else {
        lossy_text(bytes)
    }
}

/// What a pipeline does next.
#[derive(Clone, Copy, Debug, PartialEq, Eq, Structural)]
pub enum PipelineStep {
    /// Start the stage at `stage`. With `piped` it reads what the stage
    /// before it wrote; without, it has no input from the pipeline.
    Pipe { stage: usize, piped: bool },
    /// Read what the last stage wrote, to its end, and hand it to `capture`.
    Drain,
    /// The last stage wrote nothing that can be read: the output is empty.
    Done,
}

/// How far the run of a pipeline has come.
#[derive(Clone, Copy, Debug, PartialEq, Eq, Structural)]
pub struct PipelineRun {
    /// How many stages have been started.
    pub next: usize,
    /// Whether the stage started last has handed over an output to read.
    pub stream: bool,
}

/// What a pipeline of `n` stages does next: it starts each stage in its
/// turn, the first without input and each other on what the one before it
/// handed over; after the last it reads what that one handed over.
pub open spec fn step_spec(run: PipelineRun, n: nat) -> PipelineStep {
    if run.next < n {
        PipelineStep::Pipe { stage: run.next, piped: run.next > 0 && run.stream }
    } else if n > 0 && run.stream {
        PipelineStep::Drain
    } else {
        PipelineStep::Done
    }
}

/// Stages in the order in which data flows through them.
#[derive(Debug, PartialEq)]
pub struct Pipeline {
    commands: Vec<CommandType>,
}

impl View for Pipeline {
    type V = NodeView;

    closed spec fn view(&self) -> NodeView {
        NodeView::Pipeline(stage_views(self.commands@))
    }
}

impl Default for Pipeline {
    fn default() -> (r: Pipeline)
        ensures
            r.stages() == Seq::<NodeView>::empty(),
    {
        Pipeline::new()
    }
}

impl Clone for Pipeline {
    fn clone(&self) -> (r: Pipeline)
        ensures
            r.stages() == self.stages(),
    {
        let mut commands: Vec<CommandType> = Vec::new();
        let mut i: usize = 0;
        while i < self.commands.len()
            invariant
                i <= self.commands.len(),
                commands@.len() == i,
                forall|k: int| 0 <= k < i ==> commands@[k]@ == self.commands@[k]@,
            decreases self.commands.len() - i,
        {
            commands.push(self.commands[i].clone());
            i += 1;
        }
        assert(stage_views(commands@) =~= stage_views(self.commands@));
        Pipeline { commands }
    }
}

impl Pipeline {
    /// The stages.
    pub closed spec fn stages(&self) -> Seq<NodeView> {
        stage_views(self.commands@)
    }

    /// A pipeline without stages.
    pub fn new() -> (r: Pipeline)
        ensures
            r.stages() == Seq::<NodeView>::empty(),
    {
        let r = Pipeline { commands: Vec::new() };
        assert(r.stages() =~= Seq::<NodeView>::empty());
        r
    }

    /// The pipeline of `commands`.
    pub fn init(commands: Vec<CommandType>) -> (r: Pipeline)
        ensures
            r.stages() == stage_views(commands@),
    {
        Pipeline { commands }
    }

    /// Adds `command` as the last stage.
    pub fn add(&mut self, command: CommandType) -> (r: &mut Pipeline)
        ensures
            r.stages() == old(self).stages().push(command@),
            *final(self) == *final(r),
    {
        assert(stage_views(self.commands@.push(command)) =~= stage_views(self.commands@).push(
            command@,
        ));
        self.commands.push(command);
        self
    }

    /// Hands the stages over as a pipeline of their own and leaves this one
    /// without stages.
    pub fn transfer(&mut self) -> (r: Pipeline)
        ensures
            r.stages() == old(self).stages(),
            final(self).stages() == Seq::<NodeView>::empty(),
    {
        let mut commands: Vec<CommandType> = Vec::new();
        std::mem::swap(&mut commands, &mut self.commands);
        assert(self.stages() =~= Seq::<NodeView>::empty());
        Pipeline { commands }
    }

    /// Removes the stages.
    pub fn clear(&mut self) -> (r: &mut Pipeline)
        ensures
            r.stages() == Seq::<NodeView>::empty(),
            *final(self) == *final(r),
    {
        self.commands = Vec::new();
        assert(self.stages() =~= Seq::<NodeView>::empty());
        self
    }

    /// The number of stages.
    pub fn len(&self) -> (r: usize)
        ensures
            r == self.stages().len(),
    {
        self.commands.len()
    }

    /// The stage at `index`.
    pub fn stage(&self, index: usize) -> (r: &CommandType)
        requires
            index < self.stages().len(),
        ensures
            r@ == self.stages()[index as int],
    {
        &self.commands[index]
    }

    /// The run of a pipeline of which no stage has been started.
    pub fn start(&self) -> (r: PipelineRun)
        ensures
            r == (PipelineRun { next: 0, stream: false }),
    {
        PipelineRun { next: 0, stream: false }
    }

    /// What to do next.
    pub fn next_step(&self, run: &PipelineRun) -> (r: PipelineStep)
        ensures
            r == step_spec(*run, self.stages().len()),
            r matches PipelineStep::Pipe { stage, .. } ==> stage < self.stages().len(),
    {
        let n = self.commands.len();
        if run.next < n {
            PipelineStep::Pipe { stage: run.next, piped: run.next > 0 && run.stream }
        } else if n > 0 && run.stream {
            PipelineStep::Drain
        } else {
            PipelineStep::Done
        }
    }

    /// Takes note that the stage which `next_step` gave has been started,
    /// and of whether it handed over an output to read.
    pub fn started(&self, run: &mut PipelineRun, stream: bool)
        requires
            old(run).next < self.stages().len(),
        ensures
            *final(run) == (PipelineRun { next: (old(run).next + 1) as usize, stream }),
    {
        let n = self.commands.len();
        run.next = run.next + 1;
        run.stream = stream;
    }

    /// What the pipeline gives for the bytes that its last stage wrote.
    pub fn capture(bytes: Vec<u8>) -> (r: Captured)
        ensures
            r.output@ == captured_output(bytes@),
            valid_utf8(bytes@) ==> r.binary is None,
            !valid_utf8(bytes@) ==> r.binary == Some(bytes),
    {
        match text_of(&bytes) {
            Some(text) => Captured::text(text),
            None => {
                let lossy = lossy_text_of(&bytes);
                Captured::bytes(bytes, lossy)
            },
        }
    }
}

/// A pipeline of one stage starts that stage without input, reads all it
/// wrote, and gives it as its output, less one newline at the end if there
/// is one: where the stage prints `text`, the pipeline gives `text` without
/// that newline.
pub proof fn lemma_single_stage_output(text: Seq<char>)
    ensures
        step_spec(PipelineRun { next: 0, stream: false }, 1) == (PipelineStep::Pipe {
            stage: 0,
            piped: false,
        }),
        step_spec(PipelineRun { next: 1, stream: true }, 1) == PipelineStep::Drain,
        captured_output(vstd::utf8::encode_utf8(text)) == stripped(text),
        text.len() > 0 && text.last() == '\n' ==> captured_output(vstd::utf8::encode_utf8(text))
            == text.drop_last(),
        !(text.len() > 0 && text.last() == '\n') ==> captured_output(
            vstd::utf8::encode_utf8(text),
        ) == text,
{
    vstd::utf8::encode_utf8_valid_utf8(text);
    vstd::utf8::encode_utf8_decode_utf8(text);
}

} // verus!
