//! The tree that the parser builds, as a mathematical value.

use crate::token::TokenView;
use vstd::prelude::*;

verus! {

/// A node of the tree over sequences: the view of every command, redirection,
/// pipeline and sequence.
pub enum NodeView {
    /// A built-in command and its words.
    Builtin(Seq<TokenView>),
    /// An external program and its words.
    External(Seq<TokenView>),
    /// A prompt for the text-generation service, with the key it is sent
    /// under.
    Llm { prompt: Seq<char>, api_key: Seq<char> },
    /// A command that reads from a file.
    InputRedirect(Box<NodeView>, Seq<char>),
    /// A command whose output replaces a file.
    OutputRedirect(Box<NodeView>, Seq<char>),
    /// A command whose output is added to a file.
    OutputRedirectAppend(Box<NodeView>, Seq<char>),
    /// Stages, each reading what the one before it writes.
    Pipeline(Seq<NodeView>),
    /// Nodes run in order until one fails.
    AndSequence(Seq<NodeView>),
    /// Nodes run in order, whatever becomes of each.
    Sequence(Seq<NodeView>),
}

impl NodeView {
    /// Whether the node is a stage, which can stand in a pipeline: a command
    /// with a name, a request, or a redirection around a stage.
    pub open spec fn is_stage(self) -> bool
        decreases self,
    {
        match self {
            NodeView::Builtin(words) => words.len() > 0,
            NodeView::External(words) => words.len() > 0,
            NodeView::Llm { prompt, api_key } => true,
            NodeView::InputRedirect(inner, file) => inner.is_stage(),
            NodeView::OutputRedirect(inner, file) => inner.is_stage(),
            NodeView::OutputRedirectAppend(inner, file) => inner.is_stage(),
            _ => false,
        }
    }

    /// Whether the node is a pipeline of one stage or more.
    pub open spec fn is_pipeline(self) -> bool {
        self matches NodeView::Pipeline(stages) && stages.len() >= 1 && forall|k: int|
            0 <= k < stages.len() ==> (#[trigger] stages[k]).is_stage()
    }

    /// Whether the node is a statement: a pipeline, or an and-sequence of two
    /// pipelines or more.
    pub open spec fn is_statement(self) -> bool {
        ||| self.is_pipeline()
        ||| (self matches NodeView::AndSequence(nodes) && nodes.len() >= 2 && forall|k: int|
            0 <= k < nodes.len() ==> (#[trigger] nodes[k]).is_pipeline())
    }

    /// Whether the node is what the parser gives for a line: a sequence of
    /// statements.
    pub open spec fn is_program(self) -> bool {
        self matches NodeView::Sequence(nodes) && forall|k: int|
            0 <= k < nodes.len() ==> (#[trigger] nodes[k]).is_statement()
    }
}

} // verus!
