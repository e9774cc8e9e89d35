//! The two sequences: one runs all its nodes, the other stops at the first
//! that fails.

use crate::node::NodeView;
use crate::runnable::{node_views, Runnable};
use vstd::prelude::*;

verus! {

/// How the run of a node ended: with its output, or with the reason of its
/// failure.
pub type Outcome = Result<Seq<char>, Seq<char>>;

/// How far the run of a sequence has come.
#[derive(Debug)]
pub struct Progress {
    /// How many nodes have been run.
    pub next: usize,
    /// The output that the sequence would give if it ended here: the last
    /// output of a node that was not empty.
    pub held: String,
    /// Why the sequence has stopped, if it has.
    pub failure: Option<String>,
}

/// A `Progress` over sequences of characters.
pub struct ProgressView {
    pub next: nat,
    pub held: Seq<char>,
    pub failure: Option<Seq<char>>,
}

impl View for Progress {
    type V = ProgressView;

    open spec fn view(&self) -> ProgressView {
        ProgressView {
            next: self.next as nat,
            held: self.held@,
            failure: match self.failure {
                Some(why) => Some(why@),
                None => None,
            },
        }
    }
}

/// What the embedding program writes after a node has run.
#[derive(Debug)]
pub struct Feedback {
    /// For the standard output: an earlier output that a later one has taken
    /// the place of, or that a failure has cut off.
    pub print: Option<String>,
    /// For the standard error: the failure of a node that the sequence goes
    /// on after.
    pub report: Option<String>,
}

/// A `Feedback` over sequences of characters.
pub struct FeedbackView {
    pub print: Option<Seq<char>>,
    pub report: Option<Seq<char>>,
}

impl View for Feedback {
    type V = FeedbackView;

    open spec fn view(&self) -> FeedbackView {
        FeedbackView {
            print: match self.print {
                Some(text) => Some(text@),
                None => None,
            },
            report: match self.report {
                Some(text) => Some(text@),
                None => None,
            },
        }
    }
}

/// The progress of a sequence of which no node has run.
pub open spec fn started() -> ProgressView {
    ProgressView { next: 0, held: Seq::empty(), failure: None }
}

/// The text, if it is not empty.
pub open spec fn shown(text: Seq<char>) -> Option<Seq<char>> {
    if text.len() > 0 {
        Some(text)
    } else {
        None
    }
}

/// The node that a sequence of `n` nodes runs next: the one after the last
/// that ran, unless all have run or the sequence has stopped.
pub open spec fn next_node(p: ProgressView, n: nat) -> Option<nat> {
    if p.failure is None && p.next < n {
        Some(p.next)
    } else {
        None
    }
}

/// The progress after one more node has run and ended with `outcome`.
///
/// An output that is not empty becomes the output held. A failure stops an
/// and-sequence (`stops`), which then holds no output; any other sequence
/// goes on as if nothing had been run.
pub open spec fn advanced(p: ProgressView, outcome: Outcome, stops: bool) -> ProgressView {
    match outcome {
        Ok(output) => ProgressView {
            next: p.next + 1,
            held: if output.len() > 0 {
                output
            } else {
                p.held
            },
            failure: p.failure,
        },
        Err(why) => if stops {
            ProgressView { next: p.next + 1, held: Seq::empty(), failure: Some(why) }
        } else {
            ProgressView { next: p.next + 1, held: p.held, failure: p.failure }
        },
    }
}

/// What is written after one more node has run and ended with `outcome`.
///
/// The output held is printed when a new one takes its place and when a
/// failure stops the sequence. A failure that does not stop the sequence is
/// reported.
pub open spec fn written(p: ProgressView, outcome: Outcome, stops: bool) -> FeedbackView {
    match outcome {
        Ok(output) => FeedbackView {
            print: if output.len() > 0 {
                shown(p.held)
            } else {
                None
            },
            report: None,
        },
        Err(why) => if stops {
            FeedbackView { print: shown(p.held), report: None }
        } else {
            FeedbackView { print: None, report: Some(why) }
        },
    }
}

/// The result of a sequence that has come as far as `p`: the failure that
/// stopped it, else the output held.
pub open spec fn concluded(p: ProgressView) -> Outcome {
    match p.failure {
        Some(why) => Err(why),
        None => Ok(p.held),
    }
}

/// The progress of a sequence whose nodes end as `outcomes` say, one after
/// the other, for as long as the sequence runs a next node.
pub open spec fn run_through(p: ProgressView, outcomes: Seq<Outcome>, stops: bool) -> ProgressView
    decreases outcomes.len() - p.next,
{
    match next_node(p, outcomes.len()) {
        Some(i) => run_through(advanced(p, outcomes[i as int], stops), outcomes, stops),
        None => p,
    }
}

/// The nodes of a sequence that are run, where they would end as `outcomes`
/// say: the places in `outcomes` that the run passes.
pub open spec fn nodes_run(p: ProgressView, outcomes: Seq<Outcome>, stops: bool) -> Set<nat>
    decreases outcomes.len() - p.next,
{
    match next_node(p, outcomes.len()) {
        Some(i) => nodes_run(advanced(p, outcomes[i as int], stops), outcomes, stops).insert(i),
        None => Set::empty(),
    }
}

/// The last output among `outcomes` that is not empty, and the empty text
/// where there is none.
pub open spec fn last_output(outcomes: Seq<Outcome>) -> Seq<char>
    decreases outcomes.len(),
{
    if outcomes.len() == 0 {
        Seq::empty()
    } else {
        match outcomes.last() {
            Ok(output) => if output.len() > 0 {
                output
            } else {
                last_output(outcomes.drop_last())
            },
            Err(_) => last_output(outcomes.drop_last()),
        }
    }
}

fn begin() -> (r: Progress)
    ensures
        r@ == started(),
{
    Progress { next: 0, held: String::new(), failure: None }
}

fn next_of(p: &Progress, n: usize) -> (r: Option<usize>)
    ensures
        match next_node(p@, n as nat) {
            Some(i) => r == Some(i as usize),
            None => r is None,
        },
{
    if p.failure.is_none() && p.next < n {
        Some(p.next)
    } else {
        None
    }
}

fn record_in(p: &mut Progress, outcome: Result<String, String>, stops: bool) -> (r: Feedback)
    requires
        old(p).next < usize::MAX,
    ensures
        final(p)@ == advanced(
            old(p)@,
            match outcome {
                Ok(output) => Ok(output@),
                Err(why) => Err(why@),
            },
            stops,
        ),
        r@ == written(
            old(p)@,
            match outcome {
                Ok(output) => Ok(output@),
                Err(why) => Err(why@),
            },
            stops,
        ),
{
    p.next = p.next + 1;
    match outcome {
        Ok(output) => {
            if output.as_str().unicode_len() > 0 {
                let mut held = output;
                std::mem::swap(&mut held, &mut p.held);
                if held.as_str().unicode_len() > 0 {
                    Feedback { print: Some(held), report: None }
                } else {
                    Feedback { print: None, report: None }
                }
            } else {
                Feedback { print: None, report: None }
            }
        },
        Err(why) => {
            if stops {
                let mut held = String::new();
                std::mem::swap(&mut held, &mut p.held);
                p.failure = Some(why);
                if held.as_str().unicode_len() > 0 {
                    Feedback { print: Some(held), report: None }
                } else {
                    Feedback { print: None, report: None }
                }
            } else {
                Feedback { print: None, report: Some(why) }
            }
        },
    }
}

/// Nodes that are run in order, whatever becomes of each.
#[derive(Debug, PartialEq)]
pub struct Sequence {
    commands: Vec<Runnable>,
}

/// Nodes that are run in order until one fails.
#[derive(Debug, PartialEq)]
pub struct AndSequence {
    commands: Vec<Runnable>,
}

impl View for Sequence {
    type V = NodeView;

    open spec fn view(&self) -> NodeView {
        NodeView::Sequence(self.nodes())
    }
}

impl View for AndSequence {
    type V = NodeView;

    open spec fn view(&self) -> NodeView {
        NodeView::AndSequence(self.nodes())
    }
}

impl Default for Sequence {
    fn default() -> (r: Sequence)
        ensures
            r.children() == Seq::<Runnable>::empty(),
    {
        Sequence::new()
    }
}

impl Clone for Sequence {
    fn clone(&self) -> (r: Sequence)
        ensures
            r.nodes() == self.nodes(),
        decreases self,
    {
        let mut commands: Vec<Runnable> = Vec::new();
        let mut i: usize = 0;
        proof {
            self.lemma_children_decrease();
        }
        while i < self.commands.len()
            invariant
                i <= self.commands.len(),
                commands@.len() == i,
                decreases_to!(self => self.commands@),
                forall|k: int| 0 <= k < i ==> commands@[k]@ == self.commands@[k]@,
            decreases self.commands.len() - i,
        {
            commands.push(self.commands[i].clone());
            i += 1;
        }
        assert(node_views(commands@) =~= node_views(self.commands@));
        Sequence { commands }
    }
}

impl Sequence {
    /// The nodes.
    pub closed spec fn children(&self) -> Seq<Runnable> {
        self.commands@
    }

    /// The nodes are smaller than the sequence.
    pub proof fn lemma_children_decrease(&self)
        ensures
            decreases_to!(self => self.children()),
    {
    }

    /// The views of the nodes.
    pub open spec fn nodes(&self) -> Seq<NodeView> {
        node_views(self.children())
    }

    /// A sequence without nodes.
    pub fn new() -> (r: Sequence)
        ensures
            r.children() == Seq::<Runnable>::empty(),
    {
        Sequence { commands: Vec::new() }
    }

    /// The sequence of `commands`.
    pub fn init(commands: Vec<Runnable>) -> (r: Sequence)
        ensures
            r.children() == commands@,
    {
        Sequence { commands }
    }

    /// Adds `command` as the last node.
    pub fn add(&mut self, command: Runnable) -> (r: &mut Sequence)
        ensures
            r.children() == old(self).children().push(command),
            *final(self) == *final(r),
    {
        self.commands.push(command);
        self
    }

    /// Hands the nodes over as a sequence of their own and leaves this one
    /// without nodes.
    pub fn transfer(&mut self) -> (r: Sequence)
        ensures
            r.children() == old(self).children(),
            final(self).children() == Seq::<Runnable>::empty(),
    {
        let mut commands: Vec<Runnable> = Vec::new();
        std::mem::swap(&mut commands, &mut self.commands);
        Sequence { commands }
    }

    /// Removes the nodes.
    pub fn clear(&mut self) -> (r: &mut Sequence)
        ensures
            r.children() == Seq::<Runnable>::empty(),
            *final(self) == *final(r),
    {
        self.commands = Vec::new();
        self
    }

    /// The number of nodes.
    pub fn len(&self) -> (r: usize)
        ensures
            r == self.children().len(),
    {
        self.commands.len()
    }

    /// The node at `index`.
    pub fn child(&self, index: usize) -> (r: &Runnable)
        requires
            index < self.children().len(),
        ensures
            *r == self.children()[index as int],
    {
        &self.commands[index]
    }

    /// The progress of a run of which no node has run yet.
    pub fn start(&self) -> (r: Progress)
        ensures
            r@ == started(),
    {
        begin()
    }

    /// The node to run next, if any: each node in its turn, whatever became
    /// of those before it.
    pub fn next_child(&self, progress: &Progress) -> (r: Option<usize>)
        ensures
            match next_node(progress@, self.children().len()) {
                Some(i) => r == Some(i as usize),
                None => r is None,
            },
            r is Some ==> r.unwrap() < self.children().len(),
    {
        next_of(progress, self.commands.len())
    }

    /// Takes note of how the node that `next_child` gave has ended. A
    /// failure is handed back to be reported, and the run goes on.
    pub fn record(&self, progress: &mut Progress, outcome: Result<String, String>) -> (r: Feedback)
        requires
            next_node(old(progress)@, self.children().len()) is Some,
        ensures
            final(progress)@ == advanced(
                old(progress)@,
                match outcome {
                    Ok(output) => Ok(output@),
                    Err(why) => Err(why@),
                },
                false,
            ),
            r@ == written(
                old(progress)@,
                match outcome {
                    Ok(output) => Ok(output@),
                    Err(why) => Err(why@),
                },
                false,
            ),
    {
        let n = self.commands.len();
        record_in(progress, outcome, false)
    }

    /// The output of the run: the last output of a node that was not empty.
    pub fn finish(&self, progress: Progress) -> (r: String)
        ensures
            r@ == progress@.held,
    {
        progress.held
    }
}

impl Default for AndSequence {
    fn default() -> (r: AndSequence)
        ensures
            r.children() == Seq::<Runnable>::empty(),
    {
        AndSequence::new()
    }
}

impl Clone for AndSequence {
    fn clone(&self) -> (r: AndSequence)
        ensures
            r.nodes() == self.nodes(),
        decreases self,
    {
        let mut commands: Vec<Runnable> = Vec::new();
        let mut i: usize = 0;
        proof {
            self.lemma_children_decrease();
        }
        while i < self.commands.len()
            invariant
                i <= self.commands.len(),
                commands@.len() == i,
                decreases_to!(self => self.commands@),
                forall|k: int| 0 <= k < i ==> commands@[k]@ == self.commands@[k]@,
            decreases self.commands.len() - i,
        {
            commands.push(self.commands[i].clone());
            i += 1;
        }
        assert(node_views(commands@) =~= node_views(self.commands@));
        AndSequence { commands }
    }
}

impl AndSequence {
    /// The nodes.
    pub closed spec fn children(&self) -> Seq<Runnable> {
        self.commands@
    }

    /// The nodes are smaller than the sequence.
    pub proof fn lemma_children_decrease(&self)
        ensures
            decreases_to!(self => self.children()),
    {
    }

    /// The views of the nodes.
    pub open spec fn nodes(&self) -> Seq<NodeView> {
        node_views(self.children())
    }

    /// A sequence without nodes.
    pub fn new() -> (r: AndSequence)
        ensures
            r.children() == Seq::<Runnable>::empty(),
    {
        AndSequence { commands: Vec::new() }
    }

    /// The sequence of `commands`.
    pub fn init(commands: Vec<Runnable>) -> (r: AndSequence)
        ensures
            r.children() == commands@,
    {
        AndSequence { commands }
    }

    /// Adds `command` as the last node.
    pub fn add(&mut self, command: Runnable) -> (r: &mut AndSequence)
        ensures
            r.children() == old(self).children().push(command),
            *final(self) == *final(r),
    {
        self.commands.push(command);
        self
    }

    /// Hands the nodes over as a sequence of their own and leaves this one
    /// without nodes.
    pub fn transfer(&mut self) -> (r: AndSequence)
        ensures
            r.children() == old(self).children(),
            final(self).children() == Seq::<Runnable>::empty(),
    {
        let mut commands: Vec<Runnable> = Vec::new();
        std::mem::swap(&mut commands, &mut self.commands);
        AndSequence { commands }
    }

    /// Removes the nodes.
    pub fn clear(&mut self) -> (r: &mut AndSequence)
        ensures
            r.children() == Seq::<Runnable>::empty(),
            *final(self) == *final(r),
    {
        self.commands = Vec::new();
        self
    }

    /// The number of nodes.
    pub fn len(&self) -> (r: usize)
        ensures
            r == self.children().len(),
    {
        self.commands.len()
    }

    /// The node at `index`.
    pub fn child(&self, index: usize) -> (r: &Runnable)
        requires
            index < self.children().len(),
        ensures
            *r == self.children()[index as int],
    {
        &self.commands[index]
    }

    /// The progress of a run of which no node has run yet.
    pub fn start(&self) -> (r: Progress)
        ensures
            r@ == started(),
    {
        begin()
    }

    /// The node to run next, if any: each node in its turn, and none once a
    /// node has failed.
    pub fn next_child(&self, progress: &Progress) -> (r: Option<usize>)
        ensures
            match next_node(progress@, self.children().len()) {
                Some(i) => r == Some(i as usize),
                None => r is None,
            },
            r is Some ==> r.unwrap() < self.children().len(),
    {
        next_of(progress, self.commands.len())
    }

    /// Takes note of how the node that `next_child` gave has ended. A
    /// failure stops the run.
    pub fn record(&self, progress: &mut Progress, outcome: Result<String, String>) -> (r: Feedback)
        requires
            next_node(old(progress)@, self.children().len()) is Some,
        ensures
            final(progress)@ == advanced(
                old(progress)@,
                match outcome {
                    Ok(output) => Ok(output@),
                    Err(why) => Err(why@),
                },
                true,
            ),
            r@ == written(
                old(progress)@,
                match outcome {
                    Ok(output) => Ok(output@),
                    Err(why) => Err(why@),
                },
                true,
            ),
    {
        let n = self.commands.len();
        record_in(progress, outcome, true)
    }

    /// The result of the run: the failure that stopped it, else the last
    /// output of a node that was not empty.
    pub fn finish(&self, progress: Progress) -> (r: Result<String, String>)
        ensures
            match concluded(progress@) {
                Ok(output) => r is Ok && r.unwrap()@ == output,
                Err(why) => r is Err && r.unwrap_err()@ == why,
            },
    {
        match progress.failure {
            Some(why) => Err(why),
            None => Ok(progress.held),
        }
    }
}

/// Where the first node of an and-sequence fails, no other node is run: of
/// nodes that would end as `outcomes` say, the run passes the first alone,
/// and it ends in that failure.
pub proof fn lemma_and_sequence_short_circuits(outcomes: Seq<Outcome>)
    requires
        outcomes.len() > 0,
        outcomes[0] is Err,
    ensures
        nodes_run(started(), outcomes, true) == set![0nat],
        concluded(run_through(started(), outcomes, true)) == outcomes[0],
{
    let after = advanced(started(), outcomes[0], true);
    assert(next_node(started(), outcomes.len()) == Some(0nat));
    assert(next_node(after, outcomes.len()) is None);
    assert(nodes_run(after, outcomes, true) == Set::<nat>::empty());
    assert(run_through(after, outcomes, true) == after);
    assert(Set::<nat>::empty().insert(0nat) =~= set![0nat]);
}

/// An and-sequence runs its nodes up to the first that fails and no
/// further: every node that is run comes at or before the first failure.
pub proof fn lemma_and_sequence_runs_to_first_failure(
    p: ProgressView,
    outcomes: Seq<Outcome>,
    failed: nat,
    k: nat,
)
    requires
        p.next <= failed < outcomes.len(),
        outcomes[failed as int] is Err,
        nodes_run(p, outcomes, true).contains(k),
    ensures
        k <= failed,
    decreases outcomes.len() - p.next,
{
    match next_node(p, outcomes.len()) {
        Some(i) => {
            let q = advanced(p, outcomes[i as int], true);
            if k != i {
                if i == failed {
                    assert(next_node(q, outcomes.len()) is None);
                    assert(nodes_run(q, outcomes, true) == Set::<nat>::empty());
                } else {
                    lemma_and_sequence_runs_to_first_failure(q, outcomes, failed, k);
                }
            }
        },
        None => {},
    }
}

/// A sequence runs every node, and gives the last output that is not empty
/// of those that did not fail.
pub proof fn lemma_sequence_runs_all(outcomes: Seq<Outcome>, k: nat)
    requires
        k <= outcomes.len(),
    ensures
        run_through(advanced_through(outcomes, k), outcomes, false) == advanced_through(
            outcomes,
            outcomes.len(),
        ),
        advanced_through(outcomes, k).next == k,
        advanced_through(outcomes, k).failure is None,
        advanced_through(outcomes, k).held == last_output(outcomes.subrange(0, k as int)),
    decreases outcomes.len() - k,
{
    lemma_advanced_through(outcomes, k);
    if k < outcomes.len() {
        lemma_sequence_runs_all(outcomes, k + 1);
    }
}

/// The progress of a sequence that goes on after failures, once the first
/// `k` nodes have run.
pub open spec fn advanced_through(outcomes: Seq<Outcome>, k: nat) -> ProgressView
    decreases k,
{
    if k == 0 || k > outcomes.len() {
        started()
    } else {
        advanced(advanced_through(outcomes, (k - 1) as nat), outcomes[k - 1], false)
    }
}

/// What such a sequence holds once the first `k` nodes have run.
pub proof fn lemma_advanced_through(outcomes: Seq<Outcome>, k: nat)
    requires
        k <= outcomes.len(),
    ensures
        advanced_through(outcomes, k).next == k,
        advanced_through(outcomes, k).failure is None,
        advanced_through(outcomes, k).held == last_output(outcomes.subrange(0, k as int)),
    decreases k,
{
    if k > 0 {
        lemma_advanced_through(outcomes, (k - 1) as nat);
        let now = outcomes.subrange(0, k as int);
        assert(now.drop_last() == outcomes.subrange(0, k - 1));
        assert(now.last() == outcomes[k - 1]);
    }
}

} // verus!
