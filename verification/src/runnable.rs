//! The nodes that can be run: every node of the tree.

use crate::command::CommandType;
use crate::node::NodeView;
use crate::pipeline::Pipeline;
use crate::sequence::{AndSequence, Sequence};
use vstd::prelude::*;

verus! {

/// A node that can be run to completion.
#[derive(Debug, PartialEq)]
pub enum Runnable {
    Command(CommandType),
    Pipeline(Pipeline),
    AndSequence(AndSequence),
    Sequence(Sequence),
}

/// The views of a sequence of nodes.
pub open spec fn node_views(rs: Seq<Runnable>) -> Seq<NodeView>
    decreases rs,
{
    Seq::new(
        rs.len(),
        |i: int|
            if 0 <= i < rs.len() {
                node_view(rs[i])
            } else {
                NodeView::Sequence(Seq::empty())
            },
    )
}

impl View for Runnable {
    type V = NodeView;

    open spec fn view(&self) -> NodeView {
        node_view(*self)
    }
}

/// The view of a node.
pub open spec fn node_view(r: Runnable) -> NodeView
    decreases r,
    via node_view_decreases
{
    match r {
        Runnable::Command(c) => c@,
        Runnable::Pipeline(p) => NodeView::Pipeline(p.stages()),
        Runnable::AndSequence(s) => NodeView::AndSequence(node_views(s.children())),
        Runnable::Sequence(s) => NodeView::Sequence(node_views(s.children())),
    }
}

#[via_fn]
proof fn node_view_decreases(r: Runnable) {
    match r {
        Runnable::AndSequence(s) => s.lemma_children_decrease(),
        Runnable::Sequence(s) => s.lemma_children_decrease(),
        _ => {},
    }
}

impl Clone for Runnable {
    fn clone(&self) -> (r: Runnable)
        ensures
            r@ == self@,
        decreases self,
    {
        match self {
            Runnable::Command(c) => Runnable::Command(c.clone()),
            Runnable::Pipeline(p) => Runnable::Pipeline(p.clone()),
            Runnable::AndSequence(s) => Runnable::AndSequence(s.clone()),
            Runnable::Sequence(s) => Runnable::Sequence(s.clone()),
        }
    }
}

/// The views of a sequence with one more node.
pub proof fn lemma_node_views_push(rs: Seq<Runnable>, r: Runnable)
    ensures
        node_views(rs.push(r)) == node_views(rs).push(r@),
{
    assert(node_views(rs.push(r)) =~= node_views(rs).push(r@));
}

} // verus!
