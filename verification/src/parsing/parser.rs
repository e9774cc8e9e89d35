//! The parser: from tokens to the tree of nodes.
//!
//! ```text
//! top        := stmt (";" stmt)* ";"
//! stmt       := pipeline ("&&" pipeline)*
//! pipeline   := redirected ("|" redirected)*
//! redirected := cmd (("<" | ">" | ">>") word)*
//! cmd        := word+
//! ```
//!
//! The end of the tokens closes a statement as `;` does. A pipeline is a
//! node of its own even where it has one stage. A statement of one pipeline
//! is that pipeline; one of several is an and-sequence of them.

use crate::command::{command_spec, CommandType};
use crate::errors::{SyntaxError, SyntaxErrorView};
use crate::node::NodeView;
use crate::parsing::scanner::Scanner;
use crate::pipeline::Pipeline;
use crate::redirect::RedirectType;
use crate::runnable::{lemma_node_views_push, node_views, Runnable};
use crate::sequence::{AndSequence, Sequence};
use crate::table::{Entries, Table};
use crate::token::{lemma_views_empty, lemma_views_push, views, Token, TokenView, Tokens};
use vstd::prelude::*;

verus! {

/// Where the words end that start at `i`: at the first meta token from `i`
/// on, or at the end of the tokens.
pub open spec fn words_end(ts: Seq<TokenView>, i: int) -> int
    decreases ts.len() - i,
{
    if i < 0 || i >= ts.len() || ts[i] is Meta {
        i
    } else {
        words_end(ts, i + 1)
    }
}

/// Whether `t` ends a stage: `;`, `&&` and `|` do.
pub open spec fn ends_stage(t: TokenView) -> bool {
    t == TokenView::Meta(";"@) || t == TokenView::Meta("&&"@) || t == TokenView::Meta("|"@)
}

/// The file that a redirection names: the text of the word at `k`. There
/// must be a token at `k`, and it must be no meta token.
pub open spec fn path_spec(ts: Seq<TokenView>, k: int, env: Entries) -> Result<
    Seq<char>,
    SyntaxErrorView,
> {
    if k >= ts.len() {
        Err(SyntaxErrorView::ExpectedToken(Seq::empty()))
    } else if ts[k] is Meta {
        Err(SyntaxErrorView::UnexpectedToken(ts[k]->Meta_0))
    } else {
        Ok(ts[k].resolve(env))
    }
}

/// `node` with the redirections around it that start at `j`, each around the
/// ones before it, and the place where they end: the end of the tokens or a
/// token that ends the stage. Any other token there is refused.
pub open spec fn redirects_from(ts: Seq<TokenView>, j: int, node: NodeView, env: Entries)
    -> Result<(NodeView, int), SyntaxErrorView>
    decreases ts.len() - j,
    when j >= 0
{
    if j >= ts.len() || ends_stage(ts[j]) {
        Ok((node, j))
    } else if ts[j] is Meta && RedirectType::of(ts[j]->Meta_0) != RedirectType::NoRedirect {
        match path_spec(ts, j + 1, env) {
            Err(e) => Err(e),
            Ok(path) => redirects_from(
                ts,
                j + 2,
                RedirectType::of(ts[j]->Meta_0).around(node, path),
                env,
            ),
        }
    } else {
        Err(SyntaxErrorView::UnexpectedToken(ts[j].resolve(env)))
    }
}

/// The stage that starts at `i`: the command made of the words there, with
/// the redirections that follow, and the place where it ends.
pub open spec fn stage_spec(ts: Seq<TokenView>, i: int, env: Entries) -> Result<
    (NodeView, int),
    SyntaxErrorView,
> {
    match command_spec(ts.subrange(i, words_end(ts, i)), env) {
        Err(e) => Err(e),
        Ok(node) => redirects_from(ts, words_end(ts, i), node, env),
    }
}

/// The statement made of the pipelines `ands`, which `&&` followed, and of
/// the last one, `pipeline`.
pub open spec fn statement(ands: Seq<NodeView>, pipeline: NodeView) -> NodeView {
    if ands.len() == 0 {
        pipeline
    } else {
        NodeView::AndSequence(ands.push(pipeline))
    }
}

/// The tree of the tokens from `i` on, after the statements `done`, with
/// the pipelines `ands` of the statement in progress and the stages `stages`
/// of the pipeline in progress.
///
/// After a stage, `|` adds it to the pipeline in progress; `&&` closes that
/// pipeline; `;` and the end of the tokens close the pipeline and the
/// statement. Where the tokens end after `|` or `&&`, a command is missing.
pub open spec fn parse_from(
    ts: Seq<TokenView>,
    i: int,
    stages: Seq<NodeView>,
    ands: Seq<NodeView>,
    done: Seq<NodeView>,
    env: Entries,
) -> Result<NodeView, SyntaxErrorView>
    decreases ts.len() - i,
    when i >= 0
    via parse_from_decreases
{
    if i >= ts.len() {
        if stages.len() == 0 && ands.len() == 0 {
            Ok(NodeView::Sequence(done))
        } else {
            Err(SyntaxErrorView::ExpectedToken(Seq::empty()))
        }
    } else {
        match stage_spec(ts, i, env) {
            Err(e) => Err(e),
            Ok((node, j)) => if j < ts.len() && ts[j] == TokenView::Meta("|"@) {
                parse_from(ts, j + 1, stages.push(node), ands, done, env)
            } else if j < ts.len() && ts[j] == TokenView::Meta("&&"@) {
                parse_from(
                    ts,
                    j + 1,
                    Seq::empty(),
                    ands.push(NodeView::Pipeline(stages.push(node))),
                    done,
                    env,
                )
            } else if j < ts.len() {
                parse_from(
                    ts,
                    j + 1,
                    Seq::empty(),
                    Seq::empty(),
                    done.push(statement(ands, NodeView::Pipeline(stages.push(node)))),
                    env,
                )
            } else {
                Ok(
                    NodeView::Sequence(
                        done.push(statement(ands, NodeView::Pipeline(stages.push(node)))),
                    ),
                )
            },
        }
    }
}

#[via_fn]
proof fn parse_from_decreases(
    ts: Seq<TokenView>,
    i: int,
    stages: Seq<NodeView>,
    ands: Seq<NodeView>,
    done: Seq<NodeView>,
    env: Entries,
) {
    if i < ts.len() {
        lemma_stage_end(ts, i, env);
    }
}

/// The words that start at `i` end at or after `i`, within the tokens, and
/// none of them is a meta token.
pub proof fn lemma_words_end(ts: Seq<TokenView>, i: int)
    requires
        0 <= i <= ts.len(),
    ensures
        i <= words_end(ts, i) <= ts.len(),
        forall|k: int| i <= k < words_end(ts, i) ==> !(#[trigger] ts[k] is Meta),
        words_end(ts, i) < ts.len() ==> ts[words_end(ts, i)] is Meta,
    decreases ts.len() - i,
{
    if i < ts.len() && !(ts[i] is Meta) {
        lemma_words_end(ts, i + 1);
    }
}

/// Redirections end at or after the place they start from.
pub proof fn lemma_redirects_end(ts: Seq<TokenView>, j: int, node: NodeView, env: Entries)
    requires
        0 <= j,
    ensures
        redirects_from(ts, j, node, env) matches Ok(r) ==> j <= r.1 && (r.1 >= ts.len()
            || ends_stage(ts[r.1])),
    decreases ts.len() - j,
{
    if j >= ts.len() || ends_stage(ts[j]) {
    } else if ts[j] is Meta && RedirectType::of(ts[j]->Meta_0) != RedirectType::NoRedirect {
        match path_spec(ts, j + 1, env) {
            Err(e) => {},
            Ok(path) => {
                lemma_redirects_end(
                    ts,
                    j + 2,
                    RedirectType::of(ts[j]->Meta_0).around(node, path),
                    env,
                );
            },
        }
    }
}

/// A stage ends at or after the place it starts from, at the end of the
/// tokens or at a token that ends a stage.
pub proof fn lemma_stage_end(ts: Seq<TokenView>, i: int, env: Entries)
    requires
        0 <= i <= ts.len(),
    ensures
        stage_spec(ts, i, env) matches Ok(r) ==> i <= r.1 && (r.1 >= ts.len() || ends_stage(
            ts[r.1],
        )),
{
    lemma_words_end(ts, i);
    match command_spec(ts.subrange(i, words_end(ts, i)), env) {
        Err(e) => {},
        Ok(node) => {
            lemma_redirects_end(ts, words_end(ts, i), node, env);
        },
    }
}

/// Redirections around a stage make a stage.
proof fn lemma_redirects_shape(ts: Seq<TokenView>, j: int, node: NodeView, env: Entries)
    requires
        0 <= j,
        node.is_stage(),
    ensures
        redirects_from(ts, j, node, env) matches Ok(r) ==> r.0.is_stage(),
    decreases ts.len() - j,
{
    if j >= ts.len() || ends_stage(ts[j]) {
    } else if ts[j] is Meta && RedirectType::of(ts[j]->Meta_0) != RedirectType::NoRedirect {
        match path_spec(ts, j + 1, env) {
            Err(e) => {},
            Ok(path) => {
                lemma_redirects_shape(
                    ts,
                    j + 2,
                    RedirectType::of(ts[j]->Meta_0).around(node, path),
                    env,
                );
            },
        }
    }
}

/// What `parse_from` builds of stages, pipelines and statements is a
/// sequence of statements.
proof fn lemma_parse_from_shape(
    ts: Seq<TokenView>,
    i: int,
    stages: Seq<NodeView>,
    ands: Seq<NodeView>,
    done: Seq<NodeView>,
    env: Entries,
)
    requires
        0 <= i <= ts.len(),
        forall|k: int| 0 <= k < stages.len() ==> (#[trigger] stages[k]).is_stage(),
        forall|k: int| 0 <= k < ands.len() ==> (#[trigger] ands[k]).is_pipeline(),
        forall|k: int| 0 <= k < done.len() ==> (#[trigger] done[k]).is_statement(),
    ensures
        parse_from(ts, i, stages, ands, done, env) matches Ok(root) ==> root.is_program(),
    decreases ts.len() - i,
{
    if i < ts.len() {
        lemma_stage_end(ts, i, env);
        lemma_words_end(ts, i);
        match command_spec(ts.subrange(i, words_end(ts, i)), env) {
            Err(e) => {},
            Ok(command) => {
                lemma_redirects_shape(ts, words_end(ts, i), command, env);
            },
        }
        match stage_spec(ts, i, env) {
            Err(e) => {},
            Ok((node, j)) => {
                let pipeline = NodeView::Pipeline(stages.push(node));
                assert(pipeline.is_pipeline());
                let whole = statement(ands, pipeline);
                assert(whole.is_statement()) by {
                    if ands.len() > 0 {
                        assert(ands.push(pipeline).len() >= 2);
                    }
                }
                if j < ts.len() && ts[j] == TokenView::Meta("|"@) {
                    lemma_parse_from_shape(ts, j + 1, stages.push(node), ands, done, env);
                } else if j < ts.len() && ts[j] == TokenView::Meta("&&"@) {
                    lemma_parse_from_shape(ts, j + 1, Seq::empty(), ands.push(pipeline), done, env);
                } else if j < ts.len() {
                    lemma_parse_from_shape(
                        ts,
                        j + 1,
                        Seq::empty(),
                        Seq::empty(),
                        done.push(whole),
                        env,
                    );
                } else {
                    assert(NodeView::Sequence(done.push(whole)).is_program());
                }
            },
        }
    }
}

/// The shape of the tree: the parser gives a sequence of statements, each a
/// pipeline or an and-sequence of two pipelines or more; every pipeline has a
/// stage, every command has a name, and every redirection wraps one stage.
pub proof fn lemma_parse_shape(ts: Seq<TokenView>, env: Entries)
    ensures
        parse_spec(ts, env) matches Ok(root) ==> root.is_program(),
{
    lemma_parse_from_shape(ts, 0, Seq::empty(), Seq::empty(), Seq::empty(), env);
}

/// The tree of the tokens `ts`.
pub open spec fn parse_spec(ts: Seq<TokenView>, env: Entries) -> Result<NodeView, SyntaxErrorView> {
    parse_from(ts, 0, Seq::empty(), Seq::empty(), Seq::empty(), env)
}

/// Reads the tokens from the scanner's place to their end and builds the
/// sequence of the statements they make, as `parse_from` says. Words are
/// resolved with `env` where the grammar needs their text: to tell a
/// built-in from a program, for the prompt of a request, and for the name of
/// a file.
pub fn parse_impl(tokens: &mut Scanner<Tokens>, env: &Table) -> (r: Result<Sequence, SyntaxError>)
    ensures
        final(tokens).input == old(tokens).input,
        match parse_from(
            views(old(tokens).input@),
            old(tokens).index as int,
            Seq::empty(),
            Seq::empty(),
            Seq::empty(),
            env@,
        ) {
            Ok(root) => r is Ok && r.unwrap()@ == root
                && final(tokens).index >= final(tokens).input@.len(),
            Err(e) => r is Err && r.unwrap_err()@ == e,
        },
{
    let mut pipeline = Pipeline::new();
    let mut and_sequence = AndSequence::new();
    let mut sequence = Sequence::new();
    let ghost ts = views(tokens.input@);
    let ghost goal = parse_from(
        ts,
        tokens.index as int,
        Seq::empty(),
        Seq::empty(),
        Seq::empty(),
        env@,
    );
    proof {
        assert(node_views(Seq::<Runnable>::empty()) =~= Seq::<NodeView>::empty());
    }
    loop
        invariant
            tokens.input == old(tokens).input,
            ts == views(tokens.input@),
            parse_from(
                ts,
                tokens.index as int,
                pipeline.stages(),
                and_sequence.nodes(),
                sequence.nodes(),
                env@,
            ) == goal,
            goal == parse_from(
                views(old(tokens).input@),
                old(tokens).index as int,
                Seq::empty(),
                Seq::empty(),
                Seq::empty(),
                env@,
            ),
        decreases ts.len() - tokens.index,
    {
        if tokens.peek().is_none() {
            if pipeline.len() == 0 && and_sequence.len() == 0 {
                return Ok(sequence);
            }
            return Err(SyntaxError::ExpectedToken(String::new()));
        }
        let ghost i = tokens.index as int;
        proof {
            lemma_stage_end(ts, i, env@);
        }
        let command = match parse_cmd_impl(tokens, env) {
            Ok(command) => command,
            Err(e) => {
                return Err(e);
            },
        };
        pipeline.add(command);
        let (piped, and, last) = match tokens.peek() {
            Some(t) => {
                tokens.next();
                (t.is_meta("|"), t.is_meta("&&"), false)
            },
            None => (false, false, true),
        };
        if piped {
        } else if and {
            let ghost before = and_sequence.children();
            let stage = Runnable::Pipeline(pipeline.transfer());
            proof {
                lemma_node_views_push(before, stage);
            }
            and_sequence.add(stage);
        } else {
            let closing = Runnable::Pipeline(pipeline.transfer());
            let ghost before = sequence.children();
            let ghost ands = and_sequence.children();
            let whole = if and_sequence.len() == 0 {
                proof {
                    assert(and_sequence.nodes() =~= Seq::<NodeView>::empty());
                }
                closing
            } else {
                proof {
                    lemma_node_views_push(ands, closing);
                }
                and_sequence.add(closing);
                let s = Runnable::AndSequence(and_sequence.transfer());
                proof {
                    assert(node_views(Seq::<Runnable>::empty()) =~= Seq::<NodeView>::empty());
                }
                s
            };
            proof {
                lemma_node_views_push(before, whole);
            }
            sequence.add(whole);
            if last {
                return Ok(sequence);
            }
        }
    }
}

/// Reads one stage: the words of a command and the redirections after it,
/// as `stage_spec` says. The scanner is left at the token that ends the
/// stage.
fn parse_cmd_impl(tokens: &mut Scanner<Tokens>, env: &Table) -> (r: Result<
    CommandType,
    SyntaxError,
>)
    requires
        old(tokens).index <= old(tokens).input@.len(),
    ensures
        final(tokens).input == old(tokens).input,
        match stage_spec(views(old(tokens).input@), old(tokens).index as int, env@) {
            Ok((node, end)) => r is Ok && r.unwrap()@ == node && final(tokens).index == end
                && end <= old(tokens).input@.len(),
            Err(e) => r is Err && r.unwrap_err()@ == e,
        },
{
    let ghost ts = views(tokens.input@);
    let ghost start = tokens.index as int;
    let mut command_tokens: Vec<Token> = Vec::new();
    proof {
        lemma_views_empty();
        assert(ts.subrange(start, start) =~= Seq::<TokenView>::empty());
    }
    loop
        invariant
            tokens.input == old(tokens).input,
            ts == views(tokens.input@),
            start == old(tokens).index,
            0 <= start <= tokens.index <= ts.len(),
            views(command_tokens@) == ts.subrange(start, tokens.index as int),
            words_end(ts, tokens.index as int) == words_end(ts, start),
        ensures
            tokens.input == old(tokens).input,
            start <= tokens.index <= ts.len(),
            tokens.index == words_end(ts, start),
            views(command_tokens@) == ts.subrange(start, tokens.index as int),
        decreases ts.len() - tokens.index,
    {
        match tokens.peek() {
            None => {
                break ;
            },
            Some(t) => {
                if let Token::Meta(_) = t {
                    break ;
                }
                let word = tokens.next();
                proof {
                    lemma_views_push(command_tokens@, word);
                    assert(ts.subrange(start, tokens.index as int) =~= ts.subrange(
                        start,
                        tokens.index - 1,
                    ).push(word@));
                }
                command_tokens.push(word);
            },
        }
    }
    let mut command = match CommandType::create(command_tokens, env) {
        Ok(command) => command,
        Err(e) => {
            return Err(e);
        },
    };
    let ghost goal = stage_spec(ts, start, env@);
    loop
        invariant
            tokens.input == old(tokens).input,
            ts == views(tokens.input@),
            tokens.index <= ts.len(),
            redirects_from(ts, tokens.index as int, command@, env@) == goal,
            goal == stage_spec(views(old(tokens).input@), old(tokens).index as int, env@),
        decreases ts.len() - tokens.index,
    {
        let t = match tokens.peek() {
            None => {
                return Ok(command);
            },
            Some(t) => t,
        };
        if t.is_meta(";") || t.is_meta("&&") || t.is_meta("|") {
            return Ok(command);
        }
        let kind = match &t {
            Token::Meta(text) => RedirectType::from_meta(text.as_str()),
            _ => RedirectType::NoRedirect,
        };
        if kind == RedirectType::NoRedirect {
            return Err(SyntaxError::UnexpectedToken(t.resolve(env)));
        }
        tokens.next();
        let file_name = match tokens.peek() {
            None => {
                return Err(SyntaxError::ExpectedToken(String::new()));
            },
            Some(Token::Meta(text)) => {
                return Err(SyntaxError::UnexpectedToken(text));
            },
            Some(word) => word.resolve(env),
        };
        tokens.next();
        command = command.redirect(kind, file_name);
    }
}

} // verus!
