//! The tree written out again as words, and the law that parsing loses
//! nothing: the words of the tree are the texts of the tokens it was made
//! from.

use crate::command::{command_spec, resolved};
use crate::node::NodeView;
use crate::parsing::parser::{
    ends_stage, lemma_words_end, parse_from, parse_spec, path_spec, redirects_from, stage_spec,
    statement, words_end,
};
use crate::redirect::RedirectType;
use crate::table::Entries;
use crate::token::{resolve_all, TokenView};
use vstd::prelude::*;

verus! {

/// The words of `node`: the texts of the words of a command; the prompt of a
/// request; for a redirection its operator and file after the words of what
/// it wraps; the stages of a pipeline with `|` between them; the nodes of an
/// and-sequence with `&&` between them; the statements of a sequence with
/// `;` after each.
pub open spec fn rendered(node: NodeView, env: Entries) -> Seq<Seq<char>>
    decreases node, 0nat,
{
    match node {
        NodeView::Builtin(words) => resolved(words, env),
        NodeView::External(words) => resolved(words, env),
        NodeView::Llm { prompt, api_key } => seq![prompt],
        NodeView::InputRedirect(inner, file) => rendered(*inner, env) + seq!["<"@, file],
        NodeView::OutputRedirect(inner, file) => rendered(*inner, env) + seq![">"@, file],
        NodeView::OutputRedirectAppend(inner, file) => rendered(*inner, env) + seq![">>"@, file],
        NodeView::Pipeline(stages) => between_first(stages, stages.len(), "|"@, env),
        NodeView::AndSequence(nodes) => between_first(nodes, nodes.len(), "&&"@, env),
        NodeView::Sequence(nodes) => followed_first(nodes, nodes.len(), ";"@, env),
    }
}

/// The words of the first `n` of `nodes`, with `sep` between neighbours.
pub open spec fn between_first(nodes: Seq<NodeView>, n: nat, sep: Seq<char>, env: Entries) -> Seq<
    Seq<char>,
>
    decreases nodes, n,
{
    if n == 0 || n > nodes.len() {
        Seq::empty()
    } else if n == 1 {
        rendered(nodes[0], env)
    } else {
        between_first(nodes, (n - 1) as nat, sep, env) + seq![sep] + rendered(nodes[n - 1], env)
    }
}

/// The words of the first `n` of `nodes`, with `sep` after each.
pub open spec fn followed_first(nodes: Seq<NodeView>, n: nat, sep: Seq<char>, env: Entries) -> Seq<
    Seq<char>,
>
    decreases nodes, n,
{
    if n == 0 || n > nodes.len() {
        Seq::empty()
    } else {
        followed_first(nodes, (n - 1) as nat, sep, env) + rendered(nodes[n - 1], env) + seq![sep]
    }
}

/// The words of `nodes`, with `sep` after each.
pub open spec fn followed(nodes: Seq<NodeView>, sep: Seq<char>, env: Entries) -> Seq<Seq<char>> {
    followed_first(nodes, nodes.len(), sep, env)
}

/// The `;` that the end of the tokens stands for: one, where tokens are left
/// from `i` on and the last of them is no `;`.
pub open spec fn closing(ts: Seq<TokenView>, i: int) -> Seq<Seq<char>> {
    if i < ts.len() && ts.last() != TokenView::Meta(";"@) {
        seq![";"@]
    } else {
        Seq::empty()
    }
}

proof fn lemma_followed_prefix(
    a: Seq<NodeView>,
    b: Seq<NodeView>,
    n: nat,
    sep: Seq<char>,
    env: Entries,
)
    requires
        n <= a.len(),
        n <= b.len(),
        forall|k: int| 0 <= k < n ==> a[k] == b[k],
    ensures
        followed_first(a, n, sep, env) == followed_first(b, n, sep, env),
        between_first(a, n, sep, env) == between_first(b, n, sep, env),
    decreases n,
{
    if n > 0 {
        lemma_followed_prefix(a, b, (n - 1) as nat, sep, env);
    }
}

proof fn lemma_followed_is_between(nodes: Seq<NodeView>, n: nat, sep: Seq<char>, env: Entries)
    requires
        0 < n <= nodes.len(),
    ensures
        followed_first(nodes, n, sep, env) == between_first(nodes, n, sep, env) + seq![sep],
    decreases n,
{
    if n > 1 {
        lemma_followed_is_between(nodes, (n - 1) as nat, sep, env);
        assert(followed_first(nodes, n, sep, env) =~= between_first(nodes, n, sep, env) + seq![
            sep,
        ]);
    } else {
        assert(followed_first(nodes, 0, sep, env) + rendered(nodes[0], env) =~= rendered(
            nodes[0],
            env,
        ));
    }
}

/// The words of `nodes` and of one more node, with `sep` between
/// neighbours, are those of `nodes` with `sep` after each, and those of the
/// one more.
proof fn lemma_between_push(nodes: Seq<NodeView>, last: NodeView, sep: Seq<char>, env: Entries)
    ensures
        between_first(nodes.push(last), nodes.len() + 1, sep, env) == followed(nodes, sep, env)
            + rendered(last, env),
        followed(nodes.push(last), sep, env) == followed(nodes, sep, env) + rendered(last, env)
            + seq![sep],
{
    let all = nodes.push(last);
    lemma_followed_prefix(all, nodes, nodes.len(), sep, env);
    if nodes.len() > 0 {
        lemma_followed_is_between(nodes, nodes.len(), sep, env);
    } else {
        assert(followed(nodes, sep, env) + rendered(last, env) =~= rendered(last, env));
    }
}

/// The words of a command are the texts of the words it was made from.
proof fn lemma_command_renders(words: Seq<TokenView>, env: Entries)
    ensures
        command_spec(words, env) matches Ok(node) ==> words.len() > 0 && rendered(node, env)
            == resolved(words, env),
{
    if words.len() == 1 && words[0] is DoubleQuoted {
        assert(resolved(words, env) =~= seq![resolve_all(words[0]->DoubleQuoted_0, env)]);
    }
}

/// The words of a stage with its redirections are the words of the stage
/// and the texts of the tokens of the redirections.
proof fn lemma_redirects_render(ts: Seq<TokenView>, j: int, node: NodeView, env: Entries)
    requires
        0 <= j <= ts.len(),
    ensures
        redirects_from(ts, j, node, env) matches Ok(r) ==> j <= r.1 <= ts.len() && rendered(
            r.0,
            env,
        ) == rendered(node, env) + resolved(ts, env).subrange(j, r.1) && (r.1 > j ==> !(ts[r.1
            - 1] is Meta)),
    decreases ts.len() - j,
{
    let all = resolved(ts, env);
    if j >= ts.len() || ends_stage(ts[j]) {
        assert(rendered(node, env) + all.subrange(j, j) =~= rendered(node, env));
    } else if ts[j] is Meta && RedirectType::of(ts[j]->Meta_0) != RedirectType::NoRedirect {
        match path_spec(ts, j + 1, env) {
            Err(e) => {},
            Ok(path) => {
                let text = ts[j]->Meta_0;
                let wrapped = RedirectType::of(text).around(node, path);
                lemma_redirects_render(ts, j + 2, wrapped, env);
                assert(rendered(wrapped, env) == rendered(node, env) + seq![text, path]);
                assert(all.subrange(j, j + 2) =~= seq![text, path]);
                match redirects_from(ts, j + 2, wrapped, env) {
                    Ok(r) => {
                        assert(all.subrange(j, r.1) =~= all.subrange(j, j + 2) + all.subrange(
                            j + 2,
                            r.1,
                        ));
                        assert(rendered(r.0, env) =~= rendered(node, env) + all.subrange(j, r.1));
                    },
                    Err(e) => {},
                }
            },
        }
    }
}

/// The words of a stage are the texts of the tokens it was made from, and
/// the last of those tokens is no meta token.
proof fn lemma_stage_renders(ts: Seq<TokenView>, i: int, env: Entries)
    requires
        0 <= i <= ts.len(),
    ensures
        stage_spec(ts, i, env) matches Ok(r) ==> i < r.1 <= ts.len() && rendered(r.0, env)
            == resolved(ts, env).subrange(i, r.1) && !(ts[r.1 - 1] is Meta) && (r.1 >= ts.len()
            || ends_stage(ts[r.1])),
{
    lemma_words_end(ts, i);
    let end = words_end(ts, i);
    let words = ts.subrange(i, end);
    lemma_command_renders(words, env);
    crate::parsing::parser::lemma_stage_end(ts, i, env);
    match command_spec(words, env) {
        Err(e) => {},
        Ok(node) => {
            lemma_redirects_render(ts, end, node, env);
            let all = resolved(ts, env);
            assert(resolved(words, env) =~= all.subrange(i, end));
            match redirects_from(ts, end, node, env) {
                Ok(r) => {
                    assert(all.subrange(i, r.1) =~= all.subrange(i, end) + all.subrange(end, r.1));
                },
                Err(e) => {},
            }
        },
    }
}

/// The words of what has been built so far: the statements, each with `;`
/// after it, then the pipelines of the statement in progress, each with `&&`
/// after it, then the stages of the pipeline in progress, each with `|` after
/// it.
pub open spec fn built(
    stages: Seq<NodeView>,
    ands: Seq<NodeView>,
    done: Seq<NodeView>,
    env: Entries,
) -> Seq<Seq<char>> {
    followed(done, ";"@, env) + followed(ands, "&&"@, env) + followed(stages, "|"@, env)
}

/// What is built after one more stage and a `|`.
proof fn lemma_built_stage(
    stages: Seq<NodeView>,
    ands: Seq<NodeView>,
    done: Seq<NodeView>,
    node: NodeView,
    env: Entries,
)
    ensures
        built(stages.push(node), ands, done, env) == built(stages, ands, done, env) + rendered(
            node,
            env,
        ) + seq!["|"@],
{
    lemma_between_push(stages, node, "|"@, env);
    assert(built(stages.push(node), ands, done, env) =~= built(stages, ands, done, env)
        + rendered(node, env) + seq!["|"@]);
}

/// What is built after one more stage and a `&&`.
proof fn lemma_built_pipeline(
    stages: Seq<NodeView>,
    ands: Seq<NodeView>,
    done: Seq<NodeView>,
    node: NodeView,
    env: Entries,
)
    ensures
        built(Seq::empty(), ands.push(NodeView::Pipeline(stages.push(node))), done, env) == built(
            stages,
            ands,
            done,
            env,
        ) + rendered(node, env) + seq!["&&"@],
{
    let pipeline = NodeView::Pipeline(stages.push(node));
    lemma_between_push(stages, node, "|"@, env);
    lemma_between_push(ands, pipeline, "&&"@, env);
    assert(followed(Seq::<NodeView>::empty(), "|"@, env) =~= Seq::<Seq<char>>::empty());
    assert(rendered(pipeline, env) == followed(stages, "|"@, env) + rendered(node, env));
    assert(built(Seq::empty(), ands.push(pipeline), done, env) =~= built(stages, ands, done, env)
        + rendered(node, env) + seq!["&&"@]);
}

/// The words of a statement are those of its pipelines with `&&` between
/// them.
proof fn lemma_statement_renders(
    stages: Seq<NodeView>,
    ands: Seq<NodeView>,
    node: NodeView,
    env: Entries,
)
    ensures
        rendered(statement(ands, NodeView::Pipeline(stages.push(node))), env) == followed(
            ands,
            "&&"@,
            env,
        ) + followed(stages, "|"@, env) + rendered(node, env),
{
    let pipeline = NodeView::Pipeline(stages.push(node));
    lemma_between_push(stages, node, "|"@, env);
    lemma_between_push(ands, pipeline, "&&"@, env);
    assert(rendered(pipeline, env) == followed(stages, "|"@, env) + rendered(node, env));
    if ands.len() == 0 {
        assert(followed(ands, "&&"@, env) =~= Seq::<Seq<char>>::empty());
        assert(rendered(pipeline, env) =~= followed(ands, "&&"@, env) + followed(
            stages,
            "|"@,
            env,
        ) + rendered(node, env));
    } else {
        assert(rendered(statement(ands, pipeline), env) =~= followed(ands, "&&"@, env) + followed(
            stages,
            "|"@,
            env,
        ) + rendered(node, env));
    }
}

/// What is built after one more stage and the end of the statement.
proof fn lemma_built_statement(
    stages: Seq<NodeView>,
    ands: Seq<NodeView>,
    done: Seq<NodeView>,
    node: NodeView,
    env: Entries,
)
    ensures
        built(
            Seq::empty(),
            Seq::empty(),
            done.push(statement(ands, NodeView::Pipeline(stages.push(node)))),
            env,
        ) == built(stages, ands, done, env) + rendered(node, env) + seq![";"@],
        rendered(
            NodeView::Sequence(done.push(statement(ands, NodeView::Pipeline(stages.push(node))))),
            env,
        ) == built(stages, ands, done, env) + rendered(node, env) + seq![";"@],
{
    let whole = statement(ands, NodeView::Pipeline(stages.push(node)));
    lemma_statement_renders(stages, ands, node, env);
    lemma_between_push(done, whole, ";"@, env);
    assert(followed(Seq::<NodeView>::empty(), "|"@, env) =~= Seq::<Seq<char>>::empty());
    assert(followed(Seq::<NodeView>::empty(), "&&"@, env) =~= Seq::<Seq<char>>::empty());
    assert(followed(done.push(whole), ";"@, env) =~= built(stages, ands, done, env) + rendered(
        node,
        env,
    ) + seq![";"@]);
    assert(built(Seq::empty(), Seq::empty(), done.push(whole), env) =~= followed(
        done.push(whole),
        ";"@,
        env,
    ));
}

/// The texts of the tokens from `i` on: those of a stage that ends at `j`,
/// the text of the token at `j`, and the texts of the tokens after it.
proof fn lemma_texts_split(all: Seq<Seq<char>>, i: int, j: int)
    requires
        0 <= i <= j < all.len(),
    ensures
        all.skip(i) == all.subrange(i, j) + seq![all[j]] + all.skip(j + 1),
{
    assert(all.skip(i) =~= all.subrange(i, j) + seq![all[j]] + all.skip(j + 1));
}

/// Joins the steps of the law: where the rest of the tokens gives `after`
/// behind what is built with one more stage, all the tokens from the stage
/// on give the same behind what was built before.
proof fn lemma_render_step(
    before: Seq<Seq<char>>,
    words: Seq<Seq<char>>,
    sep: Seq<char>,
    rest: Seq<Seq<char>>,
    tail: Seq<Seq<char>>,
    from: Seq<Seq<char>>,
)
    requires
        from == words + seq![sep] + rest,
    ensures
        (before + words + seq![sep]) + rest + tail == before + from + tail,
{
    assert((before + words + seq![sep]) + rest + tail =~= before + from + tail);
}

/// The words of the tree that `parse_from` builds are the words of what
/// was built before, followed by the texts of the tokens that were left,
/// with a `;` for the end of the tokens where the last token is none.
proof fn lemma_parse_from_renders(
    ts: Seq<TokenView>,
    i: int,
    stages: Seq<NodeView>,
    ands: Seq<NodeView>,
    done: Seq<NodeView>,
    env: Entries,
)
    requires
        0 <= i <= ts.len(),
    ensures
        parse_from(ts, i, stages, ands, done, env) matches Ok(root) ==> rendered(root, env)
            == built(stages, ands, done, env) + resolved(ts, env).skip(i) + closing(ts, i),
    decreases ts.len() - i,
{
    let all = resolved(ts, env);
    let before = built(stages, ands, done, env);
    if i >= ts.len() {
        if stages.len() == 0 && ands.len() == 0 {
            assert(before + all.skip(i) + closing(ts, i) =~= followed(done, ";"@, env));
        }
    } else {
        lemma_stage_renders(ts, i, env);
        match stage_spec(ts, i, env) {
            Err(e) => {},
            Ok((node, j)) => {
                let words = all.subrange(i, j);
                if j < ts.len() {
                    lemma_texts_split(all, i, j);
                    let rest = all.skip(j + 1);
                    if ts[j] == TokenView::Meta("|"@) {
                        lemma_parse_from_renders(ts, j + 1, stages.push(node), ands, done, env);
                        lemma_built_stage(stages, ands, done, node, env);
                        if parse_from(ts, j + 1, stages.push(node), ands, done, env) is Ok {
                            assert(closing(ts, j + 1) == closing(ts, i));
                            lemma_render_step(
                                before,
                                words,
                                "|"@,
                                rest,
                                closing(ts, i),
                                all.skip(i),
                            );
                        }
                    } else if ts[j] == TokenView::Meta("&&"@) {
                        let pipeline = NodeView::Pipeline(stages.push(node));
                        lemma_parse_from_renders(
                            ts,
                            j + 1,
                            Seq::empty(),
                            ands.push(pipeline),
                            done,
                            env,
                        );
                        lemma_built_pipeline(stages, ands, done, node, env);
                        if parse_from(ts, j + 1, Seq::empty(), ands.push(pipeline), done, env)
                            is Ok {
                            assert(closing(ts, j + 1) == closing(ts, i));
                            lemma_render_step(
                                before,
                                words,
                                "&&"@,
                                rest,
                                closing(ts, i),
                                all.skip(i),
                            );
                        }
                    } else {
                        let whole = statement(ands, NodeView::Pipeline(stages.push(node)));
                        assert(ts[j] == TokenView::Meta(";"@));
                        lemma_parse_from_renders(
                            ts,
                            j + 1,
                            Seq::empty(),
                            Seq::empty(),
                            done.push(whole),
                            env,
                        );
                        lemma_built_statement(stages, ands, done, node, env);
                        assert(closing(ts, j + 1) == closing(ts, i));
                        lemma_render_step(before, words, ";"@, rest, closing(ts, i), all.skip(i));
                    }
                } else {
                    lemma_built_statement(stages, ands, done, node, env);
                    assert(all.skip(i) =~= words);
                    assert(ts.last() == ts[j - 1]);
                    assert(closing(ts, i) == seq![";"@]);
                    assert(before + words + seq![";"@] =~= before + all.skip(i) + closing(ts, i));
                }
            },
        }
    }
}

/// Parsing loses nothing and changes no order: the words of the tree are the
/// texts of the tokens, one for one, with a `;` for the end of the tokens
/// where the last token is none.
pub proof fn lemma_parse_renders(ts: Seq<TokenView>, env: Entries)
    ensures
        parse_spec(ts, env) matches Ok(root) ==> rendered(root, env) == resolved(ts, env)
            + closing(ts, 0),
{
    lemma_parse_from_renders(ts, 0, Seq::empty(), Seq::empty(), Seq::empty(), env);
    let none = Seq::<NodeView>::empty();
    assert(built(none, none, none, env) =~= Seq::<Seq<char>>::empty());
    assert(resolved(ts, env).skip(0) =~= resolved(ts, env));
    assert(built(none, none, none, env) + resolved(ts, env).skip(0) + closing(ts, 0) =~= resolved(
        ts,
        env,
    ) + closing(ts, 0));
}

/// The same from the line on: the words of the tree of a line are the texts
/// of the tokens of the line.
pub proof fn lemma_line_renders(input: Seq<char>, env: Entries)
    ensures
        crate::parsing::front_spec(input, env) matches Ok(root) ==> (
        crate::parsing::lexer::lex_spec(crate::parsing::process::process_spec(input)) matches Ok(
            ts,
        ) && rendered(root, env) == resolved(ts, env) + closing(ts, 0)),
{
    match crate::parsing::lexer::lex_spec(crate::parsing::process::process_spec(input)) {
        Ok(ts) => {
            lemma_parse_renders(ts, env);
        },
        Err(e) => {},
    }
}

} // verus!
