//! Properties that hold of every body, graph and run of the analysis.
use vstd::prelude::*;
use crate::span::Span;
use crate::hir::{Node, NodeClass, NodeId, WalkError};
use crate::walk::{reachable, visit, add_all, lemma_add_all_contains, lemma_reachable_transitive};
use crate::extract::{
    unsafe_span_of, spans_of, unsafe_spans_result, lemma_spans_of_at, lemma_spans_of_prefix,
};
use crate::correlate::{ControlFlowGraph, BasicBlockData, block_flagged, flagged_upto, flagged_of};

verus! {

/// No node of `nodes` is a block tagged `unsafe`.
pub open spec fn has_no_unsafe_block(nodes: Seq<Node>) -> bool {
    forall|i: int|
        0 <= i < nodes.len() ==> match #[trigger] nodes[i] {
            Node::Block(b) => !b.is_unsafe,
            _ => true,
        }
}

proof fn lemma_spans_of_empty(nodes: Seq<Node>, ids: Seq<NodeId>)
    requires
        has_no_unsafe_block(nodes),
    ensures
        spans_of(nodes, ids) == Seq::<Span>::empty(),
    decreases ids.len(),
{
    if ids.len() > 0 {
        lemma_spans_of_empty(nodes, ids.drop_last());
        let id = ids.last();
        if id < nodes.len() {
            if let Node::Expr(e) = nodes[id as int] {
                if let crate::hir::ExprKind::Block(b) = e.kind {
                    if b < nodes.len() {
                        assert(match nodes[b as int] {
                            Node::Block(blk) => !blk.is_unsafe,
                            _ => true,
                        });
                    }
                }
            }
        }
    }
}

proof fn lemma_flagged_upto_empty(blocks: Seq<BasicBlockData>, n: int)
    ensures
        flagged_upto(blocks, Seq::<Span>::empty(), n) == Seq::<usize>::empty(),
    decreases n,
{
    if n > 0 {
        lemma_flagged_upto_empty(blocks, n - 1);
        assert(!block_flagged(blocks[n - 1].statements@, Seq::<Span>::empty()));
    }
}

/// A body without unsafe blocks has no unsafe spans, and no basic block of
/// any graph is flagged for it.
pub proof fn lemma_no_unsafe_nothing_flagged(
    nodes: Seq<Node>,
    root: NodeId,
    graph: Option<ControlFlowGraph>,
)
    requires
        has_no_unsafe_block(nodes),
    ensures
        match unsafe_spans_result(nodes, root) {
            Ok(spans) => spans.len() == 0 && flagged_of(graph, spans).len() == 0,
            Err(_) => true,
        },
{
    match unsafe_spans_result(nodes, root) {
        Ok(spans) => {
            let ids = reachable(nodes, root, NodeClass::Expr)->Some_0;
            lemma_spans_of_empty(nodes, ids);
            if let Some(g) = graph {
                lemma_flagged_upto_empty(g.basic_blocks@, g.basic_blocks@.len() as int);
            }
        },
        Err(_) => {},
    }
}

/// Two distinct unsafe blocks, the second reached from the first and the
/// first from the root, each give their own entry among the unsafe spans:
/// nested unsafe blocks are never merged.
pub proof fn lemma_nested_unsafe_blocks_kept(nodes: Seq<Node>, root: NodeId, a: NodeId, b: NodeId)
    requires
        a != b,
        unsafe_span_of(nodes, a) is Some,
        unsafe_span_of(nodes, b) is Some,
        reachable(nodes, root, NodeClass::Expr) is Some,
        reachable(nodes, root, NodeClass::Expr)->Some_0.contains(a),
        reachable(nodes, a, NodeClass::Expr) is Some,
        reachable(nodes, a, NodeClass::Expr)->Some_0.contains(b),
    ensures
        unsafe_spans_result(nodes, root) is Ok,
        exists|i: int, j: int|
            0 <= i < unsafe_spans_result(nodes, root)->Ok_0.len() && 0 <= j < unsafe_spans_result(
                nodes,
                root,
            )->Ok_0.len() && i != j && #[trigger] unsafe_spans_result(nodes, root)->Ok_0[i]
                == unsafe_span_of(nodes, a)->Some_0 && #[trigger] unsafe_spans_result(
                nodes,
                root,
            )->Ok_0[j] == unsafe_span_of(nodes, b)->Some_0,
{
    lemma_reachable_transitive(nodes, root, a, b);
    let ids = reachable(nodes, root, NodeClass::Expr)->Some_0;
    lemma_add_all_contains(seq![], visit(nodes, root, NodeClass::Expr)->Some_0);
    assert(Seq::<NodeId>::empty().no_duplicates());
    assert(ids.no_duplicates());
    let p = ids.index_of(a);
    let q = ids.index_of(b);
    assert(root < nodes.len());
    let spans = spans_of(nodes, ids);
    assert(unsafe_spans_result(nodes, root) == Ok::<Seq<Span>, WalkError>(spans));
    lemma_spans_of_at(nodes, ids, p);
    lemma_spans_of_at(nodes, ids, q);
    let i = spans_of(nodes, ids.take(p)).len() as int;
    let j = spans_of(nodes, ids.take(q)).len() as int;
    if p < q {
        assert(ids.take(q).take(p + 1) =~= ids.take(p + 1));
        lemma_spans_of_prefix(nodes, ids.take(q), p + 1);
        assert(ids.take(p + 1).drop_last() =~= ids.take(p));
        assert(ids.take(p + 1).last() == a);
    } else {
        assert(ids.take(p).take(q + 1) =~= ids.take(q + 1));
        lemma_spans_of_prefix(nodes, ids.take(p), q + 1);
        assert(ids.take(q + 1).drop_last() =~= ids.take(q));
        assert(ids.take(q + 1).last() == b);
    }
    assert(i != j);
    assert(spans[i] == unsafe_span_of(nodes, a)->Some_0);
    assert(spans[j] == unsafe_span_of(nodes, b)->Some_0);
    let res = unsafe_spans_result(nodes, root)->Ok_0;
    assert(res == spans);
    assert(0 <= i < res.len() && 0 <= j < res.len() && i != j && res[i] == unsafe_span_of(
        nodes,
        a,
    )->Some_0 && res[j] == unsafe_span_of(nodes, b)->Some_0);
}

/// The analysis is deterministic: two runs on the same body and graph that
/// both succeed give the same spans and the same flagged blocks.
pub proof fn lemma_analysis_repeatable(
    nodes: Seq<Node>,
    root: NodeId,
    graph: Option<ControlFlowGraph>,
    spans1: Seq<Span>,
    spans2: Seq<Span>,
)
    requires
        unsafe_spans_result(nodes, root) == Ok::<Seq<Span>, WalkError>(spans1),
        unsafe_spans_result(nodes, root) == Ok::<Seq<Span>, WalkError>(spans2),
    ensures
        spans1 == spans2,
        flagged_of(graph, spans1) == flagged_of(graph, spans2),
{
}

} // verus!
