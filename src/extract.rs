//! The spans of the `unsafe` blocks reached from a function body.
use vstd::prelude::*;
use crate::span::Span;
use crate::hir::{Body, ExprKind, Node, NodeId, NodeClass, WalkError, expect_expr, expect_bolck};
use crate::walk::{walk_result, list_exprs_in_expr};

verus! {

/// The span of the block when `id` is a block expression tagged `unsafe`.
pub open spec fn unsafe_span_of(nodes: Seq<Node>, id: NodeId) -> Option<Span> {
    if id < nodes.len() {
        match nodes[id as int] {
            Node::Expr(e) => match e.kind {
                ExprKind::Block(b) => if b < nodes.len() {
                    match nodes[b as int] {
                        Node::Block(blk) => if blk.is_unsafe {
                            Some(blk.span)
                        } else {
                            None
                        },
                        _ => None,
                    }
                } else {
                    None
                },
                _ => None,
            },
            _ => None,
        }
    } else {
        None
    }
}

/// The spans of the unsafe blocks among `ids`, in the order of `ids`.
pub open spec fn spans_of(nodes: Seq<Node>, ids: Seq<NodeId>) -> Seq<Span>
    decreases ids.len(),
{
    if ids.len() == 0 {
        seq![]
    } else {
        let prev = spans_of(nodes, ids.drop_last());
        match unsafe_span_of(nodes, ids.last()) {
            Some(sp) => prev.push(sp),
            None => prev,
        }
    }
}

/// The unsafe spans of the body rooted at `root`, or the walk's error.
pub open spec fn unsafe_spans_result(nodes: Seq<Node>, root: NodeId) -> Result<Seq<Span>, WalkError> {
    match walk_result(nodes, root, NodeClass::Expr) {
        Ok(ids) => Ok(spans_of(nodes, ids)),
        Err(e) => Err(e),
    }
}

/// The span of the expression `id` when it is an unsafe block.
fn unsafe_span_at(body: &Body, id: NodeId) -> (r: Option<Span>)
    ensures
        r == unsafe_span_of(body@, id),
{
    match expect_expr(body, id) {
        Ok(e) => match e.kind {
            ExprKind::Block(b) => match expect_bolck(body, b) {
                Ok(blk) => if blk.is_unsafe {
                    Some(blk.span)
                } else {
                    None
                },
                Err(_) => None,
            },
            _ => None,
        },
        Err(_) => None,
    }
}

/// The spans of the unsafe blocks reached from the body root `root`, in the
/// walk's visiting order. Nested unsafe blocks each give their own span.
pub fn list_unsafe_blocks_in_fn(body: &Body, root: NodeId) -> (r: Result<Vec<Span>, WalkError>)
    ensures
        match r {
            Ok(v) => unsafe_spans_result(body@, root) == Ok::<Seq<Span>, WalkError>(v@),
            Err(e) => unsafe_spans_result(body@, root) == Err::<Seq<Span>, WalkError>(e),
        },
{
    let ids = match list_exprs_in_expr(body, root) {
        Ok(ids) => ids,
        Err(e) => {
            return Err(e);
        },
    };
    let mut rst: Vec<Span> = Vec::new();
    let mut i: usize = 0;
    while i < ids.len()
        invariant
            0 <= i <= ids@.len(),
            rst@ == spans_of(body@, ids@.take(i as int)),
        decreases ids@.len() - i,
    {
        let found = unsafe_span_at(body, ids[i]);
        match found {
            Some(sp) => {
                rst.push(sp);
            },
            None => {},
        }
        assert(ids@.take(i + 1).drop_last() =~= ids@.take(i as int));
        i += 1;
    }
    assert(ids@.take(i as int) =~= ids@);
    Ok(rst)
}

/// The spans of a prefix of `ids` are a prefix of the spans of `ids`.
pub proof fn lemma_spans_of_prefix(nodes: Seq<Node>, ids: Seq<NodeId>, m: int)
    requires
        0 <= m <= ids.len(),
    ensures
        spans_of(nodes, ids.take(m)).len() <= spans_of(nodes, ids).len(),
        forall|k: int|
            0 <= k < spans_of(nodes, ids.take(m)).len() ==> #[trigger] spans_of(nodes, ids.take(m))[k]
                == spans_of(nodes, ids)[k],
    decreases ids.len(),
{
    if m == ids.len() {
        assert(ids.take(m) =~= ids);
    } else {
        assert(ids.drop_last().take(m) =~= ids.take(m));
        lemma_spans_of_prefix(nodes, ids.drop_last(), m);
    }
}

/// An unsafe block at position `p` of `ids` gives the span at position
/// `spans_of(nodes, ids.take(p)).len()`.
pub proof fn lemma_spans_of_at(nodes: Seq<Node>, ids: Seq<NodeId>, p: int)
    requires
        0 <= p < ids.len(),
        unsafe_span_of(nodes, ids[p]) is Some,
    ensures
        spans_of(nodes, ids.take(p)).len() < spans_of(nodes, ids).len(),
        spans_of(nodes, ids)[spans_of(nodes, ids.take(p)).len() as int] == unsafe_span_of(
            nodes,
            ids[p],
        )->Some_0,
{
    assert(ids.take(p + 1).drop_last() =~= ids.take(p));
    assert(ids.take(p + 1).last() == ids[p]);
    lemma_spans_of_prefix(nodes, ids, p + 1);
    let i = spans_of(nodes, ids.take(p)).len() as int;
    assert(spans_of(nodes, ids.take(p + 1))[i] == unsafe_span_of(nodes, ids[p])->Some_0);
}

} // verus!
