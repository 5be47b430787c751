//! Reachability over a body: every expression reached from a node through
//! sub-expressions, blocks, statements and nested bodies.
use vstd::prelude::*;
use crate::hir::{
    Body, Edge, NodeClass, NodeId, WalkError, Node, class_of, node_edges, body_wf, expect_expr,
    expect_bolck, expect_stmt, expr_edges, block_children, stmt_children,
};

verus! {

/// The expressions reached from `id`, which must be a node of class `want`,
/// in visiting order: an expression before its children, children in
/// source order. `None` when a node of the wrong class is met.
pub open spec fn visit(nodes: Seq<Node>, id: NodeId, want: NodeClass) -> Option<Seq<NodeId>>
    decreases id, 1nat, 0nat,
{
    if id >= nodes.len() || class_of(nodes[id as int]) != want {
        None
    } else {
        let own = if want == NodeClass::Expr {
            seq![id]
        } else {
            seq![]
        };
        match visit_edges(nodes, node_edges(nodes[id as int]), id) {
            Some(s) => Some(own + s),
            None => None,
        }
    }
}

/// `visit` of each edge in turn, concatenated. Edges must lead below `bound`.
pub open spec fn visit_edges(nodes: Seq<Node>, es: Seq<Edge>, bound: NodeId) -> Option<
    Seq<NodeId>,
>
    decreases bound, 0nat, es.len(),
{
    if es.len() == 0 {
        Some(seq![])
    } else {
        match visit_edges(nodes, es.drop_last(), bound) {
            Some(s) => if es.last().target < bound {
                match visit(nodes, es.last().target, es.last().class) {
                    Some(t) => Some(s + t),
                    None => None,
                }
            } else {
                None
            },
            None => None,
        }
    }
}

/// `acc` followed by the elements of `s` it does not hold yet, each once,
/// in order of first appearance.
pub open spec fn add_all(acc: Seq<NodeId>, s: Seq<NodeId>) -> Seq<NodeId>
    decreases s.len(),
{
    if s.len() == 0 {
        acc
    } else {
        let a = add_all(acc, s.drop_last());
        if a.contains(s.last()) {
            a
        } else {
            a.push(s.last())
        }
    }
}

/// The reachable set of `root`, without repeats, in visiting order.
pub open spec fn reachable(nodes: Seq<Node>, root: NodeId, want: NodeClass) -> Option<
    Seq<NodeId>,
> {
    match visit(nodes, root, want) {
        Some(s) => Some(add_all(seq![], s)),
        None => None,
    }
}

/// What a walk from `root` returns: `NodeNotFound` for an identity outside
/// the body, `UnexpectedNodeKind` when a node of the wrong class is met,
/// else the reachable set.
pub open spec fn walk_result(nodes: Seq<Node>, root: NodeId, want: NodeClass) -> Result<
    Seq<NodeId>,
    WalkError,
> {
    if root >= nodes.len() {
        Err(WalkError::NodeNotFound)
    } else {
        match reachable(nodes, root, want) {
            Some(s) => Ok(s),
            None => Err(WalkError::UnexpectedNodeKind),
        }
    }
}

pub open spec fn seen_matches(acc: Seq<NodeId>, seen: Seq<bool>) -> bool {
    &&& forall|i: NodeId| i < seen.len() ==> #[trigger] seen[i as int] == acc.contains(i)
    &&& forall|k: int| 0 <= k < acc.len() ==> #[trigger] acc[k] < seen.len()
}

pub proof fn lemma_add_all_concat(acc: Seq<NodeId>, s: Seq<NodeId>, t: Seq<NodeId>)
    ensures
        add_all(acc, s + t) == add_all(add_all(acc, s), t),
    decreases t.len(),
{
    if t.len() == 0 {
        assert(s + t =~= s);
    } else {
        assert((s + t).drop_last() =~= s + t.drop_last());
        assert((s + t).last() == t.last());
        lemma_add_all_concat(acc, s, t.drop_last());
    }
}

/// Adding keeps what was there and adds only elements of `s`.
pub proof fn lemma_add_all_contains(acc: Seq<NodeId>, s: Seq<NodeId>)
    ensures
        forall|x: NodeId| #[trigger] add_all(acc, s).contains(x) <==> (acc.contains(x) || s.contains(x)),
        acc.no_duplicates() ==> add_all(acc, s).no_duplicates(),
        add_all(acc, s).len() >= acc.len(),
        forall|k: int| 0 <= k < acc.len() ==> #[trigger] add_all(acc, s)[k] == acc[k],
    decreases s.len(),
{
    if s.len() > 0 {
        lemma_add_all_contains(acc, s.drop_last());
        let a = add_all(acc, s.drop_last());
        assert forall|x: NodeId| #[trigger] add_all(acc, s).contains(x) <==> (acc.contains(x)
            || s.contains(x)) by {
            if s.contains(x) && !s.drop_last().contains(x) {
                let k = choose|k: int| 0 <= k < s.len() && s[k] == x;
                if k < s.len() - 1 {
                    assert(s.drop_last()[k] == x);
                }
            }
            if s.drop_last().contains(x) {
                let k = choose|k: int| 0 <= k < s.drop_last().len() && s.drop_last()[k] == x;
                assert(s[k] == x);
            }
            if !a.contains(s.last()) {
                if add_all(acc, s).contains(x) && x != s.last() {
                    let k = choose|k: int| 0 <= k < a.push(s.last()).len() && a.push(s.last())[k] == x;
                    assert(a[k] == x);
                }
                if a.contains(x) {
                    let k = choose|k: int| 0 <= k < a.len() && a[k] == x;
                    assert(a.push(s.last())[k] == x);
                }
                assert(a.push(s.last())[a.len() as int] == s.last());
            }
        }
    }
}

pub proof fn lemma_push_contains(a: Seq<NodeId>, x: NodeId)
    ensures
        forall|y: NodeId| #[trigger] a.push(x).contains(y) <==> (a.contains(y) || y == x),
{
    assert forall|y: NodeId| #[trigger] a.push(x).contains(y) <==> (a.contains(y) || y == x) by {
        if a.contains(y) {
            let k = choose|k: int| 0 <= k < a.len() && a[k] == y;
            assert(a.push(x)[k] == y);
        }
        if y == x {
            assert(a.push(x)[a.len() as int] == x);
        }
        if a.push(x).contains(y) && y != x {
            let k = choose|k: int| 0 <= k < a.push(x).len() && a.push(x)[k] == y;
            assert(a[k] == y);
        }
    }
}

pub proof fn lemma_add_one(acc: Seq<NodeId>, x: NodeId)
    ensures
        add_all(acc, seq![x]) == if acc.contains(x) {
            acc
        } else {
            acc.push(x)
        },
{
    assert(seq![x].drop_last() =~= Seq::<NodeId>::empty());
    assert(add_all(acc, Seq::<NodeId>::empty()) == acc);
    assert(seq![x].last() == x);
}

/// A failure on a prefix of the edges is a failure of them all.
pub proof fn lemma_visit_edges_prefix(nodes: Seq<Node>, es: Seq<Edge>, bound: NodeId, k: int)
    requires
        0 <= k <= es.len(),
        visit_edges(nodes, es.take(k), bound) is None,
    ensures
        visit_edges(nodes, es, bound) is None,
    decreases es.len() - k,
{
    if k < es.len() {
        assert(es.take(k + 1).drop_last() =~= es.take(k));
        lemma_visit_edges_prefix(nodes, es, bound, k + 1);
    } else {
        assert(es.take(k) =~= es);
    }
}

/// Appends to `acc` the expressions reached from `id` that it does not hold.
fn walk(
    body: &Body,
    id: NodeId,
    want: NodeClass,
    acc: &mut Vec<NodeId>,
    seen: &mut Vec<bool>,
) -> (r: Result<(), WalkError>)
    requires
        id < body@.len(),
        old(seen)@.len() == body@.len(),
        seen_matches(old(acc)@, old(seen)@),
    ensures
        final(seen)@.len() == body@.len(),
        seen_matches(final(acc)@, final(seen)@),
        match visit(body@, id, want) {
            Some(s) => r is Ok && final(acc)@ == add_all(old(acc)@, s),
            None => r == Err::<(), WalkError>(WalkError::UnexpectedNodeKind),
        },
    decreases id,
{
    proof {
        use_type_invariant(body);
    }
    let ghost acc0 = acc@;
    let edges: Vec<Edge> = match want {
        NodeClass::Expr => match expect_expr(body, id) {
            Ok(e) => {
                if !seen[id] {
                    acc.push(id);
                    seen.set(id, true);
                    proof {
                        lemma_push_contains(old(acc)@, id);
                    }
                }
                proof {
                    lemma_add_one(acc0, id);
                }
                expr_edges(&e.kind)
            },
            Err(err) => {
                return Err(err);
            },
        },
        NodeClass::Block => match expect_bolck(body, id) {
            Ok(b) => block_children(b),
            Err(err) => {
                return Err(err);
            },
        },
        NodeClass::Stmt => match expect_stmt(body, id) {
            Ok(s) => stmt_children(s),
            Err(err) => {
                return Err(err);
            },
        },
    };
    let ghost own: Seq<NodeId> = if want == NodeClass::Expr {
        seq![id]
    } else {
        seq![]
    };
    assert(acc@ == add_all(acc0, own));
    assert(edges@ == node_edges(body@[id as int]));
    let mut i: usize = 0;
    while i < edges.len()
        invariant
            0 <= i <= edges@.len(),
            edges@ == node_edges(body@[id as int]),
            id < body@.len(),
            body_wf(body@),
            seen@.len() == body@.len(),
            seen_matches(acc@, seen@),
            match visit_edges(body@, edges@.take(i as int), id) {
                Some(s) => acc@ == add_all(acc0, own + s),
                None => false,
            },
        decreases edges@.len() - i,
    {
        let e = edges[i];
        assert(edges@[i as int].target < id);
        let ghost prev = visit_edges(body@, edges@.take(i as int), id)->Some_0;
        proof {
            lemma_add_all_concat(acc0, own, prev);
        }
        let r = walk(body, e.target, e.class, acc, seen);
        assert(edges@.take(i + 1).drop_last() =~= edges@.take(i as int));
        assert(edges@.take(i + 1).last() == e);
        match r {
            Ok(()) => {},
            Err(err) => {
                proof {
                    lemma_visit_edges_prefix(body@, edges@, id, i + 1);
                }
                return Err(err);
            },
        }
        proof {
            let t = visit(body@, e.target, e.class)->Some_0;
            lemma_add_all_concat(add_all(acc0, own), prev, t);
            lemma_add_all_concat(acc0, own, prev + t);
            assert(own + (prev + t) =~= own + prev + t);
        }
        i += 1;
    }
    assert(edges@.take(i as int) =~= edges@);
    Ok(())
}

/// Walks from `root`, which must be of class `want`.
fn walk_from(body: &Body, root: NodeId, want: NodeClass) -> (r: Result<Vec<NodeId>, WalkError>)
    ensures
        match r {
            Ok(v) => walk_result(body@, root, want) == Ok::<Seq<NodeId>, WalkError>(v@),
            Err(e) => walk_result(body@, root, want) == Err::<Seq<NodeId>, WalkError>(e),
        },
        r is Ok ==> r->Ok_0@.no_duplicates(),
{
    if root >= body.len() {
        return Err(WalkError::NodeNotFound);
    }
    let mut acc: Vec<NodeId> = Vec::new();
    let mut seen: Vec<bool> = Vec::new();
    let n = body.len();
    let mut i: usize = 0;
    while i < n
        invariant
            0 <= i <= n,
            n == body@.len(),
            seen@.len() == i,
            forall|j: int| 0 <= j < i ==> !#[trigger] seen@[j],
        decreases n - i,
    {
        seen.push(false);
        i += 1;
    }
    match walk(body, root, want, &mut acc, &mut seen) {
        Ok(()) => {
            proof {
                lemma_add_all_contains(seq![], visit(body@, root, want)->Some_0);
                assert(Seq::<NodeId>::empty().no_duplicates());
            }
            Ok(acc)
        },
        Err(e) => Err(e),
    }
}

/// Every expression reached from the expression `id`, itself first.
pub fn list_exprs_in_expr(body: &Body, id: NodeId) -> (r: Result<Vec<NodeId>, WalkError>)
    ensures
        match r {
            Ok(v) => walk_result(body@, id, NodeClass::Expr) == Ok::<Seq<NodeId>, WalkError>(v@),
            Err(e) => walk_result(body@, id, NodeClass::Expr) == Err::<Seq<NodeId>, WalkError>(e),
        },
        r is Ok ==> r->Ok_0@.no_duplicates(),
        r is Ok ==> r->Ok_0@.len() > 0 && r->Ok_0@[0] == id,
{
    let r = walk_from(body, id, NodeClass::Expr);
    proof {
        if r is Ok {
            lemma_reachable_starts_at_root(body@, id);
        }
    }
    r
}

/// Every expression reached from the statements and trailing expression of
/// the block `id`.
pub fn list_exprs_in_block(body: &Body, id: NodeId) -> (r: Result<Vec<NodeId>, WalkError>)
    ensures
        match r {
            Ok(v) => walk_result(body@, id, NodeClass::Block) == Ok::<Seq<NodeId>, WalkError>(v@),
            Err(e) => walk_result(body@, id, NodeClass::Block) == Err::<Seq<NodeId>, WalkError>(e),
        },
        r is Ok ==> r->Ok_0@.no_duplicates(),
{
    walk_from(body, id, NodeClass::Block)
}

/// Every expression reached from the statement `id`.
pub fn list_exprs_in_stmt(body: &Body, id: NodeId) -> (r: Result<Vec<NodeId>, WalkError>)
    ensures
        match r {
            Ok(v) => walk_result(body@, id, NodeClass::Stmt) == Ok::<Seq<NodeId>, WalkError>(v@),
            Err(e) => walk_result(body@, id, NodeClass::Stmt) == Err::<Seq<NodeId>, WalkError>(e),
        },
        r is Ok ==> r->Ok_0@.no_duplicates(),
{
    walk_from(body, id, NodeClass::Stmt)
}

/// The reachable set of an expression starts with the expression itself.
pub proof fn lemma_reachable_starts_at_root(nodes: Seq<Node>, root: NodeId)
    requires
        reachable(nodes, root, NodeClass::Expr) is Some,
    ensures
        reachable(nodes, root, NodeClass::Expr)->Some_0.len() > 0,
        reachable(nodes, root, NodeClass::Expr)->Some_0[0] == root,
{
    let s = visit(nodes, root, NodeClass::Expr)->Some_0;
    let rest = visit_edges(nodes, node_edges(nodes[root as int]), root)->Some_0;
    assert(s == seq![root] + rest);
    lemma_add_all_concat(seq![], seq![root], rest);
    lemma_add_one(seq![], root);
    assert(seq![].push(root) =~= seq![root]);
    lemma_add_all_contains(seq![root], rest);
}

pub proof fn lemma_concat_contains(a: Seq<NodeId>, b: Seq<NodeId>)
    ensures
        forall|z: NodeId| #[trigger] (a + b).contains(z) <==> (a.contains(z) || b.contains(z)),
{
    assert forall|z: NodeId| #[trigger] (a + b).contains(z) <==> (a.contains(z) || b.contains(z)) by {
        if a.contains(z) {
            let k = choose|k: int| 0 <= k < a.len() && a[k] == z;
            assert((a + b)[k] == z);
        }
        if b.contains(z) {
            let k = choose|k: int| 0 <= k < b.len() && b[k] == z;
            assert((a + b)[a.len() + k] == z);
        }
        if (a + b).contains(z) {
            let k = choose|k: int| 0 <= k < (a + b).len() && (a + b)[k] == z;
            if k < a.len() {
                assert(a[k] == z);
            } else {
                assert(b[k - a.len()] == z);
            }
        }
    }
}

/// `y` is an expression whose own visit succeeds and stays within `s`.
pub open spec fn visit_within(nodes: Seq<Node>, y: NodeId, s: Seq<NodeId>) -> bool {
    &&& visit(nodes, y, NodeClass::Expr) is Some
    &&& forall|z: NodeId| #[trigger] visit(nodes, y, NodeClass::Expr)->Some_0.contains(z) ==> s.contains(z)
}

/// What a visit reaches, it reaches with everything below it.
pub proof fn lemma_visit_closed(nodes: Seq<Node>, x: NodeId, want: NodeClass)
    requires
        visit(nodes, x, want) is Some,
    ensures
        forall|y: NodeId| #[trigger] visit(nodes, x, want)->Some_0.contains(y) ==> visit_within(
            nodes,
            y,
            visit(nodes, x, want)->Some_0,
        ),
    decreases x, 1nat, 0nat,
{
    let s = visit(nodes, x, want)->Some_0;
    let own: Seq<NodeId> = if want == NodeClass::Expr {
        seq![x]
    } else {
        seq![]
    };
    let r = visit_edges(nodes, node_edges(nodes[x as int]), x)->Some_0;
    assert(s == own + r);
    lemma_visit_edges_closed(nodes, node_edges(nodes[x as int]), x);
    lemma_concat_contains(own, r);
    assert forall|y: NodeId| #[trigger] s.contains(y) implies visit_within(nodes, y, s) by {
        if r.contains(y) {
            assert(visit_within(nodes, y, r));
        } else {
            assert(own.contains(y));
            assert(own[0] == y);
        }
    }
}

pub proof fn lemma_visit_edges_closed(nodes: Seq<Node>, es: Seq<Edge>, bound: NodeId)
    requires
        visit_edges(nodes, es, bound) is Some,
    ensures
        forall|y: NodeId| #[trigger] visit_edges(nodes, es, bound)->Some_0.contains(y) ==> visit_within(
            nodes,
            y,
            visit_edges(nodes, es, bound)->Some_0,
        ),
    decreases bound, 0nat, es.len(),
{
    if es.len() > 0 {
        let r = visit_edges(nodes, es, bound)->Some_0;
        let p = visit_edges(nodes, es.drop_last(), bound)->Some_0;
        let t = visit(nodes, es.last().target, es.last().class)->Some_0;
        assert(r == p + t);
        lemma_visit_edges_closed(nodes, es.drop_last(), bound);
        lemma_visit_closed(nodes, es.last().target, es.last().class);
        lemma_concat_contains(p, t);
        assert forall|y: NodeId| #[trigger] r.contains(y) implies visit_within(nodes, y, r) by {
            if p.contains(y) {
                assert(visit_within(nodes, y, p));
            } else {
                assert(visit_within(nodes, y, t));
            }
        }
    }
}

/// Reachability is transitive: what an expression reached from `root`
/// reaches is reached from `root`.
pub proof fn lemma_reachable_transitive(nodes: Seq<Node>, root: NodeId, a: NodeId, b: NodeId)
    requires
        reachable(nodes, root, NodeClass::Expr) is Some,
        reachable(nodes, root, NodeClass::Expr)->Some_0.contains(a),
        reachable(nodes, a, NodeClass::Expr) is Some,
        reachable(nodes, a, NodeClass::Expr)->Some_0.contains(b),
    ensures
        reachable(nodes, root, NodeClass::Expr)->Some_0.contains(b),
{
    let s = visit(nodes, root, NodeClass::Expr)->Some_0;
    let t = visit(nodes, a, NodeClass::Expr)->Some_0;
    lemma_add_all_contains(seq![], s);
    lemma_add_all_contains(seq![], t);
    assert(s.contains(a));
    lemma_visit_closed(nodes, root, NodeClass::Expr);
    assert(visit_within(nodes, a, s));
    assert(t.contains(b));
}

} // verus!
