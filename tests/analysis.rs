use unsafe_blocks::analyze::analyze_function;
use unsafe_blocks::correlate::{list_unsafe_blocks_in, BasicBlockData, ControlFlowGraph};
use unsafe_blocks::defs::{list_functions, DefId, DefKind, Definition};
use unsafe_blocks::extract::list_unsafe_blocks_in_fn;
use unsafe_blocks::hir::{
    expect_bolck, expect_expr, expect_stmt, Block, Body, Expr, ExprKind, Node, Stmt, StmtKind,
    WalkError,
};
use unsafe_blocks::span::Span;
use unsafe_blocks::walk::{list_exprs_in_block, list_exprs_in_expr, list_exprs_in_stmt};

fn sp(lo: u32, hi: u32) -> Span {
    Span::new(lo, hi)
}

fn expr(body: &mut Body, kind: ExprKind, span: Span) -> usize {
    body.push(Node::Expr(Expr { kind, span })).unwrap()
}

fn stmt(body: &mut Body, kind: StmtKind, span: Span) -> usize {
    body.push(Node::Stmt(Stmt { kind, span })).unwrap()
}

fn block(body: &mut Body, stmts: Vec<usize>, tail: Option<usize>, is_unsafe: bool, span: Span) -> usize {
    body.push(Node::Block(Block { stmts, expr: tail, is_unsafe, span })).unwrap()
}

fn graph(blocks: Vec<Vec<Span>>) -> Option<ControlFlowGraph> {
    Some(ControlFlowGraph {
        basic_blocks: blocks
            .into_iter()
            .map(|statements| BasicBlockData { statements })
            .collect(),
    })
}

/// `{ let x = 1; unsafe { let y = x + 1; } y_usage(); }`, positions as in that text.
fn scenario_body() -> (Body, usize) {
    let mut b = Body::new();
    let one = expr(&mut b, ExprKind::Lit, sp(10, 11));
    let let_x = stmt(&mut b, StmtKind::Local(Some(one), None), sp(2, 12));
    let x = expr(&mut b, ExprKind::Path, sp(30, 31));
    let one2 = expr(&mut b, ExprKind::Lit, sp(34, 35));
    let add = expr(&mut b, ExprKind::Binary(x, one2), sp(30, 35));
    let let_y = stmt(&mut b, StmtKind::Local(Some(add), None), sp(22, 36));
    let ublk = block(&mut b, vec![let_y], None, true, sp(13, 38));
    let uexpr = expr(&mut b, ExprKind::Block(ublk), sp(13, 38));
    let ustmt = stmt(&mut b, StmtKind::Expr(uexpr), sp(13, 38));
    let callee = expr(&mut b, ExprKind::Path, sp(39, 46));
    let call = expr(&mut b, ExprKind::Call(callee, vec![]), sp(39, 48));
    let call_stmt = stmt(&mut b, StmtKind::Semi(call), sp(39, 49));
    let outer = block(&mut b, vec![let_x, ustmt, call_stmt], None, false, sp(0, 51));
    let root = expr(&mut b, ExprKind::Block(outer), sp(0, 51));
    (b, root)
}

#[test]
fn containment_is_full_interval() {
    let spans = vec![sp(10, 50)];
    let g = graph(vec![vec![sp(20, 25)], vec![sp(45, 60)], vec![sp(5, 9)]]);
    assert_eq!(list_unsafe_blocks_in(&g, &spans), vec![0]);
}

#[test]
fn span_within_bounds_inclusive() {
    assert!(sp(10, 50).is_within(&sp(10, 50)));
    assert!(sp(20, 25).is_within(&sp(10, 50)));
    assert!(!sp(45, 60).is_within(&sp(10, 50)));
    assert!(!sp(5, 9).is_within(&sp(10, 50)));
    assert!(!sp(5, 20).is_within(&sp(10, 50)));
}

#[test]
fn scenario_single_unsafe_block() {
    let (b, root) = scenario_body();
    let spans = list_unsafe_blocks_in_fn(&b, root).unwrap();
    assert_eq!(spans, vec![sp(13, 38)]);
    let g = graph(vec![
        vec![sp(10, 11), sp(6, 7)],
        vec![sp(30, 35), sp(26, 27)],
        vec![sp(39, 48)],
    ]);
    assert_eq!(list_unsafe_blocks_in(&g, &spans), vec![1]);
    let report = analyze_function(&b, root, &g).unwrap();
    assert_eq!(report.unsafe_spans, vec![sp(13, 38)]);
    assert_eq!(report.flagged_blocks, vec![1]);
}

#[test]
fn walk_visits_expression_before_children() {
    let (b, root) = scenario_body();
    let ids = list_exprs_in_expr(&b, root).unwrap();
    // root, `1`, `x + 1`'s block expression, `x + 1`, `x`, `1`, the call, its callee
    assert_eq!(ids, vec![13, 0, 7, 4, 2, 3, 10, 9]);
}

#[test]
fn reachable_contains_root() {
    let (b, root) = scenario_body();
    let ids = list_exprs_in_expr(&b, root).unwrap();
    assert!(ids.contains(&root));
    assert_eq!(ids[0], root);
    let mut b2 = Body::new();
    let lit = expr(&mut b2, ExprKind::Lit, sp(0, 1));
    assert_eq!(list_exprs_in_expr(&b2, lit).unwrap(), vec![lit]);
}

#[test]
fn closure_body_is_searched() {
    // `{ let f = || unsafe { 1 }; }`
    let mut b = Body::new();
    let one = expr(&mut b, ExprKind::Lit, sp(22, 23));
    let ublk = block(&mut b, vec![], Some(one), true, sp(13, 25));
    let uexpr = expr(&mut b, ExprKind::Block(ublk), sp(13, 25));
    let clo = expr(&mut b, ExprKind::Closure(uexpr), sp(10, 25));
    let let_f = stmt(&mut b, StmtKind::Local(Some(clo), None), sp(2, 26));
    let outer = block(&mut b, vec![let_f], None, false, sp(0, 28));
    let root = expr(&mut b, ExprKind::Block(outer), sp(0, 28));
    assert_eq!(list_unsafe_blocks_in_fn(&b, root).unwrap(), vec![sp(13, 25)]);
}

#[test]
fn no_graph_flags_nothing() {
    let spans = vec![sp(0, 100)];
    assert_eq!(list_unsafe_blocks_in(&None, &spans), Vec::<usize>::new());
    let (b, root) = scenario_body();
    let report = analyze_function(&b, root, &None).unwrap();
    assert_eq!(report.unsafe_spans, vec![sp(13, 38)]);
    assert!(report.flagged_blocks.is_empty());
}

#[test]
fn safe_body_has_no_spans_and_no_flags() {
    let mut b = Body::new();
    let one = expr(&mut b, ExprKind::Lit, sp(10, 11));
    let let_x = stmt(&mut b, StmtKind::Local(Some(one), None), sp(2, 12));
    let inner = block(&mut b, vec![], None, false, sp(13, 15));
    let inner_e = expr(&mut b, ExprKind::Block(inner), sp(13, 15));
    let outer = block(&mut b, vec![let_x], Some(inner_e), false, sp(0, 17));
    let root = expr(&mut b, ExprKind::Block(outer), sp(0, 17));
    let spans = list_unsafe_blocks_in_fn(&b, root).unwrap();
    assert!(spans.is_empty());
    let g = graph(vec![vec![sp(10, 11)], vec![sp(13, 15)]]);
    assert!(list_unsafe_blocks_in(&g, &spans).is_empty());
}

#[test]
fn nested_unsafe_blocks_each_reported() {
    // `unsafe { unsafe { f() } }`
    let mut b = Body::new();
    let f = expr(&mut b, ExprKind::Path, sp(18, 19));
    let call = expr(&mut b, ExprKind::Call(f, vec![]), sp(18, 21));
    let inner = block(&mut b, vec![], Some(call), true, sp(9, 23));
    let inner_e = expr(&mut b, ExprKind::Block(inner), sp(9, 23));
    let outer = block(&mut b, vec![], Some(inner_e), true, sp(0, 25));
    let root = expr(&mut b, ExprKind::Block(outer), sp(0, 25));
    let spans = list_unsafe_blocks_in_fn(&b, root).unwrap();
    assert_eq!(spans, vec![sp(0, 25), sp(9, 23)]);
}

#[test]
fn repeated_runs_agree() {
    let (b, root) = scenario_body();
    let g = graph(vec![vec![sp(10, 11)], vec![sp(30, 35)], vec![sp(39, 48)]]);
    let first = analyze_function(&b, root, &g).unwrap();
    let second = analyze_function(&b, root, &g).unwrap();
    assert_eq!(first, second);
    assert_eq!(first.flagged_blocks, vec![1]);
}

#[test]
fn empty_block_is_never_flagged() {
    let spans = vec![sp(0, 100)];
    let g = graph(vec![vec![], vec![sp(1, 2)]]);
    assert_eq!(list_unsafe_blocks_in(&g, &spans), vec![1]);
    assert!(list_unsafe_blocks_in(&g, &vec![]).is_empty());
}

#[test]
fn unknown_root_is_not_found() {
    let (b, _) = scenario_body();
    assert_eq!(list_exprs_in_expr(&b, 99), Err(WalkError::NodeNotFound));
    assert_eq!(list_unsafe_blocks_in_fn(&b, 99), Err(WalkError::NodeNotFound));
    assert_eq!(analyze_function(&b, 99, &None), Err(WalkError::NodeNotFound));
}

#[test]
fn wrong_kind_is_reported() {
    let (b, _) = scenario_body();
    // node 12 is a block, node 1 a statement
    assert_eq!(list_exprs_in_expr(&b, 12), Err(WalkError::UnexpectedNodeKind));
    assert_eq!(list_exprs_in_expr(&b, 1), Err(WalkError::UnexpectedNodeKind));
    let mut b2 = Body::new();
    let lit = expr(&mut b2, ExprKind::Lit, sp(0, 1));
    // a block expression that points at an expression
    let bad = expr(&mut b2, ExprKind::Block(lit), sp(0, 1));
    assert_eq!(list_exprs_in_expr(&b2, bad), Err(WalkError::UnexpectedNodeKind));
    assert_eq!(list_unsafe_blocks_in_fn(&b2, bad), Err(WalkError::UnexpectedNodeKind));
}

#[test]
fn push_refuses_forward_reference() {
    let mut b = Body::new();
    let r = b.push(Node::Expr(Expr { kind: ExprKind::Unary(0), span: sp(0, 1) }));
    assert_eq!(r, Err(WalkError::NodeNotFound));
    assert_eq!(b.len(), 0);
    let lit = expr(&mut b, ExprKind::Lit, sp(0, 1));
    assert_eq!(lit, 0);
    assert_eq!(b.len(), 1);
}

#[test]
fn block_and_stmt_walks() {
    let (b, _) = scenario_body();
    assert_eq!(list_exprs_in_block(&b, 6).unwrap(), vec![4, 2, 3]);
    assert_eq!(list_exprs_in_stmt(&b, 11).unwrap(), vec![10, 9]);
    assert_eq!(list_exprs_in_block(&b, 13), Err(WalkError::UnexpectedNodeKind));
    assert!(expect_bolck(&b, 6).unwrap().is_unsafe);
    assert_eq!(expect_stmt(&b, 6).err(), Some(WalkError::UnexpectedNodeKind));
    assert_eq!(expect_expr(&b, 50).err(), Some(WalkError::NodeNotFound));
}

#[test]
fn carried_expressions_are_reached() {
    // `loop { break unsafe { 2 }; }` and a match with a struct literal arm
    let mut b = Body::new();
    let two = expr(&mut b, ExprKind::Lit, sp(20, 21));
    let ublk = block(&mut b, vec![], Some(two), true, sp(13, 23));
    let ue = expr(&mut b, ExprKind::Block(ublk), sp(13, 23));
    let brk = expr(&mut b, ExprKind::Break(Some(ue)), sp(7, 23));
    let s = stmt(&mut b, StmtKind::Semi(brk), sp(7, 24));
    let lb = block(&mut b, vec![s], None, false, sp(5, 26));
    let lp = expr(&mut b, ExprKind::Loop(lb), sp(0, 26));
    let base = expr(&mut b, ExprKind::Path, sp(40, 41));
    let field = expr(&mut b, ExprKind::Lit, sp(35, 36));
    let st = expr(&mut b, ExprKind::Struct(vec![field], Some(base)), sp(30, 42));
    let m = expr(&mut b, ExprKind::Match(lp, vec![st]), sp(0, 43));
    let ids = list_exprs_in_expr(&b, m).unwrap();
    assert_eq!(ids, vec![m, lp, brk, ue, two, st, field, base]);
    assert_eq!(list_unsafe_blocks_in_fn(&b, m).unwrap(), vec![sp(13, 23)]);
}

#[test]
fn shared_node_listed_once() {
    let mut b = Body::new();
    let x = expr(&mut b, ExprKind::Path, sp(0, 1));
    let sum = expr(&mut b, ExprKind::Binary(x, x), sp(0, 5));
    assert_eq!(list_exprs_in_expr(&b, sum).unwrap(), vec![sum, x]);
}

#[test]
fn functions_and_methods_are_listed() {
    let d = |index: u32, kind: DefKind| Definition { def_id: DefId { krate: 0, index }, kind };
    let defs = vec![
        d(1, DefKind::Fn),
        d(2, DefKind::Const),
        d(3, DefKind::AssocFn),
        d(4, DefKind::Closure),
        d(5, DefKind::Static),
        d(6, DefKind::Fn),
    ];
    let ids: Vec<u32> = list_functions(&defs).iter().map(|id| id.index).collect();
    assert_eq!(ids, vec![1, 3, 6]);
    assert!(list_functions(&vec![]).is_empty());
}
