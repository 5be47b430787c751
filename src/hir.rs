//! The node model of a function body: expressions, blocks and statements
//! stored in one arena and addressed by their index.
use vstd::prelude::*;
use crate::span::Span;

verus! {

/// Identity of a node: its index in the body's arena.
pub type NodeId = usize;

/// The kind of an expression, with the identities of its direct children.
#[derive(Clone, Debug, PartialEq, Eq)]
pub enum ExprKind {
    Box(NodeId),
    /// An inline constant; the identity is the root of its nested body.
    ConstBlock(NodeId),
    Array(Vec<NodeId>),
    /// The callee, then the arguments.
    Call(NodeId, Vec<NodeId>),
    /// The receiver, then the arguments.
    MethodCall(NodeId, Vec<NodeId>),
    Tup(Vec<NodeId>),
    Binary(NodeId, NodeId),
    Unary(NodeId),
    Lit,
    Cast(NodeId),
    /// Type ascription.
    Type(NodeId),
    /// Wrapper that marks where temporaries are dropped.
    DropTemps(NodeId),
    /// The initializer of a `let` condition.
    Let(NodeId),
    /// Condition, then-branch, optional else-branch.
    If(NodeId, NodeId, Option<NodeId>),
    /// The identity is that of the loop's block.
    Loop(NodeId),
    /// The scrutinee, then the body of each arm.
    Match(NodeId, Vec<NodeId>),
    /// The identity is the root of the closure's nested body.
    Closure(NodeId),
    /// The identity is that of the block.
    Block(NodeId),
    Assign(NodeId, NodeId),
    AssignOp(NodeId, NodeId),
    Field(NodeId),
    Index(NodeId, NodeId),
    Path,
    AddrOf(NodeId),
    Break(Option<NodeId>),
    Continue(Option<NodeId>),
    Ret(Option<NodeId>),
    InlineAsm,
    /// The field initializers, then the optional base of a functional update.
    Struct(Vec<NodeId>, Option<NodeId>),
    Repeat(NodeId),
    Yield(NodeId),
    Error,
}

#[derive(Clone, Debug, PartialEq, Eq)]
pub struct Expr {
    pub kind: ExprKind,
    pub span: Span,
}

/// A sequence of statements with an optional trailing expression.
#[derive(Clone, Debug, PartialEq, Eq)]
pub struct Block {
    pub stmts: Vec<NodeId>,
    pub expr: Option<NodeId>,
    pub is_unsafe: bool,
    pub span: Span,
}

#[derive(Clone, Debug, PartialEq, Eq)]
pub enum StmtKind {
    /// A `let` binding: optional initializer expression, optional `else` block.
    Local(Option<NodeId>, Option<NodeId>),
    /// A nested item; it holds no expression of this body.
    Item,
    /// An expression whose value is the block's value.
    Expr(NodeId),
    /// An expression whose value is discarded.
    Semi(NodeId),
}

#[derive(Clone, Debug, PartialEq, Eq)]
pub struct Stmt {
    pub kind: StmtKind,
    pub span: Span,
}

#[derive(Clone, Debug, PartialEq, Eq)]
pub enum Node {
    Expr(Expr),
    Block(Block),
    Stmt(Stmt),
}

#[derive(Clone, Copy, Debug, PartialEq, Eq, Structural)]
pub enum NodeClass {
    Expr,
    Block,
    Stmt,
}

/// A reference from one node to another, with the class the target must have.
#[derive(Clone, Copy, Debug, PartialEq, Eq, Structural)]
pub struct Edge {
    pub target: NodeId,
    pub class: NodeClass,
}

#[derive(Clone, Copy, Debug, PartialEq, Eq, Structural)]
pub enum WalkError {
    /// An identity does not name a node of the body.
    NodeNotFound,
    /// A node was found, but of another class than required.
    UnexpectedNodeKind,
}

pub open spec fn class_of(n: Node) -> NodeClass {
    match n {
        Node::Expr(_) => NodeClass::Expr,
        Node::Block(_) => NodeClass::Block,
        Node::Stmt(_) => NodeClass::Stmt,
    }
}

pub open spec fn expr_edge(id: NodeId) -> Edge {
    Edge { target: id, class: NodeClass::Expr }
}

pub open spec fn expr_edges_of(ids: Seq<NodeId>) -> Seq<Edge> {
    ids.map_values(|i: NodeId| expr_edge(i))
}

pub open spec fn opt_edges(o: Option<NodeId>, class: NodeClass) -> Seq<Edge> {
    match o {
        Some(i) => seq![Edge { target: i, class }],
        None => seq![],
    }
}

/// The direct children of an expression, in source order. A loop or a block
/// expression leads to its block.
pub open spec fn expr_kind_edges(k: ExprKind) -> Seq<Edge> {
    match k {
        ExprKind::Box(e) => seq![expr_edge(e)],
        ExprKind::ConstBlock(e) => seq![expr_edge(e)],
        ExprKind::Array(v) => expr_edges_of(v@),
        ExprKind::Call(f, v) => seq![expr_edge(f)] + expr_edges_of(v@),
        ExprKind::MethodCall(r, v) => seq![expr_edge(r)] + expr_edges_of(v@),
        ExprKind::Tup(v) => expr_edges_of(v@),
        ExprKind::Binary(a, b) => seq![expr_edge(a), expr_edge(b)],
        ExprKind::Unary(e) => seq![expr_edge(e)],
        ExprKind::Lit => seq![],
        ExprKind::Cast(e) => seq![expr_edge(e)],
        ExprKind::Type(e) => seq![expr_edge(e)],
        ExprKind::DropTemps(e) => seq![expr_edge(e)],
        ExprKind::Let(e) => seq![expr_edge(e)],
        ExprKind::If(c, t, o) => seq![expr_edge(c), expr_edge(t)] + opt_edges(o, NodeClass::Expr),
        ExprKind::Loop(b) => seq![Edge { target: b, class: NodeClass::Block }],
        ExprKind::Match(s, arms) => seq![expr_edge(s)] + expr_edges_of(arms@),
        ExprKind::Closure(e) => seq![expr_edge(e)],
        ExprKind::Block(b) => seq![Edge { target: b, class: NodeClass::Block }],
        ExprKind::Assign(a, b) => seq![expr_edge(a), expr_edge(b)],
        ExprKind::AssignOp(a, b) => seq![expr_edge(a), expr_edge(b)],
        ExprKind::Field(e) => seq![expr_edge(e)],
        ExprKind::Index(a, b) => seq![expr_edge(a), expr_edge(b)],
        ExprKind::Path => seq![],
        ExprKind::AddrOf(e) => seq![expr_edge(e)],
        ExprKind::Break(o) => opt_edges(o, NodeClass::Expr),
        ExprKind::Continue(o) => opt_edges(o, NodeClass::Expr),
        ExprKind::Ret(o) => opt_edges(o, NodeClass::Expr),
        ExprKind::InlineAsm => seq![],
        ExprKind::Struct(fields, base) => expr_edges_of(fields@) + opt_edges(base, NodeClass::Expr),
        ExprKind::Repeat(e) => seq![expr_edge(e)],
        ExprKind::Yield(e) => seq![expr_edge(e)],
        ExprKind::Error => seq![],
    }
}

/// The statements of a block in order, then its trailing expression.
pub open spec fn block_edges(b: Block) -> Seq<Edge> {
    b.stmts@.map_values(|i: NodeId| Edge { target: i, class: NodeClass::Stmt }) + opt_edges(
        b.expr,
        NodeClass::Expr,
    )
}

pub open spec fn stmt_edges(s: Stmt) -> Seq<Edge> {
    match s.kind {
        StmtKind::Local(init, els) => opt_edges(init, NodeClass::Expr) + opt_edges(
            els,
            NodeClass::Block,
        ),
        StmtKind::Item => seq![],
        StmtKind::Expr(e) => seq![expr_edge(e)],
        StmtKind::Semi(e) => seq![expr_edge(e)],
    }
}

pub open spec fn node_edges(n: Node) -> Seq<Edge> {
    match n {
        Node::Expr(e) => expr_kind_edges(e.kind),
        Node::Block(b) => block_edges(b),
        Node::Stmt(s) => stmt_edges(s),
    }
}

/// Every node refers only to nodes stored before it, so the body is acyclic.
pub open spec fn body_wf(nodes: Seq<Node>) -> bool {
    forall|i: int, j: int|
        0 <= i < nodes.len() && 0 <= j < node_edges(#[trigger] nodes[i]).len()
            ==> (#[trigger] node_edges(nodes[i])[j]).target < i
}

fn push_expr_edges(v: &mut Vec<Edge>, ids: &Vec<NodeId>)
    ensures
        final(v)@ == old(v)@ + expr_edges_of(ids@),
{
    let mut i: usize = 0;
    while i < ids.len()
        invariant
            0 <= i <= ids@.len(),
            v@ == old(v)@ + expr_edges_of(ids@.take(i as int)),
        decreases ids@.len() - i,
    {
        v.push(Edge { target: ids[i], class: NodeClass::Expr });
        i += 1;
        assert(expr_edges_of(ids@.take(i as int)) =~= expr_edges_of(ids@.take(i - 1)).push(
            expr_edge(ids@[i - 1]),
        ));
    }
    assert(ids@.take(i as int) =~= ids@);
}

fn push_opt_edge(v: &mut Vec<Edge>, o: Option<NodeId>, class: NodeClass)
    ensures
        final(v)@ == old(v)@ + opt_edges(o, class),
{
    match o {
        Some(i) => {
            v.push(Edge { target: i, class });
        },
        None => {},
    }
    assert(final(v)@ =~= old(v)@ + opt_edges(o, class));
}

fn one(id: NodeId) -> (r: Vec<Edge>)
    ensures
        r@ == seq![expr_edge(id)],
{
    let mut v = Vec::new();
    v.push(Edge { target: id, class: NodeClass::Expr });
    assert(v@ =~= seq![expr_edge(id)]);
    v
}

fn two(a: NodeId, b: NodeId) -> (r: Vec<Edge>)
    ensures
        r@ == seq![expr_edge(a), expr_edge(b)],
{
    let mut v = Vec::new();
    v.push(Edge { target: a, class: NodeClass::Expr });
    v.push(Edge { target: b, class: NodeClass::Expr });
    assert(v@ =~= seq![expr_edge(a), expr_edge(b)]);
    v
}

/// The direct children of an expression, in source order.
pub fn expr_edges(k: &ExprKind) -> (r: Vec<Edge>)
    ensures
        r@ == expr_kind_edges(*k),
{
    match k {
        ExprKind::Box(e) => one(*e),
        ExprKind::ConstBlock(e) => one(*e),
        ExprKind::Array(v) => {
            let mut r = Vec::new();
            push_expr_edges(&mut r, v);
            r
        },
        ExprKind::Call(f, v) => {
            let mut r = one(*f);
            push_expr_edges(&mut r, v);
            r
        },
        ExprKind::MethodCall(f, v) => {
            let mut r = one(*f);
            push_expr_edges(&mut r, v);
            r
        },
        ExprKind::Tup(v) => {
            let mut r = Vec::new();
            push_expr_edges(&mut r, v);
            r
        },
        ExprKind::Binary(a, b) => two(*a, *b),
        ExprKind::Unary(e) => one(*e),
        ExprKind::Lit => Vec::new(),
        ExprKind::Cast(e) => one(*e),
        ExprKind::Type(e) => one(*e),
        ExprKind::DropTemps(e) => one(*e),
        ExprKind::Let(e) => one(*e),
        ExprKind::If(c, t, o) => {
            let mut r = two(*c, *t);
            push_opt_edge(&mut r, *o, NodeClass::Expr);
            r
        },
        ExprKind::Loop(b) => {
            let mut r = Vec::new();
            push_opt_edge(&mut r, Some(*b), NodeClass::Block);
            r
        },
        ExprKind::Match(s, arms) => {
            let mut r = one(*s);
            push_expr_edges(&mut r, arms);
            r
        },
        ExprKind::Closure(e) => one(*e),
        ExprKind::Block(b) => {
            let mut r = Vec::new();
            push_opt_edge(&mut r, Some(*b), NodeClass::Block);
            r
        },
        ExprKind::Assign(a, b) => two(*a, *b),
        ExprKind::AssignOp(a, b) => two(*a, *b),
        ExprKind::Field(e) => one(*e),
        ExprKind::Index(a, b) => two(*a, *b),
        ExprKind::Path => Vec::new(),
        ExprKind::AddrOf(e) => one(*e),
        ExprKind::Break(o) => {
            let mut r = Vec::new();
            push_opt_edge(&mut r, *o, NodeClass::Expr);
            r
        },
        ExprKind::Continue(o) => {
            let mut r = Vec::new();
            push_opt_edge(&mut r, *o, NodeClass::Expr);
            r
        },
        ExprKind::Ret(o) => {
            let mut r = Vec::new();
            push_opt_edge(&mut r, *o, NodeClass::Expr);
            r
        },
        ExprKind::InlineAsm => Vec::new(),
        ExprKind::Struct(fields, base) => {
            let mut r = Vec::new();
            push_expr_edges(&mut r, fields);
            push_opt_edge(&mut r, *base, NodeClass::Expr);
            r
        },
        ExprKind::Repeat(e) => one(*e),
        ExprKind::Yield(e) => one(*e),
        ExprKind::Error => Vec::new(),
    }
}

/// The statements of a block, then its trailing expression.
pub fn block_children(b: &Block) -> (r: Vec<Edge>)
    ensures
        r@ == block_edges(*b),
{
    let mut r: Vec<Edge> = Vec::new();
    let mut i: usize = 0;
    while i < b.stmts.len()
        invariant
            0 <= i <= b.stmts@.len(),
            r@ == b.stmts@.take(i as int).map_values(
                |s: NodeId| Edge { target: s, class: NodeClass::Stmt },
            ),
        decreases b.stmts@.len() - i,
    {
        r.push(Edge { target: b.stmts[i], class: NodeClass::Stmt });
        i += 1;
        assert(r@ =~= b.stmts@.take(i as int).map_values(
            |s: NodeId| Edge { target: s, class: NodeClass::Stmt },
        ));
    }
    assert(b.stmts@.take(i as int) =~= b.stmts@);
    push_opt_edge(&mut r, b.expr, NodeClass::Expr);
    r
}

pub fn stmt_children(s: &Stmt) -> (r: Vec<Edge>)
    ensures
        r@ == stmt_edges(*s),
{
    match &s.kind {
        StmtKind::Local(init, els) => {
            let mut r = Vec::new();
            push_opt_edge(&mut r, *init, NodeClass::Expr);
            push_opt_edge(&mut r, *els, NodeClass::Block);
            assert(r@ =~= stmt_edges(*s));
            r
        },
        StmtKind::Item => Vec::new(),
        StmtKind::Expr(e) => one(*e),
        StmtKind::Semi(e) => one(*e),
    }
}

pub fn node_children(n: &Node) -> (r: Vec<Edge>)
    ensures
        r@ == node_edges(*n),
{
    match n {
        Node::Expr(e) => expr_edges(&e.kind),
        Node::Block(b) => block_children(b),
        Node::Stmt(s) => stmt_children(s),
    }
}

/// The nodes of one function body, closures' nested bodies included.
/// Children are stored before their parents.
pub struct Body {
    nodes: Vec<Node>,
}

impl View for Body {
    type V = Seq<Node>;

    closed spec fn view(&self) -> Seq<Node> {
        self.nodes@
    }
}

impl Body {
    #[verifier::type_invariant]
    pub open spec fn wf(&self) -> bool {
        body_wf(self@)
    }

    pub fn new() -> (r: Body)
        ensures
            r@ == Seq::<Node>::empty(),
    {
        Body { nodes: Vec::new() }
    }

    pub fn len(&self) -> (r: usize)
        ensures
            r == self@.len(),
    {
        self.nodes.len()
    }

    /// Appends a node and returns its identity. A node that refers to an
    /// identity not yet in the body is refused.
    pub fn push(&mut self, node: Node) -> (r: Result<NodeId, WalkError>)
        ensures
            match r {
                Ok(id) => {
                    &&& id == old(self)@.len()
                    &&& final(self)@ == old(self)@.push(node)
                },
                Err(e) => {
                    &&& e == WalkError::NodeNotFound
                    &&& final(self)@ == old(self)@
                },
            },
            r is Ok <==> forall|j: int|
                0 <= j < node_edges(node).len() ==> #[trigger] node_edges(node)[j].target
                    < old(self)@.len(),
    {
        proof {
            use_type_invariant(&*self);
        }
        let edges = node_children(&node);
        let len = self.nodes.len();
        let mut i: usize = 0;
        while i < edges.len()
            invariant
                0 <= i <= edges@.len(),
                edges@ == node_edges(node),
                len == self@.len(),
                forall|j: int| 0 <= j < i ==> #[trigger] edges@[j].target < len,
            decreases edges@.len() - i,
        {
            if edges[i].target >= len {
                return Err(WalkError::NodeNotFound);
            }
            i += 1;
        }
        let mut nodes = Vec::new();
        std::mem::swap(&mut nodes, &mut self.nodes);
        nodes.push(node);
        assert forall|a: int, j: int|
            0 <= a < nodes@.len() && 0 <= j < node_edges(#[trigger] nodes@[a]).len() implies (
            #[trigger] node_edges(nodes@[a])[j]).target < a by {
            if a < len {
                assert(nodes@[a] == old(self)@[a]);
            }
        }
        self.nodes = nodes;
        Ok(len)
    }

    /// The node with identity `id`, if there is one.
    pub fn get(&self, id: NodeId) -> (r: Option<&Node>)
        ensures
            match r {
                Some(n) => id < self@.len() && *n == self@[id as int],
                None => id >= self@.len(),
            },
    {
        if id < self.nodes.len() {
            Some(&self.nodes[id])
        } else {
            None
        }
    }
}

/// The expression with identity `id`.
pub fn expect_expr(body: &Body, id: NodeId) -> (r: Result<&Expr, WalkError>)
    ensures
        match r {
            Ok(e) => id < body@.len() && body@[id as int] == Node::Expr(*e),
            Err(err) => if id >= body@.len() {
                err == WalkError::NodeNotFound
            } else {
                err == WalkError::UnexpectedNodeKind && class_of(body@[id as int]) != NodeClass::Expr
            },
        },
{
    match body.get(id) {
        Some(Node::Expr(e)) => Ok(e),
        Some(_) => Err(WalkError::UnexpectedNodeKind),
        None => Err(WalkError::NodeNotFound),
    }
}

/// The block with identity `id`.
pub fn expect_bolck(body: &Body, id: NodeId) -> (r: Result<&Block, WalkError>)
    ensures
        match r {
            Ok(b) => id < body@.len() && body@[id as int] == Node::Block(*b),
            Err(err) => if id >= body@.len() {
                err == WalkError::NodeNotFound
            } else {
                err == WalkError::UnexpectedNodeKind && class_of(body@[id as int]) != NodeClass::Block
            },
        },
{
    match body.get(id) {
        Some(Node::Block(b)) => Ok(b),
        Some(_) => Err(WalkError::UnexpectedNodeKind),
        None => Err(WalkError::NodeNotFound),
    }
}

/// The statement with identity `id`.
pub fn expect_stmt(body: &Body, id: NodeId) -> (r: Result<&Stmt, WalkError>)
    ensures
        match r {
            Ok(s) => id < body@.len() && body@[id as int] == Node::Stmt(*s),
            Err(err) => if id >= body@.len() {
                err == WalkError::NodeNotFound
            } else {
                err == WalkError::UnexpectedNodeKind && class_of(body@[id as int]) != NodeClass::Stmt
            },
        },
{
    match body.get(id) {
        Some(Node::Stmt(s)) => Ok(s),
        Some(_) => Err(WalkError::UnexpectedNodeKind),
        None => Err(WalkError::NodeNotFound),
    }
}

} // verus!
