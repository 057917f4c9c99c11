//! The syntax tree that the parser builds and the evaluator walks.

use vstd::prelude::*;

use crate::{Op, Value, ValueView};

verus! {

/// A node of the syntax tree: a statement or an expression. A node owns its
/// children.
#[allow(inconsistent_fields)]
#[derive(Debug, PartialEq)]
pub enum Node {
    Block(Vec<Node>),
    Assign { ident: String, value: Box<Node> },
    ArrayAssign { ident: String, size: Box<Node> },
    ArrayAssingIndex { ident: String, index: Box<Node>, value: Box<Node> },
    IfExpr { expr: Box<Node>, then: Box<Node>, els: Box<Node> },
    WhileStmt { expr: Box<Node>, body: Box<Node> },
    FuncCall { ident: String, args: Vec<Node> },
    VariableRef(String),
    ArrayRef { ident: String, index: Box<Node> },
    BinaryExpr { left: Box<Node>, operator: Op, right: Box<Node> },
    DotExpr { left: String, right: String },
    Primary(Value),
}

/// What a [`Node`] is, as mathematics.
#[allow(inconsistent_fields)]
pub enum NodeView {
    Block(Seq<NodeView>),
    Assign { ident: Seq<char>, value: Box<NodeView> },
    ArrayAssign { ident: Seq<char>, size: Box<NodeView> },
    ArrayAssingIndex { ident: Seq<char>, index: Box<NodeView>, value: Box<NodeView> },
    IfExpr { expr: Box<NodeView>, then: Box<NodeView>, els: Box<NodeView> },
    WhileStmt { expr: Box<NodeView>, body: Box<NodeView> },
    FuncCall { ident: Seq<char>, args: Seq<NodeView> },
    VariableRef(Seq<char>),
    ArrayRef { ident: Seq<char>, index: Box<NodeView> },
    BinaryExpr { left: Box<NodeView>, operator: Op, right: Box<NodeView> },
    DotExpr { left: Seq<char>, right: Seq<char> },
    Primary(ValueView),
}

impl View for Node {
    type V = NodeView;

    open spec fn view(&self) -> NodeView
        decreases self, 0nat,
    {
        match self {
            Node::Block(nodes) => NodeView::Block(leading_nodes(nodes@, nodes@.len())),
            Node::Assign { ident, value } => NodeView::Assign {
                ident: ident@,
                value: Box::new((**value).view()),
            },
            Node::ArrayAssign { ident, size } => NodeView::ArrayAssign {
                ident: ident@,
                size: Box::new((**size).view()),
            },
            Node::ArrayAssingIndex { ident, index, value } => NodeView::ArrayAssingIndex {
                ident: ident@,
                index: Box::new((**index).view()),
                value: Box::new((**value).view()),
            },
            Node::IfExpr { expr, then, els } => NodeView::IfExpr {
                expr: Box::new((**expr).view()),
                then: Box::new((**then).view()),
                els: Box::new((**els).view()),
            },
            Node::WhileStmt { expr, body } => NodeView::WhileStmt {
                expr: Box::new((**expr).view()),
                body: Box::new((**body).view()),
            },
            Node::FuncCall { ident, args } => NodeView::FuncCall {
                ident: ident@,
                args: leading_nodes(args@, args@.len()),
            },
            Node::VariableRef(ident) => NodeView::VariableRef(ident@),
            Node::ArrayRef { ident, index } => NodeView::ArrayRef {
                ident: ident@,
                index: Box::new((**index).view()),
            },
            Node::BinaryExpr { left, operator, right } => NodeView::BinaryExpr {
                left: Box::new((**left).view()),
                operator: *operator,
                right: Box::new((**right).view()),
            },
            Node::DotExpr { left, right } => NodeView::DotExpr { left: left@, right: right@ },
            Node::Primary(value) => NodeView::Primary(value@),
        }
    }
}

/// The views of the first `n` nodes.
pub open spec fn leading_nodes(nodes: Seq<Node>, n: nat) -> Seq<NodeView>
    decreases nodes, n,
{
    if n == 0 || n > nodes.len() {
        Seq::empty()
    } else {
        leading_nodes(nodes, (n - 1) as nat).push(nodes[n - 1]@)
    }
}

/// The views of a sequence of nodes, node by node.
pub open spec fn nodes_view(nodes: Seq<Node>) -> Seq<NodeView> {
    Seq::new(nodes.len(), |i: int| nodes[i]@)
}

/// The views of the first `n` nodes are the first `n` of the nodes' views.
pub proof fn lemma_leading_nodes(nodes: Seq<Node>, n: nat)
    requires
        n <= nodes.len(),
    ensures
        leading_nodes(nodes, n) == nodes_view(nodes).take(n as int),
    decreases n,
{
    if n > 0 {
        lemma_leading_nodes(nodes, (n - 1) as nat);
        let a = leading_nodes(nodes, n);
        let b = nodes_view(nodes).take(n as int);
        assert(a == leading_nodes(nodes, (n - 1) as nat).push(nodes[n - 1]@));
        assert forall|i: int| 0 <= i < n implies a[i] == b[i] by {}
    } else {
    }
}

/// A block's view is the views of its statements.
pub proof fn lemma_block_view(nodes: Seq<Node>)
    ensures
        leading_nodes(nodes, nodes.len()) == nodes_view(nodes),
{
    lemma_leading_nodes(nodes, nodes.len());
}

/// A copy of each node of `nodes`.
fn clone_nodes(nodes: &Vec<Node>) -> (out: Vec<Node>)
    ensures
        nodes_view(out@) == nodes_view(nodes@),
    decreases nodes, 1nat,
{
    let mut out: Vec<Node> = Vec::new();
    let mut i: usize = 0;
    while i < nodes.len()
        invariant
            i <= nodes.len(),
            out@.len() == i,
            forall|j: int| 0 <= j < i ==> out@[j]@ == nodes@[j]@,
        decreases nodes.len() - i,
    {
        out.push(nodes[i].clone());
        i += 1;
    }
    out
}

impl Clone for Node {
    fn clone(&self) -> (r: Self)
        ensures
            r@ == self@,
        decreases self, 0nat,
    {
        match self {
            Node::Block(nodes) => {
                let copy = clone_nodes(nodes);
                proof {
                    lemma_block_view(copy@);
                    lemma_block_view(nodes@);
                }
                Node::Block(copy)
            },
            Node::Assign { ident, value } => Node::Assign {
                ident: ident.clone(),
                value: Box::new((**value).clone()),
            },
            Node::ArrayAssign { ident, size } => Node::ArrayAssign {
                ident: ident.clone(),
                size: Box::new((**size).clone()),
            },
            Node::ArrayAssingIndex { ident, index, value } => Node::ArrayAssingIndex {
                ident: ident.clone(),
                index: Box::new((**index).clone()),
                value: Box::new((**value).clone()),
            },
            Node::IfExpr { expr, then, els } => Node::IfExpr {
                expr: Box::new((**expr).clone()),
                then: Box::new((**then).clone()),
                els: Box::new((**els).clone()),
            },
            Node::WhileStmt { expr, body } => Node::WhileStmt {
                expr: Box::new((**expr).clone()),
                body: Box::new((**body).clone()),
            },
            Node::FuncCall { ident, args } => {
                let copy = clone_nodes(args);
                proof {
                    lemma_block_view(copy@);
                    lemma_block_view(args@);
                }
                Node::FuncCall { ident: ident.clone(), args: copy }
            },
            Node::VariableRef(ident) => Node::VariableRef(ident.clone()),
            Node::ArrayRef { ident, index } => Node::ArrayRef {
                ident: ident.clone(),
                index: Box::new((**index).clone()),
            },
            Node::BinaryExpr { left, operator, right } => Node::BinaryExpr {
                left: Box::new((**left).clone()),
                operator: *operator,
                right: Box::new((**right).clone()),
            },
            Node::DotExpr { left, right } => Node::DotExpr {
                left: left.clone(),
                right: right.clone(),
            },
            Node::Primary(value) => Node::Primary(value.clone()),
        }
    }
}

} // verus!
