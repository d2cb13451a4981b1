//! The abstract syntax tree model: the closed set of node variants the
//! parser produces, its ghost mirror, and the parse error type.

use vstd::prelude::*;

verus! {

broadcast use vstd::std_specs::vec::group_vec_axioms;

/// A type keyword.
#[derive(Debug, Clone, Copy, PartialEq, Eq)]
pub enum Type {
    IntT,
    FloatT,
    CharT,
    BoolT,
    VoidT,
}

/// A binary operator.
#[derive(Debug, Clone, Copy, PartialEq, Eq)]
pub enum BinOp {
    Assignment,
    Add,
    Sub,
    Mul,
    Div,
    Equal,
    NotEqual,
    Lesser,
    Bigger,
    LesserEqual,
    BiggerEqual,
    UnAdd,
    UnSub,
    UnMul,
    UnDiv,
}

/// A unary operator.
#[derive(Debug, Clone, Copy, PartialEq, Eq)]
pub enum UnOp {
    Negation,
    Inc,
    Dec,
}

/// An AST node. A `Block` owns an ordered sequence of children; order is
/// source order. The `next` field of an `If` chain holds either another `If`
/// (an `else if` continuation), an `Else`, or `Empty` when there is no
/// alternative branch. `Empty` is the sentinel for an absent optional branch.
/// A float literal carries its source lexeme, as in the token model.
#[derive(Debug, PartialEq, Eq)]
pub enum Node {
    FuncDef { ret_t: Type, name: Box<Node>, args: Box<Node>, block: Box<Node> },
    FuncCall { name: Box<Node>, args: Box<Node> },
    If { cond: Box<Node>, block: Box<Node>, next: Box<Node> },
    Else { block: Box<Node> },
    While { cond: Box<Node>, block: Box<Node> },
    VarDef { var_t: Type, name: Box<Node> },
    Var { name: Box<Node> },
    Block { vec: Vec<Node> },
    Expr { e: Box<Node> },
    BinE { exprl: Box<Node>, op: BinOp, exprr: Box<Node> },
    UnE { op: UnOp, expr: Box<Node> },
    Id { id: String },
    IntN { n: i32 },
    FloatN { lexeme: String },
    CharN { n: u8 },
    BoolTrue,
    BoolFalse,
    Empty,
}

/// The ghost mirror of `Node`: identical except that identifier and float
/// lexemes are character sequences and a block's children form a `Seq`, so
/// that specifications can build whole trees.
pub enum SpecNode {
    FuncDef { ret_t: Type, name: Box<SpecNode>, args: Box<SpecNode>, block: Box<SpecNode> },
    FuncCall { name: Box<SpecNode>, args: Box<SpecNode> },
    If { cond: Box<SpecNode>, block: Box<SpecNode>, next: Box<SpecNode> },
    Else { block: Box<SpecNode> },
    While { cond: Box<SpecNode>, block: Box<SpecNode> },
    VarDef { var_t: Type, name: Box<SpecNode> },
    Var { name: Box<SpecNode> },
    Block { vec: Seq<SpecNode> },
    Expr { e: Box<SpecNode> },
    BinE { exprl: Box<SpecNode>, op: BinOp, exprr: Box<SpecNode> },
    UnE { op: UnOp, expr: Box<SpecNode> },
    Id { id: Seq<char> },
    IntN { n: i32 },
    FloatN { lexeme: Seq<char> },
    CharN { n: u8 },
    BoolTrue,
    BoolFalse,
    Empty,
}

/// The ghost mirror of a node; the `View` of `Node` delegates here, since
/// the mapping is recursive.
pub open spec fn node_view(node: Node) -> SpecNode
    decreases node,
    via node_view_decreases
{
    match node {
        Node::FuncDef { ret_t, name, args, block } => SpecNode::FuncDef {
            ret_t: ret_t,
            name: Box::new(node_view(*name)),
            args: Box::new(node_view(*args)),
            block: Box::new(node_view(*block)),
        },
        Node::FuncCall { name, args } => SpecNode::FuncCall {
            name: Box::new(node_view(*name)),
            args: Box::new(node_view(*args)),
        },
        Node::If { cond, block, next } => SpecNode::If {
            cond: Box::new(node_view(*cond)),
            block: Box::new(node_view(*block)),
            next: Box::new(node_view(*next)),
        },
        Node::Else { block } => SpecNode::Else { block: Box::new(node_view(*block)) },
        Node::While { cond, block } => SpecNode::While {
            cond: Box::new(node_view(*cond)),
            block: Box::new(node_view(*block)),
        },
        Node::VarDef { var_t, name } => SpecNode::VarDef {
            var_t: var_t,
            name: Box::new(node_view(*name)),
        },
        Node::Var { name } => SpecNode::Var { name: Box::new(node_view(*name)) },
        Node::Block { vec } => SpecNode::Block { vec: nodes_view(vec@) },
        Node::Expr { e } => SpecNode::Expr { e: Box::new(node_view(*e)) },
        Node::BinE { exprl, op, exprr } => SpecNode::BinE {
            exprl: Box::new(node_view(*exprl)),
            op: op,
            exprr: Box::new(node_view(*exprr)),
        },
        Node::UnE { op, expr } => SpecNode::UnE { op: op, expr: Box::new(node_view(*expr)) },
        Node::Id { id } => SpecNode::Id { id: id@ },
        Node::IntN { n } => SpecNode::IntN { n: n },
        Node::FloatN { lexeme } => SpecNode::FloatN { lexeme: lexeme@ },
        Node::CharN { n } => SpecNode::CharN { n: n },
        Node::BoolTrue => SpecNode::BoolTrue,
        Node::BoolFalse => SpecNode::BoolFalse,
        Node::Empty => SpecNode::Empty,
    }
}

#[via_fn]
proof fn node_view_decreases(node: Node) {
    match node {
        Node::Block { vec } => {
            assert(decreases_to!(node => vec));
            assert(decreases_to!(vec => vec@));
        },
        _ => {},
    }
}

/// The ghost mirrors of a sequence of nodes, in order.
pub open spec fn nodes_view(nodes: Seq<Node>) -> Seq<SpecNode>
    decreases nodes,
{
    if nodes.len() == 0 {
        Seq::empty()
    } else {
        seq![node_view(nodes[0])] + nodes_view(nodes.subrange(1, nodes.len() as int))
    }
}

/// `nodes_view` maps the sequence pointwise.
pub proof fn lemma_nodes_view(nodes: Seq<Node>)
    ensures
        nodes_view(nodes).len() == nodes.len(),
        forall|i: int| 0 <= i < nodes.len() ==> nodes_view(nodes)[i] == node_view(#[trigger] nodes[i]),
    decreases nodes.len(),
{
    if nodes.len() > 0 {
        let tail = nodes.subrange(1, nodes.len() as int);
        lemma_nodes_view(tail);
        assert forall|i: int| 0 <= i < nodes.len() implies nodes_view(nodes)[i] == node_view(
            #[trigger] nodes[i],
        ) by {
            if i >= 1 {
                assert(nodes_view(nodes)[i] == nodes_view(tail)[i - 1]);
                assert(tail[i - 1] == nodes[i]);
            }
        }
    }
}

impl View for Node {
    type V = SpecNode;

    open spec fn view(&self) -> SpecNode {
        node_view(*self)
    }
}

impl DeepView for Node {
    type V = SpecNode;

    open spec fn deep_view(&self) -> SpecNode {
        self.view()
    }
}

/// What went wrong while parsing, without its position.
#[derive(Debug, Clone, Copy, PartialEq, Eq)]
pub enum ParseErrorKind {
    /// The token sequence ended where another token was required.
    UnexpectedEnd,
    /// A token that fits no production at a statement or expression boundary.
    UnexpectedToken,
    /// A function definition did not start with a type keyword.
    ExpectedType,
    /// A function name or called name was not an identifier.
    ExpectedName,
    /// A `(` was required.
    ExpectedLParen,
    /// A `)` was required.
    ExpectedRParen,
    /// A `{` was required.
    ExpectedLBrace,
    /// A variable declaration did not start with a non-void type keyword.
    ExpectedVarType,
    /// A variable declaration's name was not an identifier.
    ExpectedVarName,
    /// A variable was declared with the `void` type.
    VoidVarType,
    /// A declaration statement was followed by neither `=` nor `;`.
    MissingDeclTerminator,
    /// No expression production applies at this token.
    MalformedExpr,
}

/// A fatal parse error: the kind of failure and the index, in the token
/// sequence, of the offending token (the sequence length when the input
/// ended too early).
#[derive(Debug, Clone, Copy, PartialEq, Eq)]
pub struct ParseError {
    pub kind: ParseErrorKind,
    pub pos: usize,
}

} // verus!
