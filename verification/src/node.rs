//! The typed syntax tree that the engine reads.

use vstd::prelude::*;

verus! {

/// A byte range in one source file, with the marker that tells direct source
/// from text synthesized by macro expansion.
#[derive(Clone, Copy, Debug, PartialEq, Eq, Hash, Structural)]
pub struct Span {
    pub file: u32,
    pub lo: u32,
    pub hi: u32,
    pub expanded: bool,
}

impl Span {
    /// A span of text that stands literally in the source.
    pub fn direct(file: u32, lo: u32, hi: u32) -> (span: Span)
        ensures
            span == (Span { file, lo, hi, expanded: false }),
    {
        Span { file, lo, hi, expanded: false }
    }

    /// A span of text that macro expansion produced.
    pub fn from_macro(file: u32, lo: u32, hi: u32) -> (span: Span)
        ensures
            span == (Span { file, lo, hi, expanded: true }),
    {
        Span { file, lo, hi, expanded: true }
    }
}

/// The operator of a binary expression.
#[derive(Clone, Copy, Debug, PartialEq, Eq, Structural)]
pub enum BinaryOp {
    Add,
    Sub,
    Mul,
    Div,
    Rem,
    Other,
}

/// What kind of node this is. The operands of a binary expression and the
/// receiver and arguments of a method call are the node's children.
#[derive(Clone, Debug, PartialEq, Eq)]
pub enum NodeKind {
    /// An integer literal with its value.
    IntLiteral(u128),
    /// A binary expression; its children are the left and the right operand.
    Binary(BinaryOp),
    /// A method call with the method's name; its children are the receiver
    /// and the arguments.
    MethodCall(String),
    /// Any other expression or statement.
    Other,
}

/// A node of the typed tree: its kind, its span, and its children in their
/// structural order, left to right.
#[derive(Debug, PartialEq, Eq)]
pub struct SyntaxNode {
    pub kind: NodeKind,
    pub span: Span,
    pub children: Vec<SyntaxNode>,
}

impl SyntaxNode {
    /// A node without children.
    pub fn leaf(kind: NodeKind, span: Span) -> (node: SyntaxNode)
        ensures
            node.kind == kind,
            node.span == span,
            node.children@ == Seq::<SyntaxNode>::empty(),
    {
        SyntaxNode { kind, span, children: Vec::new() }
    }

    /// A node with the given children.
    pub fn new(kind: NodeKind, span: Span, children: Vec<SyntaxNode>) -> (node: SyntaxNode)
        ensures
            node == (SyntaxNode { kind, span, children }),
    {
        SyntaxNode { kind, span, children }
    }

    /// An integer literal.
    pub fn int_literal(value: u128, span: Span) -> (node: SyntaxNode)
        ensures
            node.kind == NodeKind::IntLiteral(value),
            node.span == span,
            node.children@ == Seq::<SyntaxNode>::empty(),
    {
        SyntaxNode { kind: NodeKind::IntLiteral(value), span, children: Vec::new() }
    }

    /// A binary expression over two operands.
    pub fn binary(op: BinaryOp, lhs: SyntaxNode, rhs: SyntaxNode, span: Span) -> (node: SyntaxNode)
        ensures
            node.kind == NodeKind::Binary(op),
            node.span == span,
            node.children@ == seq![lhs, rhs],
    {
        let mut children: Vec<SyntaxNode> = Vec::new();
        children.push(lhs);
        children.push(rhs);
        SyntaxNode { kind: NodeKind::Binary(op), span, children }
    }

    /// A call of the method `name` on `receiver`, without arguments.
    pub fn method_call(name: String, receiver: SyntaxNode, span: Span) -> (node: SyntaxNode)
        ensures
            node.kind == NodeKind::MethodCall(name),
            node.span == span,
            node.children@ == seq![receiver],
    {
        let mut children: Vec<SyntaxNode> = Vec::new();
        children.push(receiver);
        SyntaxNode { kind: NodeKind::MethodCall(name), span, children }
    }
}

} // verus!
