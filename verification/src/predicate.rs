//! Small boolean tests over a syntax node, shared by the rules.

use vstd::prelude::*;
use vstd::string::StringExecFns;
use crate::node::{BinaryOp, NodeKind, Span, SyntaxNode};

verus! {

/// Whether the span was synthesized by macro expansion.
pub open spec fn expansion_derived(span: Span) -> bool {
    span.expanded
}

/// Whether the node is an integer literal with value zero.
pub open spec fn lit_zero(node: SyntaxNode) -> bool {
    node.kind == NodeKind::IntLiteral(0)
}

/// Whether the node is a binary expression with operator `op` over exactly
/// two operands.
pub open spec fn binary_with(node: SyntaxNode, op: BinaryOp) -> bool {
    node.kind == NodeKind::Binary(op) && node.children@.len() == 2
}

/// Whether the node is a call of a method of the given name.
pub open spec fn method_call_named(node: SyntaxNode, name: Seq<char>) -> bool {
    match node.kind {
        NodeKind::MethodCall(method) => method@ == name,
        _ => false,
    }
}

/// The expansion filter: asks the span's own marker.
pub fn originates_from_expansion(span: &Span) -> (expanded: bool)
    ensures
        expanded == expansion_derived(*span),
{
    span.expanded
}

/// Tests for an integer literal with value zero. A variable or an expression
/// that merely evaluates to zero is none.
pub fn is_lit_zero(node: &SyntaxNode) -> (zero: bool)
    ensures
        zero == lit_zero(*node),
{
    match &node.kind {
        NodeKind::IntLiteral(value) => *value == 0,
        _ => false,
    }
}

/// Tests for a binary expression with the given operator and two operands.
pub fn is_binary_with(node: &SyntaxNode, op: BinaryOp) -> (holds: bool)
    ensures
        holds == binary_with(*node, op),
{
    match &node.kind {
        NodeKind::Binary(found) => *found == op && node.children.len() == 2,
        _ => false,
    }
}

/// Tests for a call of the method `name`, whatever the receiver and the
/// arguments are.
pub fn is_method_call_named(node: &SyntaxNode, name: &str) -> (holds: bool)
    ensures
        holds == method_call_named(*node, name@),
{
    match &node.kind {
        NodeKind::MethodCall(method) => {
            let wanted = String::from_str(name);
            *method == wanted
        },
        _ => false,
    }
}

} // verus!
