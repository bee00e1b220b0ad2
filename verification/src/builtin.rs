//! The rules that every build of the engine brings along.

use vstd::prelude::*;
use vstd::string::StringExecFns;
use crate::diagnostic::Severity;
use crate::node::{BinaryOp, SyntaxNode};
use crate::predicate::{
    binary_with,
    is_binary_with,
    is_lit_zero,
    is_method_call_named,
    lit_zero,
    method_call_named,
};
use crate::rule::{finding_views, Finding, FindingView, Rule, TraversalContext};

verus! {

/// Flags an addition in which an operand is the integer literal zero.
#[derive(Clone, Copy, Debug, PartialEq, Eq, Structural)]
pub struct AddZero {
    pub examines_expanded: bool,
}

/// Whether `node` is an addition of two operands of which the left or the
/// right one is a literal zero. An operand that only evaluates to zero does
/// not count.
pub open spec fn adds_literal_zero(node: SyntaxNode) -> bool {
    binary_with(node, BinaryOp::Add) && (lit_zero(node.children@[0]) || lit_zero(
        node.children@[1],
    ))
}

impl AddZero {
    /// The rule as it is by default: it does not look at expanded code.
    pub fn new() -> (rule: AddZero)
        ensures
            rule.examines_expanded == false,
    {
        AddZero { examines_expanded: false }
    }
}

impl Rule for AddZero {
    open spec fn id_spec(&self) -> Seq<char> {
        "add_zero"@
    }

    open spec fn severity_spec(&self) -> Severity {
        Severity::Warn
    }

    open spec fn message_spec(&self) -> Seq<char> {
        "Ineffective operation"@
    }

    open spec fn examines_expanded_spec(&self) -> bool {
        self.examines_expanded
    }

    /// One finding at the span of the whole addition, or none.
    open spec fn findings(&self, node: SyntaxNode) -> Seq<FindingView> {
        if adds_literal_zero(node) {
            seq![
                FindingView {
                    severity: Severity::Warn,
                    message: "Ineffective operation"@,
                    span: node.span,
                },
            ]
        } else {
            Seq::empty()
        }
    }

    fn id(&self) -> (id: String) {
        String::from_str("add_zero")
    }

    fn severity(&self) -> (severity: Severity) {
        Severity::Warn
    }

    fn message(&self) -> (message: String) {
        String::from_str("Ineffective operation")
    }

    fn examines_expanded(&self) -> (flag: bool) {
        self.examines_expanded
    }

    fn check(&self, ctx: &TraversalContext) -> (found: Vec<Finding>) {
        let node = ctx.node;
        let mut found: Vec<Finding> = Vec::new();
        if is_binary_with(node, BinaryOp::Add) && (is_lit_zero(&node.children[0]) || is_lit_zero(
            &node.children[1],
        )) {
            found.push(
                Finding { severity: self.severity(), message: self.message(), span: node.span },
            );
        }
        assert(finding_views(found@) =~= self.findings(*node));
        found
    }
}

/// Flags every call of a method named `unwrap`.
#[derive(Clone, Copy, Debug, PartialEq, Eq, Structural)]
pub struct UnwrapUsed {
    pub examines_expanded: bool,
}

/// Whether `node` is a call of a method named `unwrap`, whatever its receiver
/// and its arguments.
pub open spec fn calls_unwrap(node: SyntaxNode) -> bool {
    method_call_named(node, "unwrap"@)
}

impl UnwrapUsed {
    /// The rule as it is by default: it does not look at expanded code.
    pub fn new() -> (rule: UnwrapUsed)
        ensures
            rule.examines_expanded == false,
    {
        UnwrapUsed { examines_expanded: false }
    }
}

impl Rule for UnwrapUsed {
    open spec fn id_spec(&self) -> Seq<char> {
        "unwrap_used"@
    }

    open spec fn severity_spec(&self) -> Severity {
        Severity::Warn
    }

    open spec fn message_spec(&self) -> Seq<char> {
        "`unwrap` is used here"@
    }

    open spec fn examines_expanded_spec(&self) -> bool {
        self.examines_expanded
    }

    /// One finding at the span of the call, or none.
    open spec fn findings(&self, node: SyntaxNode) -> Seq<FindingView> {
        if calls_unwrap(node) {
            seq![
                FindingView {
                    severity: Severity::Warn,
                    message: "`unwrap` is used here"@,
                    span: node.span,
                },
            ]
        } else {
            Seq::empty()
        }
    }

    fn id(&self) -> (id: String) {
        String::from_str("unwrap_used")
    }

    fn severity(&self) -> (severity: Severity) {
        Severity::Warn
    }

    fn message(&self) -> (message: String) {
        String::from_str("`unwrap` is used here")
    }

    fn examines_expanded(&self) -> (flag: bool) {
        self.examines_expanded
    }

    fn check(&self, ctx: &TraversalContext) -> (found: Vec<Finding>) {
        let node = ctx.node;
        let mut found: Vec<Finding> = Vec::new();
        if is_method_call_named(node, "unwrap") {
            found.push(
                Finding { severity: self.severity(), message: self.message(), span: node.span },
            );
        }
        assert(finding_views(found@) =~= self.findings(*node));
        found
    }
}

/// One of the built-in rules. A registry of this type can hold them side by
/// side.
#[derive(Clone, Copy, Debug, PartialEq, Eq, Structural)]
pub enum BuiltinRule {
    AddZero(AddZero),
    UnwrapUsed(UnwrapUsed),
}

impl Rule for BuiltinRule {
    open spec fn id_spec(&self) -> Seq<char> {
        match *self {
            BuiltinRule::AddZero(rule) => rule.id_spec(),
            BuiltinRule::UnwrapUsed(rule) => rule.id_spec(),
        }
    }

    open spec fn severity_spec(&self) -> Severity {
        match *self {
            BuiltinRule::AddZero(rule) => rule.severity_spec(),
            BuiltinRule::UnwrapUsed(rule) => rule.severity_spec(),
        }
    }

    open spec fn message_spec(&self) -> Seq<char> {
        match *self {
            BuiltinRule::AddZero(rule) => rule.message_spec(),
            BuiltinRule::UnwrapUsed(rule) => rule.message_spec(),
        }
    }

    open spec fn examines_expanded_spec(&self) -> bool {
        match *self {
            BuiltinRule::AddZero(rule) => rule.examines_expanded_spec(),
            BuiltinRule::UnwrapUsed(rule) => rule.examines_expanded_spec(),
        }
    }

    open spec fn findings(&self, node: SyntaxNode) -> Seq<FindingView> {
        match *self {
            BuiltinRule::AddZero(rule) => rule.findings(node),
            BuiltinRule::UnwrapUsed(rule) => rule.findings(node),
        }
    }

    fn id(&self) -> (id: String) {
        match self {
            BuiltinRule::AddZero(rule) => rule.id(),
            BuiltinRule::UnwrapUsed(rule) => rule.id(),
        }
    }

    fn severity(&self) -> (severity: Severity) {
        match self {
            BuiltinRule::AddZero(rule) => rule.severity(),
            BuiltinRule::UnwrapUsed(rule) => rule.severity(),
        }
    }

    fn message(&self) -> (message: String) {
        match self {
            BuiltinRule::AddZero(rule) => rule.message(),
            BuiltinRule::UnwrapUsed(rule) => rule.message(),
        }
    }

    fn examines_expanded(&self) -> (flag: bool) {
        match self {
            BuiltinRule::AddZero(rule) => rule.examines_expanded(),
            BuiltinRule::UnwrapUsed(rule) => rule.examines_expanded(),
        }
    }

    fn check(&self, ctx: &TraversalContext) -> (found: Vec<Finding>) {
        match self {
            BuiltinRule::AddZero(rule) => rule.check(ctx),
            BuiltinRule::UnwrapUsed(rule) => rule.check(ctx),
        }
    }
}

/// The built-in rules in their order: `AddZero`, then `UnwrapUsed`, each as it
/// is by default.
pub open spec fn builtin_rules() -> Seq<BuiltinRule> {
    seq![
        BuiltinRule::AddZero(AddZero { examines_expanded: false }),
        BuiltinRule::UnwrapUsed(UnwrapUsed { examines_expanded: false }),
    ]
}

/// The identifiers of the two built-in rules differ.
pub proof fn lemma_builtin_ids_differ(add_zero: AddZero, unwrap_used: UnwrapUsed)
    ensures
        add_zero.id_spec() != unwrap_used.id_spec(),
{
    reveal_strlit("add_zero");
    reveal_strlit("unwrap_used");
    assert("add_zero"@.len() == 8);
    assert("unwrap_used"@.len() == 11);
}

/// A direct addition with a literal zero on either side is flagged exactly
/// once, as a warning, at the span of the whole addition.
pub proof fn lemma_add_zero_flags_literal_zero(rule: AddZero, node: SyntaxNode)
    requires
        binary_with(node, BinaryOp::Add),
        lit_zero(node.children@[0]) || lit_zero(node.children@[1]),
    ensures
        rule.findings(node).len() == 1,
        rule.findings(node)[0].severity == Severity::Warn,
        rule.findings(node)[0].span == node.span,
        rule.findings(node)[0].message == rule.message_spec(),
{
}

/// An addition of which neither operand is a literal zero is not flagged, and
/// neither is any node that is no addition of two operands.
pub proof fn lemma_add_zero_ignores_the_rest(rule: AddZero, node: SyntaxNode)
    requires
        !binary_with(node, BinaryOp::Add) || (!lit_zero(node.children@[0]) && !lit_zero(
            node.children@[1],
        )),
    ensures
        rule.findings(node) == Seq::<FindingView>::empty(),
{
}

/// A call of `unwrap` is flagged exactly once, as a warning, at the span of
/// the call; any other node is not flagged.
pub proof fn lemma_unwrap_used_flags_unwrap(rule: UnwrapUsed, node: SyntaxNode)
    ensures
        calls_unwrap(node) ==> rule.findings(node).len() == 1 && rule.findings(node)[0].severity
            == Severity::Warn && rule.findings(node)[0].span == node.span && rule.findings(
            node,
        )[0].message == rule.message_spec(),
        !calls_unwrap(node) ==> rule.findings(node) == Seq::<FindingView>::empty(),
{
}

} // verus!
