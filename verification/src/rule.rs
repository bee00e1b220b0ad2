//! The interface that every lint rule implements.

use vstd::prelude::*;
use crate::diagnostic::{Report, Severity};
use crate::node::{Span, SyntaxNode};
use crate::predicate::expansion_derived;

verus! {

/// The mathematical value of a [`Finding`].
pub struct FindingView {
    pub severity: Severity,
    pub message: Seq<char>,
    pub span: Span,
}

/// What a rule found at a node. The engine reports it to the sink under the
/// identifier of the rule that returned it.
#[derive(Clone, Debug, PartialEq, Eq)]
pub struct Finding {
    pub severity: Severity,
    pub message: String,
    pub span: Span,
}

impl View for Finding {
    type V = FindingView;

    open spec fn view(&self) -> FindingView {
        FindingView { severity: self.severity, message: self.message@, span: self.span }
    }
}

/// The views of the findings of a vector, in order.
pub open spec fn finding_views(findings: Seq<Finding>) -> Seq<FindingView> {
    Seq::new(findings.len(), |i: int| findings[i]@)
}

/// What a rule invocation is given besides the rule itself: the node under
/// inspection and whether its span is expansion-derived.
pub struct TraversalContext<'a> {
    pub node: &'a SyntaxNode,
    pub from_expansion: bool,
}

impl<'a> TraversalContext<'a> {
    /// The context's invariant: the flag is the marker of the node's own span.
    pub open spec fn wf(&self) -> bool {
        self.from_expansion == expansion_derived(self.node.span)
    }

    /// The context of a visit to `node`.
    pub fn new(node: &'a SyntaxNode) -> (ctx: TraversalContext<'a>)
        ensures
            ctx.node == node,
            ctx.wf(),
    {
        TraversalContext { node, from_expansion: node.span.expanded }
    }
}

/// A unit of analysis. A rule is a stateless test of a node's shape: what it
/// finds depends on the node alone, and it cannot change the node or steer
/// the traversal. A shape that a rule does not expect is no match.
pub trait Rule {
    /// The rule's stable name.
    spec fn id_spec(&self) -> Seq<char>;

    /// The severity that the rule reports at unless it decides otherwise.
    spec fn severity_spec(&self) -> Severity;

    /// The rule's default message.
    spec fn message_spec(&self) -> Seq<char>;

    /// Whether the rule also wants to see expansion-derived nodes.
    spec fn examines_expanded_spec(&self) -> bool;

    /// What the rule finds at `node`, in the order in which it reports.
    spec fn findings(&self, node: SyntaxNode) -> Seq<FindingView>;

    fn id(&self) -> (id: String)
        ensures
            id@ == self.id_spec(),
    ;

    fn severity(&self) -> (severity: Severity)
        ensures
            severity == self.severity_spec(),
    ;

    fn message(&self) -> (message: String)
        ensures
            message@ == self.message_spec(),
    ;

    fn examines_expanded(&self) -> (flag: bool)
        ensures
            flag == self.examines_expanded_spec(),
    ;

    /// Inspects the node of `ctx` and returns what the rule finds there.
    fn check(&self, ctx: &TraversalContext) -> (found: Vec<Finding>)
        requires
            ctx.wf(),
        ensures
            finding_views(found@) == self.findings(*ctx.node),
    ;
}

/// The finding `finding` as a report under the identifier `rule_id`.
pub open spec fn tagged(rule_id: Seq<char>, finding: FindingView) -> Report {
    Report { rule_id, severity: finding.severity, message: finding.message, span: finding.span }
}

/// Each of `findings` as a report under `rule_id`, in the same order.
pub open spec fn tagged_all(rule_id: Seq<char>, findings: Seq<FindingView>) -> Seq<Report> {
    Seq::new(findings.len(), |i: int| tagged(rule_id, findings[i]))
}

} // verus!
