use minippy::diagnostic::{DiagnosticRecord, Severity};
use minippy::engine::{lint, run};
use minippy::node::{BinaryOp, NodeKind, Span, SyntaxNode};
use minippy::registry::RuleRegistry;
use minippy::rule::{Finding, FindingView, Rule, TraversalContext};

/// A rule from outside the library: flags every binary expression, under a
/// name and with a flag of the caller's choice.
struct AnyBinary {
    name: &'static str,
    expanded_too: bool,
}

// The trait's ghost items describe a rule to the prover and are never run.
impl Rule for AnyBinary {
    fn id_spec(&self) -> vstd::seq::Seq<char> {
        unreachable!()
    }

    fn severity_spec(&self) -> Severity {
        unreachable!()
    }

    fn message_spec(&self) -> vstd::seq::Seq<char> {
        unreachable!()
    }

    fn examines_expanded_spec(&self) -> bool {
        unreachable!()
    }

    fn findings(&self, _node: SyntaxNode) -> vstd::seq::Seq<FindingView> {
        unreachable!()
    }

    fn id(&self) -> String {
        self.name.to_string()
    }

    fn severity(&self) -> Severity {
        Severity::Error
    }

    fn message(&self) -> String {
        "binary expression".to_string()
    }

    fn examines_expanded(&self) -> bool {
        self.expanded_too
    }

    fn check(&self, ctx: &TraversalContext) -> Vec<Finding> {
        match ctx.node.kind {
            NodeKind::Binary(_) => vec![Finding {
                severity: self.severity(),
                message: self.message(),
                span: ctx.node.span,
            }],
            _ => vec![],
        }
    }
}

fn expected(rule_id: &str, span: Span, sequence: u64) -> DiagnosticRecord {
    DiagnosticRecord {
        rule_id: rule_id.to_string(),
        severity: Severity::Error,
        message: "binary expression".to_string(),
        span,
        sequence,
    }
}

fn sum(span: Span) -> SyntaxNode {
    SyntaxNode::binary(
        BinaryOp::Add,
        SyntaxNode::leaf(NodeKind::Other, Span::direct(0, 0, 1)),
        SyntaxNode::leaf(NodeKind::Other, Span::direct(0, 4, 5)),
        span,
    )
}

#[test]
fn rules_on_one_node_report_in_registry_order() {
    let first = Span::direct(0, 0, 5);
    let second = Span::direct(0, 10, 15);
    let roots = vec![sum(first), sum(second)];
    let rules = vec![
        AnyBinary { name: "b", expanded_too: false },
        AnyBinary { name: "a", expanded_too: false },
    ];
    let records = lint(rules, &roots).unwrap();
    assert_eq!(
        records,
        vec![
            expected("b", first, 0),
            expected("a", first, 1),
            expected("b", second, 2),
            expected("a", second, 3),
        ]
    );
}

#[test]
fn only_rules_that_opt_in_see_expanded_nodes() {
    let span = Span::from_macro(0, 0, 5);
    let rules = vec![
        AnyBinary { name: "direct_only", expanded_too: false },
        AnyBinary { name: "everywhere", expanded_too: true },
    ];
    let records = lint(rules, &vec![sum(span)]).unwrap();
    assert_eq!(records, vec![expected("everywhere", span, 0)]);
}

#[test]
fn outside_rules_with_one_name_conflict() {
    let rules = vec![
        AnyBinary { name: "same", expanded_too: false },
        AnyBinary { name: "other", expanded_too: false },
        AnyBinary { name: "same", expanded_too: true },
    ];
    let conflict = lint(rules, &vec![sum(Span::direct(0, 0, 5))]).unwrap_err();
    assert_eq!(conflict.rule_id, "same");

    let mut registry = RuleRegistry::new();
    assert!(registry.register(AnyBinary { name: "same", expanded_too: false }).is_ok());
    let again = registry.register(AnyBinary { name: "same", expanded_too: false });
    assert_eq!(again.unwrap_err().rule_id, "same");
    assert_eq!(run(&registry, &vec![sum(Span::direct(0, 0, 5))]).len(), 1);
}
