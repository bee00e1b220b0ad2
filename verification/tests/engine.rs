use minippy::builtin::{AddZero, BuiltinRule, UnwrapUsed};
use minippy::diagnostic::{DiagnosticRecord, DiagnosticSink, Severity};
use minippy::engine::{apply_rules, forward, lint, run, traverse, visit};
use minippy::node::{BinaryOp, NodeKind, Span, SyntaxNode};
use minippy::registry::RuleRegistry;
use minippy::rule::Finding;

fn lit(value: u128, lo: u32) -> SyntaxNode {
    SyntaxNode::int_literal(value, Span::direct(0, lo, lo + 1))
}

fn var(lo: u32) -> SyntaxNode {
    SyntaxNode::leaf(NodeKind::Other, Span::direct(0, lo, lo + 1))
}

fn add(lhs: SyntaxNode, rhs: SyntaxNode, lo: u32, hi: u32) -> SyntaxNode {
    SyntaxNode::binary(BinaryOp::Add, lhs, rhs, Span::direct(0, lo, hi))
}

fn unwrap_call(receiver: SyntaxNode, lo: u32, hi: u32) -> SyntaxNode {
    SyntaxNode::method_call("unwrap".to_string(), receiver, Span::direct(0, lo, hi))
}

fn statement(child: SyntaxNode, lo: u32, hi: u32) -> SyntaxNode {
    SyntaxNode::new(NodeKind::Other, Span::direct(0, lo, hi), vec![child])
}

fn record(rule_id: &str, message: &str, span: Span, sequence: u64) -> DiagnosticRecord {
    DiagnosticRecord {
        rule_id: rule_id.to_string(),
        severity: Severity::Warn,
        message: message.to_string(),
        span,
        sequence,
    }
}

fn add_zero_record(span: Span, sequence: u64) -> DiagnosticRecord {
    record("add_zero", "Ineffective operation", span, sequence)
}

fn unwrap_record(span: Span, sequence: u64) -> DiagnosticRecord {
    record("unwrap_used", "`unwrap` is used here", span, sequence)
}

#[test]
fn three_statements_yield_two_diagnostics_in_order() {
    // let a = 1 + 0; let b = 2 + 3; let c = opt.unwrap();
    let roots = vec![
        statement(add(lit(1, 8), lit(0, 12), 8, 13), 0, 14),
        statement(add(lit(2, 23), lit(3, 27), 23, 28), 15, 29),
        statement(unwrap_call(var(38), 38, 50), 30, 51),
    ];
    let records = run(&RuleRegistry::builtin(), &roots);
    assert_eq!(
        records,
        vec![
            add_zero_record(Span::direct(0, 8, 13), 0),
            unwrap_record(Span::direct(0, 38, 50), 1),
        ]
    );
    assert!(records.iter().all(|r| r.span != Span::direct(0, 23, 28)));
}

#[test]
fn zero_on_the_right_is_flagged_once() {
    let roots = vec![add(var(0), lit(0, 4), 0, 5)];
    let records = run(&RuleRegistry::builtin(), &roots);
    assert_eq!(records, vec![add_zero_record(Span::direct(0, 0, 5), 0)]);
    assert_eq!(records[0].severity, Severity::Warn);
}

#[test]
fn zero_on_the_left_is_flagged_once() {
    let roots = vec![add(lit(0, 0), var(4), 0, 5)];
    let records = run(&RuleRegistry::builtin(), &roots);
    assert_eq!(records, vec![add_zero_record(Span::direct(0, 0, 5), 0)]);
}

#[test]
fn zero_on_both_sides_is_flagged_once() {
    let roots = vec![add(lit(0, 0), lit(0, 4), 0, 5)];
    let records = run(&RuleRegistry::builtin(), &roots);
    assert_eq!(records, vec![add_zero_record(Span::direct(0, 0, 5), 0)]);
}

#[test]
fn operands_that_are_no_literal_zero_are_not_flagged() {
    // `x + y`, `2 + 3`, and `x + (0 * 1)`, whose right operand evaluates to zero.
    let product = SyntaxNode::binary(BinaryOp::Mul, lit(0, 5), lit(1, 9), Span::direct(0, 5, 10));
    let roots = vec![
        add(var(0), var(4), 0, 5),
        add(lit(2, 0), lit(3, 4), 0, 5),
        add(var(0), product, 0, 11),
    ];
    assert_eq!(run(&RuleRegistry::builtin(), &roots), vec![]);
}

#[test]
fn other_operators_with_zero_are_not_flagged() {
    let roots = vec![
        SyntaxNode::binary(BinaryOp::Sub, var(0), lit(0, 4), Span::direct(0, 0, 5)),
        SyntaxNode::binary(BinaryOp::Mul, lit(0, 0), var(4), Span::direct(0, 0, 5)),
    ];
    assert_eq!(run(&RuleRegistry::builtin(), &roots), vec![]);
}

#[test]
fn addition_of_unexpected_shape_is_no_match() {
    let one = SyntaxNode::new(
        NodeKind::Binary(BinaryOp::Add),
        Span::direct(0, 0, 5),
        vec![lit(0, 0)],
    );
    let three = SyntaxNode::new(
        NodeKind::Binary(BinaryOp::Add),
        Span::direct(0, 0, 9),
        vec![lit(0, 0), lit(0, 4), lit(0, 8)],
    );
    let none = SyntaxNode::leaf(NodeKind::Binary(BinaryOp::Add), Span::direct(0, 0, 1));
    assert_eq!(run(&RuleRegistry::builtin(), &vec![one, three, none]), vec![]);
}

#[test]
fn unwrap_is_reported_under_its_own_identifier() {
    let roots = vec![unwrap_call(var(0), 0, 12)];
    let records = run(&RuleRegistry::builtin(), &roots);
    assert_eq!(records.len(), 1);
    assert_eq!(records[0].rule_id, "unwrap_used");
    assert_ne!(records[0].rule_id, "add_zero");
    assert_eq!(records[0].message, "`unwrap` is used here");
    assert_eq!(records[0].span, Span::direct(0, 0, 12));
    assert_eq!(records[0].severity, Severity::Warn);
}

#[test]
fn unwrap_is_reported_whatever_the_arguments() {
    let call = SyntaxNode::new(
        NodeKind::MethodCall("unwrap".to_string()),
        Span::direct(0, 0, 20),
        vec![var(0), lit(1, 10), lit(2, 13)],
    );
    let bare = SyntaxNode::leaf(NodeKind::MethodCall("unwrap".to_string()), Span::direct(0, 30, 40));
    let records = run(&RuleRegistry::builtin(), &vec![call, bare]);
    assert_eq!(
        records,
        vec![
            unwrap_record(Span::direct(0, 0, 20), 0),
            unwrap_record(Span::direct(0, 30, 40), 1),
        ]
    );
}

#[test]
fn other_methods_are_not_reported() {
    let roots = vec![
        SyntaxNode::method_call("unwrap_or".to_string(), var(0), Span::direct(0, 0, 12)),
        SyntaxNode::method_call("expect".to_string(), var(0), Span::direct(0, 0, 12)),
        SyntaxNode::method_call("".to_string(), var(0), Span::direct(0, 0, 12)),
    ];
    assert_eq!(run(&RuleRegistry::builtin(), &roots), vec![]);
}

#[test]
fn expanded_nodes_are_hidden_by_default() {
    let expanded_add = SyntaxNode::binary(
        BinaryOp::Add,
        lit(1, 0),
        lit(0, 4),
        Span::from_macro(0, 0, 5),
    );
    let expanded_call =
        SyntaxNode::method_call("unwrap".to_string(), var(0), Span::from_macro(0, 10, 22));
    assert_eq!(run(&RuleRegistry::builtin(), &vec![expanded_add, expanded_call]), vec![]);
}

#[test]
fn expanded_nodes_are_shown_to_rules_that_opt_in() {
    let expanded_add = SyntaxNode::binary(
        BinaryOp::Add,
        lit(1, 0),
        lit(0, 4),
        Span::from_macro(0, 0, 5),
    );
    let expanded_call =
        SyntaxNode::method_call("unwrap".to_string(), var(0), Span::from_macro(0, 10, 22));
    let rules = vec![
        BuiltinRule::AddZero(AddZero::new()),
        BuiltinRule::UnwrapUsed(UnwrapUsed { examines_expanded: true }),
    ];
    let records = lint(rules, &vec![expanded_add, expanded_call]).unwrap();
    assert_eq!(records, vec![unwrap_record(Span::from_macro(0, 10, 22), 0)]);
}

#[test]
fn direct_children_of_an_expanded_node_are_still_visited() {
    let inner = add(var(2), lit(0, 6), 2, 7);
    let outer = SyntaxNode::new(NodeKind::Other, Span::from_macro(0, 0, 9), vec![inner]);
    let records = run(&RuleRegistry::builtin(), &vec![outer]);
    assert_eq!(records, vec![add_zero_record(Span::direct(0, 2, 7), 0)]);
}

#[test]
fn two_runs_give_the_same_diagnostics() {
    let build = || {
        vec![
            statement(add(unwrap_call(var(0), 0, 10), lit(0, 13), 0, 14), 0, 15),
            unwrap_call(add(lit(0, 20), var(24), 20, 25), 20, 34),
        ]
    };
    let registry = RuleRegistry::builtin();
    let first = run(&registry, &build());
    let second = run(&registry, &build());
    assert_eq!(first.len(), 4);
    assert_eq!(first, second);
    assert_eq!(format!("{:?}", first), format!("{:?}", second));
}

#[test]
fn diagnostics_follow_pre_order() {
    // (a.unwrap() + 0) + (0 + b.unwrap())
    let left = add(unwrap_call(var(1), 1, 11), lit(0, 14), 1, 15);
    let right = add(lit(0, 20), unwrap_call(var(24), 24, 34), 20, 34);
    let root = add(left, right, 0, 35);
    let records = run(&RuleRegistry::builtin(), &vec![root]);
    assert_eq!(
        records,
        vec![
            add_zero_record(Span::direct(0, 1, 15), 0),
            unwrap_record(Span::direct(0, 1, 11), 1),
            add_zero_record(Span::direct(0, 20, 34), 2),
            unwrap_record(Span::direct(0, 24, 34), 3),
        ]
    );
}

#[test]
fn parent_is_reported_before_its_children() {
    // (x + 0) + 0
    let inner = add(var(1), lit(0, 5), 1, 6);
    let outer = add(inner, lit(0, 10), 0, 11);
    let records = run(&RuleRegistry::builtin(), &vec![outer]);
    assert_eq!(
        records,
        vec![
            add_zero_record(Span::direct(0, 0, 11), 0),
            add_zero_record(Span::direct(0, 1, 6), 1),
        ]
    );
}

#[test]
fn registry_order_does_not_reorder_nodes() {
    let build = || vec![add(unwrap_call(var(0), 0, 10), lit(0, 13), 0, 14)];
    let swapped = vec![
        BuiltinRule::UnwrapUsed(UnwrapUsed::new()),
        BuiltinRule::AddZero(AddZero::new()),
    ];
    let expected = vec![
        add_zero_record(Span::direct(0, 0, 14), 0),
        unwrap_record(Span::direct(0, 0, 10), 1),
    ];
    assert_eq!(lint(swapped, &build()).unwrap(), expected);
    assert_eq!(run(&RuleRegistry::builtin(), &build()), expected);
}

#[test]
fn sequence_numbers_count_up_from_zero() {
    let roots: Vec<SyntaxNode> = (0..5).map(|i| add(var(i * 10), lit(0, i * 10 + 4), i * 10, i * 10 + 5)).collect();
    let records = run(&RuleRegistry::builtin(), &roots);
    assert_eq!(records.len(), 5);
    for (i, r) in records.iter().enumerate() {
        assert_eq!(r.sequence, i as u64);
        assert_eq!(r.span, Span::direct(0, i as u32 * 10, i as u32 * 10 + 5));
    }
}

#[test]
fn identical_matches_are_each_reported() {
    let roots = vec![add(var(0), lit(0, 4), 0, 5), add(var(0), lit(0, 4), 0, 5)];
    let records = run(&RuleRegistry::builtin(), &roots);
    assert_eq!(
        records,
        vec![
            add_zero_record(Span::direct(0, 0, 5), 0),
            add_zero_record(Span::direct(0, 0, 5), 1),
        ]
    );
}

#[test]
fn empty_inputs_give_no_diagnostics() {
    assert_eq!(run(&RuleRegistry::builtin(), &vec![]), vec![]);
    let no_rules: RuleRegistry<BuiltinRule> = RuleRegistry::new();
    assert_eq!(run(&no_rules, &vec![add(var(0), lit(0, 4), 0, 5)]), vec![]);
}

#[test]
fn duplicate_identifiers_stop_the_run_before_any_diagnostic() {
    let rules = vec![
        BuiltinRule::AddZero(AddZero::new()),
        BuiltinRule::UnwrapUsed(UnwrapUsed::new()),
        BuiltinRule::AddZero(AddZero { examines_expanded: true }),
    ];
    let roots = vec![add(var(0), lit(0, 4), 0, 5)];
    let conflict = lint(rules, &roots).unwrap_err();
    assert_eq!(conflict.rule_id, "add_zero");
}

#[test]
fn visit_appends_to_a_sink_in_use() {
    let registry = RuleRegistry::builtin();
    let mut sink = DiagnosticSink::new();
    sink.report("custom".to_string(), Severity::Error, "first".to_string(), Span::direct(1, 0, 1));
    visit(&registry, &add(var(0), lit(0, 4), 0, 5), &mut sink);
    traverse(&registry, &vec![unwrap_call(var(0), 0, 9), var(20)], &mut sink);
    apply_rules(&registry, &add(lit(0, 0), unwrap_call(var(4), 4, 14), 0, 14), &mut sink);
    let records = sink.drain();
    assert_eq!(
        records,
        vec![
            DiagnosticRecord {
                rule_id: "custom".to_string(),
                severity: Severity::Error,
                message: "first".to_string(),
                span: Span::direct(1, 0, 1),
                sequence: 0,
            },
            add_zero_record(Span::direct(0, 0, 5), 1),
            unwrap_record(Span::direct(0, 0, 9), 2),
            add_zero_record(Span::direct(0, 0, 14), 3),
        ]
    );
}

#[test]
fn forward_tags_findings_with_the_rule_identifier() {
    let mut sink = DiagnosticSink::new();
    let found = vec![
        Finding { severity: Severity::Error, message: "one".to_string(), span: Span::direct(0, 1, 2) },
        Finding { severity: Severity::Allow, message: "two".to_string(), span: Span::direct(0, 3, 4) },
    ];
    forward(&"some_rule".to_string(), &found, &mut sink);
    forward(&"other_rule".to_string(), &vec![], &mut sink);
    let records = sink.drain();
    assert_eq!(
        records,
        vec![
            DiagnosticRecord {
                rule_id: "some_rule".to_string(),
                severity: Severity::Error,
                message: "one".to_string(),
                span: Span::direct(0, 1, 2),
                sequence: 0,
            },
            DiagnosticRecord {
                rule_id: "some_rule".to_string(),
                severity: Severity::Allow,
                message: "two".to_string(),
                span: Span::direct(0, 3, 4),
                sequence: 1,
            },
        ]
    );
}
