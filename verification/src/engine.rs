//! The traversal engine: one pre-order walk that applies every registered
//! rule to every node.

use vstd::prelude::*;
use crate::builtin::{adds_literal_zero, builtin_rules, calls_unwrap};
use crate::diagnostic::{
    extended,
    lemma_extended_empty,
    lemma_extended_push,
    lemma_extended_twice,
    numbered,
    views_of,
    DiagnosticRecord,
    DiagnosticSink,
    DiagnosticView,
    Report,
    Severity,
};
use crate::node::SyntaxNode;
use crate::predicate::expansion_derived;
use crate::registry::{ids_of, first_conflict, RegistryConflictError, RuleRegistry};
use crate::rule::{finding_views, tagged_all, Finding, Rule, TraversalContext};

verus! {

/// Whether `rule` gets to see `node`: the node stands in direct source, or
/// the rule has opted in to expanded code.
pub open spec fn eligible<R: Rule>(rule: R, node: SyntaxNode) -> bool {
    !expansion_derived(node.span) || rule.examines_expanded_spec()
}

/// What one rule reports at one node: its findings under its own identifier,
/// or nothing where the node is hidden from it.
pub open spec fn rule_reports<R: Rule>(rule: R, node: SyntaxNode) -> Seq<Report> {
    if eligible(rule, node) {
        tagged_all(rule.id_spec(), rule.findings(node))
    } else {
        Seq::empty()
    }
}

/// What the first `n` rules report at one node, rule after rule in registry
/// order.
pub open spec fn node_reports<R: Rule>(rules: Seq<R>, node: SyntaxNode, n: nat) -> Seq<Report>
    decreases n,
{
    if n == 0 || n > rules.len() {
        Seq::empty()
    } else {
        node_reports(rules, node, (n - 1) as nat) + rule_reports(rules[n - 1], node)
    }
}

/// What a walk of the tree under `node` reports: first what the rules report
/// at the node itself, then what the walks of its children report, child
/// after child from left to right.
pub open spec fn tree_reports<R: Rule>(rules: Seq<R>, node: SyntaxNode) -> Seq<Report>
    decreases node, 0nat,
{
    node_reports(rules, node, rules.len()) + forest_reports(
        rules,
        node.children@,
        node.children@.len(),
    )
}

/// What the walks of the first `n` trees of `nodes` report, tree after tree.
pub open spec fn forest_reports<R: Rule>(rules: Seq<R>, nodes: Seq<SyntaxNode>, n: nat) -> Seq<Report>
    decreases nodes, n,
{
    if n == 0 || n > nodes.len() {
        Seq::empty()
    } else {
        forest_reports(rules, nodes, (n - 1) as nat) + tree_reports(rules, nodes[n - 1])
    }
}

/// Hands the findings of one rule to the sink, in the order given, each under
/// the rule's identifier.
pub fn forward(rule_id: &String, found: &Vec<Finding>, sink: &mut DiagnosticSink)
    requires
        old(sink).wf(),
    ensures
        final(sink).wf(),
        final(sink)@ == extended(old(sink)@, tagged_all(rule_id@, finding_views(found@))),
{
    let ghost reports = tagged_all(rule_id@, finding_views(found@));
    let mut i: usize = 0;
    proof {
        lemma_extended_empty(sink@);
        assert(reports.subrange(0, 0) =~= Seq::<Report>::empty());
    }
    while i < found.len()
        invariant
            i <= found@.len(),
            reports == tagged_all(rule_id@, finding_views(found@)),
            sink.wf(),
            sink@ == extended(old(sink)@, reports.subrange(0, i as int)),
        decreases found@.len() - i,
    {
        let ghost before = sink@;
        let finding = &found[i];
        sink.report(rule_id.clone(), finding.severity, finding.message.clone(), finding.span);
        proof {
            lemma_extended_push(before, reports[i as int]);
            lemma_extended_twice(old(sink)@, reports.subrange(0, i as int), seq![reports[i as int]]);
            assert(reports.subrange(0, i as int) + seq![reports[i as int]] =~= reports.subrange(
                0,
                i + 1,
            ));
        }
        i += 1;
    }
    proof {
        assert(reports.subrange(0, i as int) =~= reports);
    }
}

/// Visits one node: invokes each rule that may see the node, once and in
/// registry order, and forwards what it finds to the sink.
pub fn apply_rules<R: Rule>(registry: &RuleRegistry<R>, node: &SyntaxNode, sink: &mut DiagnosticSink)
    requires
        old(sink).wf(),
    ensures
        final(sink).wf(),
        final(sink)@ == extended(
            old(sink)@,
            node_reports(registry.rules(), *node, registry.rules().len()),
        ),
{
    let ctx = TraversalContext::new(node);
    let mut r: usize = 0;
    proof {
        lemma_extended_empty(sink@);
    }
    while r < registry.len()
        invariant
            r <= registry.rules().len(),
            ctx.wf(),
            ctx.node == node,
            sink.wf(),
            sink@ == extended(old(sink)@, node_reports(registry.rules(), *node, r as nat)),
        decreases registry.rules().len() - r,
    {
        let ghost before = sink@;
        let rule = registry.get(r);
        if !ctx.from_expansion || rule.examines_expanded() {
            let found = rule.check(&ctx);
            let rule_id = rule.id();
            forward(&rule_id, &found, sink);
        } else {
            proof {
                lemma_extended_empty(before);
            }
        }
        proof {
            lemma_extended_twice(
                old(sink)@,
                node_reports(registry.rules(), *node, r as nat),
                rule_reports(registry.rules()[r as int], *node),
            );
        }
        r += 1;
    }
}

/// Walks the tree under `node` in pre-order: the node itself, then its
/// children from left to right. Every node is visited once, whatever the
/// rules find.
pub fn visit<R: Rule>(registry: &RuleRegistry<R>, node: &SyntaxNode, sink: &mut DiagnosticSink)
    requires
        old(sink).wf(),
    ensures
        final(sink).wf(),
        final(sink)@ == extended(old(sink)@, tree_reports(registry.rules(), *node)),
    decreases node,
{
    apply_rules(registry, node, sink);
    let ghost own = node_reports(registry.rules(), *node, registry.rules().len());
    let mut c: usize = 0;
    proof {
        lemma_extended_twice(old(sink)@, own, Seq::<Report>::empty());
        assert(own + Seq::<Report>::empty() =~= own);
    }
    while c < node.children.len()
        invariant
            c <= node.children@.len(),
            own == node_reports(registry.rules(), *node, registry.rules().len()),
            sink.wf(),
            sink@ == extended(
                old(sink)@,
                own + forest_reports(registry.rules(), node.children@, c as nat),
            ),
        decreases node.children@.len() - c,
    {
        let ghost done = forest_reports(registry.rules(), node.children@, c as nat);
        let ghost next = tree_reports(registry.rules(), node.children@[c as int]);
        visit(registry, &node.children[c], sink);
        proof {
            lemma_extended_twice(old(sink)@, own + done, next);
            assert((own + done) + next =~= own + (done + next));
        }
        c += 1;
    }
}

/// Walks each of `roots` in turn.
pub fn traverse<R: Rule>(registry: &RuleRegistry<R>, roots: &Vec<SyntaxNode>, sink: &mut DiagnosticSink)
    requires
        old(sink).wf(),
    ensures
        final(sink).wf(),
        final(sink)@ == extended(
            old(sink)@,
            forest_reports(registry.rules(), roots@, roots@.len()),
        ),
{
    let mut c: usize = 0;
    proof {
        lemma_extended_empty(sink@);
    }
    while c < roots.len()
        invariant
            c <= roots@.len(),
            sink.wf(),
            sink@ == extended(old(sink)@, forest_reports(registry.rules(), roots@, c as nat)),
        decreases roots@.len() - c,
    {
        visit(registry, &roots[c], sink);
        proof {
            lemma_extended_twice(
                old(sink)@,
                forest_reports(registry.rules(), roots@, c as nat),
                tree_reports(registry.rules(), roots@[c as int]),
            );
        }
        c += 1;
    }
}

/// The diagnostics of a whole run over `nodes` with `rules`.
pub open spec fn run_diagnostics<R: Rule>(rules: Seq<R>, nodes: Seq<SyntaxNode>) -> Seq<DiagnosticView> {
    extended(Seq::<DiagnosticView>::empty(), forest_reports(rules, nodes, nodes.len()))
}

/// One run: a fresh sink, one walk of every root, and the records of the
/// sink in the order of emission.
pub fn run<R: Rule>(registry: &RuleRegistry<R>, roots: &Vec<SyntaxNode>) -> (records: Vec<DiagnosticRecord>)
    ensures
        views_of(records@) == run_diagnostics(registry.rules(), roots@),
{
    let mut sink = DiagnosticSink::new();
    traverse(registry, roots, &mut sink);
    sink.drain()
}

/// Builds the registry from `rules` and runs it over `roots`. Where two rules
/// share an identifier nothing is walked and nothing is reported: the
/// conflict is the whole result.
pub fn lint<R: Rule>(rules: Vec<R>, roots: &Vec<SyntaxNode>) -> (result: Result<Vec<DiagnosticRecord>, RegistryConflictError>)
    ensures
        match result {
            Ok(records) => ids_of(rules@).no_duplicates() && views_of(records@) == run_diagnostics(
                rules@,
                roots@,
            ),
            Err(conflict) => !ids_of(rules@).no_duplicates() && exists|at: int|
                first_conflict(ids_of(rules@), at) && conflict.rule_id@ == #[trigger] ids_of(
                    rules@,
                )[at],
        },
{
    match RuleRegistry::from_rules(rules) {
        Ok(registry) => Ok(run(&registry, roots)),
        Err(conflict) => Err(conflict),
    }
}

/// A node whose span is expansion-derived yields nothing from a rule that
/// has not opted in to expanded code, whatever the node's shape is.
pub proof fn lemma_expanded_node_hidden<R: Rule>(rule: R, node: SyntaxNode)
    requires
        expansion_derived(node.span),
        !rule.examines_expanded_spec(),
    ensures
        rule_reports(rule, node) == Seq::<Report>::empty(),
{
}

/// Where none of the rules has opted in to expanded code, an
/// expansion-derived node yields no diagnostic at all.
pub proof fn lemma_expanded_node_silent<R: Rule>(rules: Seq<R>, node: SyntaxNode, n: nat)
    requires
        expansion_derived(node.span),
        forall|i: int| 0 <= i < rules.len() ==> !(#[trigger] rules[i]).examines_expanded_spec(),
    ensures
        node_reports(rules, node, n) == Seq::<Report>::empty(),
    decreases n,
{
    if n != 0 && n <= rules.len() {
        lemma_expanded_node_silent(rules, node, (n - 1) as nat);
        assert(node_reports(rules, node, n) =~= Seq::<Report>::empty());
    }
}

/// Every report of a rule carries that rule's own identifier, and a rule
/// that may see the node reports each of its findings once, in order.
pub proof fn lemma_reports_carry_own_id<R: Rule>(rule: R, node: SyntaxNode)
    ensures
        forall|i: int|
            0 <= i < rule_reports(rule, node).len() ==> (#[trigger] rule_reports(
                rule,
                node,
            )[i]).rule_id == rule.id_spec(),
        eligible(rule, node) ==> rule_reports(rule, node).len() == rule.findings(node).len(),
{
}

/// What the first `n` rules report depends on those rules alone.
pub proof fn lemma_node_reports_prefix<R: Rule>(first: Seq<R>, second: Seq<R>, node: SyntaxNode, n: nat)
    requires
        n <= first.len(),
        n <= second.len(),
        forall|i: int| 0 <= i < n ==> first[i] == second[i],
    ensures
        node_reports(first, node, n) == node_reports(second, node, n),
    decreases n,
{
    if n != 0 {
        lemma_node_reports_prefix(first, second, node, (n - 1) as nat);
    }
}

/// Registry order: at one node, the diagnostics of the rules registered
/// first come before those of the rules registered after them.
pub proof fn lemma_node_reports_in_registry_order<R: Rule>(first: Seq<R>, second: Seq<R>, node: SyntaxNode, n: nat)
    requires
        n <= second.len(),
    ensures
        node_reports(first + second, node, first.len() + n) == node_reports(
            first,
            node,
            first.len(),
        ) + node_reports(second, node, n),
    decreases n,
{
    let all = first + second;
    if n == 0 {
        lemma_node_reports_prefix(all, first, node, first.len());
        assert(node_reports(first, node, first.len()) + Seq::<Report>::empty() =~= node_reports(
            first,
            node,
            first.len(),
        ));
    } else {
        lemma_node_reports_in_registry_order(first, second, node, (n - 1) as nat);
        assert(all[first.len() + n - 1] == second[n - 1]);
        assert((node_reports(first, node, first.len()) + node_reports(
            second,
            node,
            (n - 1) as nat,
        )) + rule_reports(second[n - 1], node) =~= node_reports(first, node, first.len()) + (
        node_reports(second, node, (n - 1) as nat) + rule_reports(second[n - 1], node)));
    }
}

/// What the walks of the first `n` trees report depends on those trees
/// alone.
pub proof fn lemma_forest_reports_prefix<R: Rule>(rules: Seq<R>, first: Seq<SyntaxNode>, second: Seq<SyntaxNode>, n: nat)
    requires
        n <= first.len(),
        n <= second.len(),
        forall|i: int| 0 <= i < n ==> first[i] == second[i],
    ensures
        forest_reports(rules, first, n) == forest_reports(rules, second, n),
    decreases n,
{
    if n != 0 {
        lemma_forest_reports_prefix(rules, first, second, (n - 1) as nat);
    }
}

/// Visitation order: the diagnostics of the trees walked first come before
/// those of the trees walked after them.
pub proof fn lemma_forest_reports_in_visit_order<R: Rule>(rules: Seq<R>, first: Seq<SyntaxNode>, second: Seq<SyntaxNode>, n: nat)
    requires
        n <= second.len(),
    ensures
        forest_reports(rules, first + second, first.len() + n) == forest_reports(
            rules,
            first,
            first.len(),
        ) + forest_reports(rules, second, n),
    decreases n,
{
    let all = first + second;
    if n == 0 {
        lemma_forest_reports_prefix(rules, all, first, first.len());
        assert(forest_reports(rules, first, first.len()) + Seq::<Report>::empty()
            =~= forest_reports(rules, first, first.len()));
    } else {
        lemma_forest_reports_in_visit_order(rules, first, second, (n - 1) as nat);
        assert(all[first.len() + n - 1] == second[n - 1]);
        assert((forest_reports(rules, first, first.len()) + forest_reports(
            rules,
            second,
            (n - 1) as nat,
        )) + tree_reports(rules, second[n - 1]) =~= forest_reports(rules, first, first.len()) + (
        forest_reports(rules, second, (n - 1) as nat) + tree_reports(rules, second[n - 1])));
    }
}

/// Pre-order: within one tree, the diagnostics of the node itself come
/// first, in registry order, and those of its children follow, child after
/// child from left to right.
pub proof fn lemma_tree_reports_in_pre_order<R: Rule>(rules: Seq<R>, node: SyntaxNode, child: int)
    requires
        0 <= child < node.children@.len(),
    ensures
        tree_reports(rules, node) == node_reports(rules, node, rules.len()) + (forest_reports(
            rules,
            node.children@.subrange(0, child),
            child as nat,
        ) + tree_reports(rules, node.children@[child]) + forest_reports(
            rules,
            node.children@.subrange(child + 1, node.children@.len() as int),
            (node.children@.len() - child - 1) as nat,
        )),
{
    let kids = node.children@;
    let before = kids.subrange(0, child);
    let after = kids.subrange(child + 1, kids.len() as int);
    let upto = kids.subrange(0, child + 1);
    assert(upto + after =~= kids);
    lemma_forest_reports_in_visit_order(rules, upto, after, after.len());
    lemma_forest_reports_prefix(rules, upto, before, child as nat);
    assert(upto[child] == kids[child]);
}

/// Whether `path` leads from `root` down to a node of its tree: each entry
/// is the place of the next node among the children of the one before.
pub open spec fn valid_path(root: SyntaxNode, path: Seq<int>) -> bool
    decreases path.len(),
{
    path.len() == 0 || (0 <= path[0] < root.children@.len() && valid_path(
        root.children@[path[0]],
        path.drop_first(),
    ))
}

/// The node that `path` leads to from `root`.
pub open spec fn node_at(root: SyntaxNode, path: Seq<int>) -> SyntaxNode
    recommends
        valid_path(root, path),
    decreases path.len(),
{
    if path.len() == 0 {
        root
    } else {
        node_at(root.children@[path[0]], path.drop_first())
    }
}

/// Every node of a tree is visited: what the rules report at a node
/// anywhere in the tree stands, whole and in registry order, in what the walk
/// of the tree reports. The result is what the walk reports before and after
/// it.
pub proof fn lemma_contained_node_is_visited<R: Rule>(rules: Seq<R>, root: SyntaxNode, path: Seq<int>) -> (around: (Seq<Report>, Seq<Report>))
    requires
        valid_path(root, path),
    ensures
        tree_reports(rules, root) == around.0 + node_reports(
            rules,
            node_at(root, path),
            rules.len(),
        ) + around.1,
    decreases path.len(),
{
    let own = node_reports(rules, root, rules.len());
    let kids = root.children@;
    if path.len() == 0 {
        let after = forest_reports(rules, kids, kids.len());
        assert(tree_reports(rules, root) =~= Seq::<Report>::empty() + own + after);
        (Seq::<Report>::empty(), after)
    } else {
        let child = path[0];
        let inner = lemma_contained_node_is_visited(rules, kids[child], path.drop_first());
        lemma_tree_reports_in_pre_order(rules, root, child);
        let left = forest_reports(rules, kids.subrange(0, child), child as nat);
        let right = forest_reports(
            rules,
            kids.subrange(child + 1, kids.len() as int),
            (kids.len() - child - 1) as nat,
        );
        let found = node_reports(rules, node_at(root, path), rules.len());
        assert(own + (left + (inner.0 + found + inner.1) + right) =~= (own + left + inner.0)
            + found + (inner.1 + right));
        (own + left + inner.0, inner.1 + right)
    }
}

/// What the built-in rules report at a node. An addition in direct source
/// with a literal zero on either side gets exactly one warning, from
/// `AddZero`, at the span of the whole addition. A call of `unwrap` in direct
/// source gets exactly one warning, from `UnwrapUsed` under its own
/// identifier, at the span of the call. Every other node gets nothing: an
/// addition of which neither operand is a literal zero, a node of another
/// shape, and every node that comes from expansion.
pub proof fn lemma_builtin_reports(node: SyntaxNode)
    ensures
        node_reports(builtin_rules(), node, 2) == if expansion_derived(node.span) {
            Seq::<Report>::empty()
        } else if adds_literal_zero(node) {
            seq![
                Report {
                    rule_id: "add_zero"@,
                    severity: Severity::Warn,
                    message: "Ineffective operation"@,
                    span: node.span,
                },
            ]
        } else if calls_unwrap(node) {
            seq![
                Report {
                    rule_id: "unwrap_used"@,
                    severity: Severity::Warn,
                    message: "`unwrap` is used here"@,
                    span: node.span,
                },
            ]
        } else {
            Seq::<Report>::empty()
        },
{
    let rules = builtin_rules();
    reveal_with_fuel(node_reports, 3);
    let first = rule_reports(rules[0], node);
    let second = rule_reports(rules[1], node);
    assert(node_reports(rules, node, 2) =~= first + second);
    if expansion_derived(node.span) {
        assert(first + second =~= Seq::<Report>::empty());
    } else if adds_literal_zero(node) {
        assert(!calls_unwrap(node));
        assert(first + second =~= seq![
            Report {
                rule_id: "add_zero"@,
                severity: Severity::Warn,
                message: "Ineffective operation"@,
                span: node.span,
            },
        ]);
    } else if calls_unwrap(node) {
        assert(first + second =~= seq![
            Report {
                rule_id: "unwrap_used"@,
                severity: Severity::Warn,
                message: "`unwrap` is used here"@,
                span: node.span,
            },
        ]);
    } else {
        assert(first + second =~= Seq::<Report>::empty());
    }
}

/// The diagnostics of a run are numbered 0, 1, 2, ... in the order of
/// emission, one for each report of the walk.
pub proof fn lemma_run_numbers_in_order<R: Rule>(rules: Seq<R>, nodes: Seq<SyntaxNode>)
    ensures
        run_diagnostics(rules, nodes).len() == forest_reports(rules, nodes, nodes.len()).len(),
        forall|i: int|
            0 <= i < run_diagnostics(rules, nodes).len() ==> #[trigger] run_diagnostics(
                rules,
                nodes,
            )[i] == numbered(forest_reports(rules, nodes, nodes.len())[i], i as nat),
{
}

/// Two runs over the same trees with the same rules yield the same
/// diagnostics in the same order.
pub proof fn lemma_run_deterministic<R: Rule>(
    rules: Seq<R>,
    nodes: Seq<SyntaxNode>,
    first: Seq<DiagnosticRecord>,
    second: Seq<DiagnosticRecord>,
)
    requires
        views_of(first) == run_diagnostics(rules, nodes),
        views_of(second) == run_diagnostics(rules, nodes),
    ensures
        first.len() == second.len(),
        forall|i: int| 0 <= i < first.len() ==> (#[trigger] first[i])@ == second[i]@,
{
    assert(views_of(first).len() == first.len());
    assert(views_of(second).len() == second.len());
    assert forall|i: int| 0 <= i < first.len() implies (#[trigger] first[i])@ == second[i]@ by {
        assert(views_of(first)[i] == first[i]@);
        assert(views_of(second)[i] == second[i]@);
    }
}

} // verus!
