//! The ordered collection of the rules that are active in a run.

use vstd::prelude::*;
use crate::builtin::{builtin_rules, lemma_builtin_ids_differ, AddZero, BuiltinRule, UnwrapUsed};
use crate::rule::Rule;

verus! {

/// Two rules share an identifier.
#[derive(Clone, Debug, PartialEq, Eq)]
pub struct RegistryConflictError {
    /// The identifier that was registered twice.
    pub rule_id: String,
}

/// The identifiers of `rules`, in order.
pub open spec fn ids_of<R: Rule>(rules: Seq<R>) -> Seq<Seq<char>> {
    Seq::new(rules.len(), |i: int| rules[i].id_spec())
}

/// Whether the rule at `at` has the identifier of a rule before it.
pub open spec fn repeats_earlier_id(ids: Seq<Seq<char>>, at: int) -> bool {
    0 <= at < ids.len() && exists|i: int| 0 <= i < at && #[trigger] ids[i] == ids[at]
}

/// Whether `at` is the first place in `ids` that repeats an earlier one.
pub open spec fn first_conflict(ids: Seq<Seq<char>>, at: int) -> bool {
    repeats_earlier_id(ids, at) && forall|k: int| 0 <= k < at ==> !repeats_earlier_id(ids, k)
}

/// The rules of a run, in the order in which they were registered. No two of
/// them share an identifier.
pub struct RuleRegistry<R: Rule> {
    rules: Vec<R>,
}

impl<R: Rule> RuleRegistry<R> {
    /// The registered rules, in insertion order.
    pub closed spec fn rules(&self) -> Seq<R> {
        self.rules@
    }

    /// The registry's invariant: identifiers are unique.
    pub open spec fn wf(&self) -> bool {
        ids_of(self.rules()).no_duplicates()
    }

    /// A registry without rules.
    pub fn new() -> (registry: RuleRegistry<R>)
        ensures
            registry.rules() == Seq::<R>::empty(),
            registry.wf(),
    {
        RuleRegistry { rules: Vec::new() }
    }

    /// The number of registered rules.
    pub fn len(&self) -> (n: usize)
        ensures
            n == self.rules().len(),
    {
        self.rules.len()
    }

    /// The rule at place `index` in insertion order.
    pub fn get(&self, index: usize) -> (rule: &R)
        requires
            index < self.rules().len(),
        ensures
            *rule == self.rules()[index as int],
    {
        &self.rules[index]
    }

    /// Whether a rule with this identifier is registered.
    pub fn contains(&self, id: &String) -> (found: bool)
        ensures
            found == ids_of(self.rules()).contains(id@),
    {
        let mut i: usize = 0;
        while i < self.rules.len()
            invariant
                i <= self.rules@.len(),
                forall|k: int| 0 <= k < i ==> self.rules@[k].id_spec() != id@,
            decreases self.rules@.len() - i,
        {
            let other = self.rules[i].id();
            if other == *id {
                assert(ids_of(self.rules())[i as int] == id@);
                return true;
            }
            i += 1;
        }
        assert forall|k: int| 0 <= k < ids_of(self.rules()).len() implies ids_of(
            self.rules(),
        )[k] != id@ by {
            assert(ids_of(self.rules())[k] == self.rules@[k].id_spec());
        }
        false
    }

    /// Appends `rule` unless a rule with its identifier is already there; then
    /// the registry stays as it was and the identifier comes back as the
    /// error.
    pub fn register(&mut self, rule: R) -> (result: Result<(), RegistryConflictError>)
        requires
            old(self).wf(),
        ensures
            final(self).wf(),
            match result {
                Ok(()) => {
                    &&& !ids_of(old(self).rules()).contains(rule.id_spec())
                    &&& final(self).rules() == old(self).rules().push(rule)
                },
                Err(conflict) => {
                    &&& ids_of(old(self).rules()).contains(rule.id_spec())
                    &&& conflict.rule_id@ == rule.id_spec()
                    &&& final(self).rules() == old(self).rules()
                },
            },
    {
        let id = rule.id();
        if self.contains(&id) {
            return Err(RegistryConflictError { rule_id: id });
        }
        self.rules.push(rule);
        proof {
            let before = ids_of(old(self).rules());
            let after = ids_of(self.rules());
            assert(after =~= before.push(rule.id_spec()));
            assert forall|i: int, j: int| 0 <= i < after.len() && 0 <= j < after.len() && i != j implies after[i] != after[j] by {
                if i < before.len() && j < before.len() {
                    assert(before[i] != before[j]);
                } else if i < before.len() {
                    assert(before.contains(before[i]));
                } else {
                    assert(before.contains(before[j]));
                }
            }
        }
        Ok(())
    }

    /// Builds the registry of a run from a plain list of rules, keeping their
    /// order. Fails, with the first identifier that repeats an earlier one,
    /// if and only if two of the rules share an identifier.
    pub fn from_rules(rules: Vec<R>) -> (result: Result<RuleRegistry<R>, RegistryConflictError>)
        ensures
            match result {
                Ok(registry) => ids_of(rules@).no_duplicates() && registry.rules() == rules@
                    && registry.wf(),
                Err(conflict) => !ids_of(rules@).no_duplicates() && exists|at: int|
                    first_conflict(ids_of(rules@), at) && conflict.rule_id@ == #[trigger] ids_of(
                        rules@,
                    )[at],
            },
    {
        let ghost ids = ids_of(rules@);
        let mut j: usize = 0;
        while j < rules.len()
            invariant
                j <= rules@.len(),
                ids == ids_of(rules@),
                forall|k: int| 0 <= k < j ==> !repeats_earlier_id(ids, k),
            decreases rules@.len() - j,
        {
            let id = rules[j].id();
            let mut i: usize = 0;
            while i < j
                invariant
                    i <= j < rules@.len(),
                    ids == ids_of(rules@),
                    id@ == ids[j as int],
                    forall|k: int| 0 <= k < j ==> !repeats_earlier_id(ids, k),
                    forall|k: int| 0 <= k < i ==> ids[k] != ids[j as int],
                decreases j - i,
            {
                let earlier = rules[i].id();
                if earlier == id {
                    proof {
                        assert(ids[i as int] == ids[j as int]);
                        assert(repeats_earlier_id(ids, j as int));
                        assert(first_conflict(ids, j as int));
                    }
                    return Err(RegistryConflictError { rule_id: id });
                }
                i += 1;
            }
            j += 1;
        }
        proof {
            assert forall|a: int, b: int| 0 <= a < ids.len() && 0 <= b < ids.len() && a != b implies ids[a] != ids[b] by {
                if a < b {
                    assert(!repeats_earlier_id(ids, b));
                } else {
                    assert(!repeats_earlier_id(ids, a));
                }
            }
        }
        Ok(RuleRegistry { rules })
    }
}

impl RuleRegistry<BuiltinRule> {
    /// The registry of the built-in rules: `AddZero`, then `UnwrapUsed`, each
    /// as it is by default.
    pub fn builtin() -> (registry: RuleRegistry<BuiltinRule>)
        ensures
            registry.wf(),
            registry.rules() == builtin_rules(),
    {
        let mut rules: Vec<BuiltinRule> = Vec::new();
        rules.push(BuiltinRule::AddZero(AddZero::new()));
        rules.push(BuiltinRule::UnwrapUsed(UnwrapUsed::new()));
        let registry = RuleRegistry { rules };
        proof {
            lemma_builtin_ids_differ(
                AddZero { examines_expanded: false },
                UnwrapUsed { examines_expanded: false },
            );
            assert(registry.rules() =~= builtin_rules());
        }
        registry
    }
}

/// Two rules that share an identifier cannot stand in one registry: the
/// identifiers of a list that holds both are not unique, and the list has a
/// first place, at or before the second of the two, that repeats an earlier
/// identifier.
pub proof fn lemma_shared_id_is_refused<R: Rule>(rules: Seq<R>, i: int, j: int)
    requires
        0 <= i < j < rules.len(),
        rules[i].id_spec() == rules[j].id_spec(),
    ensures
        !ids_of(rules).no_duplicates(),
        exists|at: int| first_conflict(ids_of(rules), at) && at <= j,
    decreases j,
{
    let ids = ids_of(rules);
    assert(ids[i] == ids[j]);
    assert(repeats_earlier_id(ids, j));
    if exists|k: int| 0 <= k < j && repeats_earlier_id(ids, k) {
        let k = choose|k: int| 0 <= k < j && repeats_earlier_id(ids, k);
        let h = choose|h: int| 0 <= h < k && #[trigger] ids[h] == ids[k];
        lemma_shared_id_is_refused(rules, h, k);
    } else {
        assert(first_conflict(ids, j));
    }
}

/// The identifier of `rule` is taken, so that registering `rule` fails,
/// exactly when one of `rules` carries it.
pub proof fn lemma_registered_id_is_taken<R: Rule>(rules: Seq<R>, rule: R)
    ensures
        ids_of(rules).contains(rule.id_spec()) <==> exists|i: int|
            0 <= i < rules.len() && (#[trigger] rules[i]).id_spec() == rule.id_spec(),
{
    let ids = ids_of(rules);
    if ids.contains(rule.id_spec()) {
        let i = choose|i: int| 0 <= i < ids.len() && ids[i] == rule.id_spec();
        assert(rules[i].id_spec() == rule.id_spec());
    }
    if exists|i: int| 0 <= i < rules.len() && (#[trigger] rules[i]).id_spec() == rule.id_spec() {
        let i = choose|i: int| 0 <= i < rules.len() && (#[trigger] rules[i]).id_spec() == rule.id_spec();
        assert(ids[i] == rule.id_spec());
    }
}

} // verus!
