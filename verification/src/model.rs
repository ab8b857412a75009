//! The mathematical model of a machine: its rules, its table, and what one
//! registration and one dispatch do to it.

use crate::callback::{ActionView, PredicateView};
use crate::domain::EnumTag;
use vstd::prelude::*;

verus! {

/// How many rules one pair of a state and an event may carry.
#[derive(Clone, Copy, Debug, PartialEq, Eq, Structural)]
pub enum Policy {
    /// At most one rule per pair: registering a second one is refused.
    SingleEdge,
    /// Any number of rules per pair, tried in the order of registration.
    MultiEdge,
}

/// One transition rule, as the contracts see it.
#[verifier::reject_recursive_types(S)]
#[verifier::reject_recursive_types(E)]
pub struct RuleView<S, E> {
    /// The state the machine moves to when the rule fires.
    pub next_state: S,
    /// The guard that decides whether the rule applies; `None` for a rule
    /// that always applies.
    pub guard: Option<PredicateView<S, E>>,
    /// The action that runs when the rule fires.
    pub action: ActionView<S, E>,
}

impl<S, E> RuleView<S, E> {
    /// The rule without a guard that leads to `next_state` and runs `action`.
    pub open spec fn unguarded(next_state: S, action: ActionView<S, E>) -> Self {
        RuleView { next_state, guard: None, action }
    }

    /// The rule that leads to `next_state` and runs `action` whenever `guard`
    /// answers true.
    pub open spec fn guarded(
        next_state: S,
        guard: PredicateView<S, E>,
        action: ActionView<S, E>,
    ) -> Self {
        RuleView { next_state, guard: Some(guard), action }
    }

    /// Both callbacks of the rule may be called on `s` and `e`.
    pub open spec fn callable(self, s: S, e: E) -> bool {
        &&& self.guard matches Some(g) ==> (g.callable)(s, e)
        &&& (self.action.callable)(s, e)
    }

    /// The rule can let `s` and `e` through: it has no guard, or its guard
    /// can answer true.
    pub open spec fn may_accept(self, s: S, e: E) -> bool {
        self.guard matches Some(g) ==> (g.verdict)(s, e, true)
    }

    /// The rule can turn `s` and `e` away: it has a guard, and the guard can
    /// answer false.
    pub open spec fn may_reject(self, s: S, e: E) -> bool {
        self.guard matches Some(g) && (g.verdict)(s, e, false)
    }

    /// The rule has one answer at most for `s` and `e`.
    pub open spec fn decisive(self, s: S, e: E) -> bool {
        !(self.may_accept(s, e) && self.may_reject(s, e))
    }
}

/// Whether scanning `rules` in order on `s` and `e` can end with `choice`:
/// at `Some(k)` when rule `k` let the pair through after every earlier rule
/// turned it away, at `None` when every rule turned it away.
pub open spec fn selects<S, E>(
    rules: Seq<RuleView<S, E>>,
    s: S,
    e: E,
    choice: Option<int>,
) -> bool {
    match choice {
        Some(k) => {
            &&& 0 <= k < rules.len()
            &&& rules[k].may_accept(s, e)
            &&& forall|j: int| 0 <= j < k ==> (#[trigger] rules[j]).may_reject(s, e)
        },
        None => forall|j: int| 0 <= j < rules.len() ==> (#[trigger] rules[j]).may_reject(s, e),
    }
}

/// A machine, as the contracts see it.
#[verifier::reject_recursive_types(S)]
#[verifier::reject_recursive_types(E)]
pub struct MachineView<S, E> {
    /// The current state.
    pub state: S,
    /// The registration policy the machine was built with.
    pub policy: Policy,
    /// The rules, by state tag, then by event tag, then in the order of
    /// registration.
    pub table: Seq<Seq<Seq<RuleView<S, E>>>>,
}

impl<S: EnumTag, E: EnumTag> MachineView<S, E> {
    /// The machine in `state` with a table that covers every tag and holds no
    /// rule.
    pub open spec fn empty(state: S, policy: Policy) -> Self {
        MachineView {
            state,
            policy,
            table: Seq::new(
                S::max_tag() + 1,
                |i: int| Seq::new(E::max_tag() + 1, |j: int| Seq::empty()),
            ),
        }
    }

    /// The rules for state tag `i` and event tag `j`, in the order of
    /// registration; none where a tag lies outside the table.
    pub open spec fn edge(self, i: nat, j: nat) -> Seq<RuleView<S, E>> {
        if i < self.table.len() && j < self.table[i as int].len() {
            self.table[i as int][j as int]
        } else {
            Seq::empty()
        }
    }

    /// The table has one row for each state tag up to the largest and, in
    /// each row, one edge for each event tag up to the largest.
    pub open spec fn covers(self) -> bool {
        &&& self.table.len() == S::max_tag() + 1
        &&& forall|i: int|
            0 <= i < self.table.len() ==> (#[trigger] self.table[i]).len() == E::max_tag() + 1
    }

    /// The table covers exactly the declared tags, a single-edge machine has
    /// one rule at most on every edge, and every rule may be called on the
    /// states and events that reach its edge.
    pub open spec fn well_formed(self) -> bool {
        &&& self.covers()
        &&& self.policy == Policy::SingleEdge ==> forall|i: nat, j: nat|
            (#[trigger] self.edge(i, j)).len() <= 1
        &&& forall|s: S, e: E, k: int|
            0 <= k < self.edge(s.tag(), e.tag()).len() ==> (#[trigger] self.edge(
                s.tag(),
                e.tag(),
            )[k]).callable(s, e)
    }

    /// Whether the policy lets one more rule onto the edge for state tag `i`
    /// and event tag `j`.
    pub open spec fn admits(self, i: nat, j: nat) -> bool {
        self.policy == Policy::MultiEdge || self.edge(i, j).len() == 0
    }

    /// The machine with `rule` appended to the edge for state tag `i` and
    /// event tag `j`.
    pub open spec fn with_rule(self, i: nat, j: nat, rule: RuleView<S, E>) -> Self
        recommends
            i < self.table.len(),
            j < self.table[i as int].len(),
    {
        MachineView {
            table: self.table.update(
                i as int,
                self.table[i as int].update(j as int, self.table[i as int][j as int].push(rule)),
            ),
            ..self
        }
    }

    /// The machine after an attempt to register `rule` for state tag `i` and
    /// event tag `j`: with the rule appended where the policy admits it,
    /// unchanged where it does not.
    pub open spec fn register(self, i: nat, j: nat, rule: RuleView<S, E>) -> Self
        recommends
            i < self.table.len(),
            j < self.table[i as int].len(),
    {
        if self.admits(i, j) {
            self.with_rule(i, j, rule)
        } else {
            self
        }
    }

    /// The rules that `event` meets in the current state.
    pub open spec fn matching(self, event: E) -> Seq<RuleView<S, E>> {
        self.edge(self.state.tag(), event.tag())
    }

    /// Whether dispatching `event` can end with `choice`: the position of the
    /// rule that fires among those that `event` meets, or `None` when no rule
    /// fires.
    pub open spec fn selects(self, event: E, choice: Option<int>) -> bool {
        selects(self.matching(event), self.state, event, choice)
    }

    /// What is known of the action once `event` has been dispatched with
    /// `choice`: the action of the rule that fired has run on the state
    /// before the transition and on `event`.
    pub open spec fn performed(self, event: E, choice: Option<int>) -> bool {
        choice matches Some(k) ==> (self.matching(event)[k].action.effect)(self.state, event)
    }

    /// The machine after `event` has been dispatched with `choice`: in the
    /// next state of the rule that fired, or unchanged when none did.
    pub open spec fn advance(self, event: E, choice: Option<int>) -> Self {
        match choice {
            Some(k) => MachineView { state: self.matching(event)[k].next_state, ..self },
            None => self,
        }
    }

    /// Every rule has one answer at most for every state and event.
    pub open spec fn decisive(self) -> bool {
        forall|i: nat, j: nat, k: int, s: S, e: E|
            0 <= k < self.edge(i, j).len() ==> #[trigger] self.edge(i, j)[k].decisive(s, e)
    }
}

/// The outcome of a dispatch as a position in the model.
pub open spec fn position(fired: Option<usize>) -> Option<int> {
    match fired {
        Some(k) => Some(k as int),
        None => None,
    }
}

} // verus!
