//! Laws of registration and dispatch, proved over the model.
//!
//! Each law speaks of [`MachineView`] and of the relations that the contracts
//! of [`crate::Machine`] are written in, so that it applies to whatever those
//! functions return.

use crate::callback::ActionView;
use crate::domain::EnumTag;
use crate::model::{selects, MachineView, Policy, RuleView};
use crate::replay::Step;
use vstd::prelude::*;

verus! {

/// Appending a rule to an edge changes that edge and no other.
pub proof fn lemma_with_rule_edges<S: EnumTag, E: EnumTag>(
    v: MachineView<S, E>,
    i: nat,
    j: nat,
    rule: RuleView<S, E>,
)
    requires
        v.covers(),
        i <= S::max_tag(),
        j <= E::max_tag(),
    ensures
        v.with_rule(i, j, rule).covers(),
        v.with_rule(i, j, rule).edge(i, j) == v.edge(i, j).push(rule),
        forall|n: nat, m: nat|
            n != i || m != j ==> #[trigger] v.with_rule(i, j, rule).edge(n, m) == v.edge(n, m),
{
    let after = v.with_rule(i, j, rule);
    assert(v.table[i as int].len() == E::max_tag() + 1);
    assert forall|n: nat, m: nat| n != i || m != j implies #[trigger] after.edge(n, m) == v.edge(
        n,
        m,
    ) by {
        if n < v.table.len() {
            assert(v.table[n as int].len() == E::max_tag() + 1);
        }
    }
}

/// Registration keeps a machine well formed: a rule that may be called on
/// every state and event that reach its edge can be registered on any
/// well-formed machine, and the machine that results is well formed whether
/// the policy admitted the rule or not.
pub proof fn lemma_register_well_formed<S: EnumTag, E: EnumTag>(
    v: MachineView<S, E>,
    i: nat,
    j: nat,
    rule: RuleView<S, E>,
)
    requires
        v.well_formed(),
        i <= S::max_tag(),
        j <= E::max_tag(),
        forall|s: S, e: E| s.tag() == i && e.tag() == j ==> #[trigger] rule.callable(s, e),
    ensures
        v.register(i, j, rule).well_formed(),
{
    if v.admits(i, j) {
        let after = v.with_rule(i, j, rule);
        lemma_with_rule_edges(v, i, j, rule);
        assert forall|s: S, e: E, k: int|
            0 <= k < after.edge(s.tag(), e.tag()).len() implies (#[trigger] after.edge(
            s.tag(),
            e.tag(),
        )[k]).callable(s, e) by {
            if s.tag() == i && e.tag() == j && k == v.edge(i, j).len() {
                assert(rule.callable(s, e));
            } else {
                assert(v.edge(s.tag(), e.tag())[k].callable(s, e));
            }
        }
        if after.policy == Policy::SingleEdge {
            assert forall|n: nat, m: nat| (#[trigger] after.edge(n, m)).len() <= 1 by {
                assert(v.edge(n, m).len() <= 1);
            }
        }
    }
}

/// Dispatch keeps a machine well formed, whatever rule fires.
pub proof fn lemma_advance_well_formed<S: EnumTag, E: EnumTag>(
    v: MachineView<S, E>,
    event: E,
    choice: Option<int>,
)
    requires
        v.well_formed(),
    ensures
        v.advance(event, choice).well_formed(),
        v.advance(event, choice).table == v.table,
        v.advance(event, choice).policy == v.policy,
{
    let after = v.advance(event, choice);
    assert forall|n: nat, m: nat| #[trigger] after.edge(n, m) == v.edge(n, m) by {}
    assert forall|s: S, e: E, k: int|
        0 <= k < after.edge(s.tag(), e.tag()).len() implies (#[trigger] after.edge(
        s.tag(),
        e.tag(),
    )[k]).callable(s, e) by {
        assert(v.edge(s.tag(), e.tag())[k].callable(s, e));
    }
}

/// Registration never removes or reorders a rule: every edge of the machine
/// as it was opens the same edge of the machine that results.
pub proof fn lemma_register_keeps_rules<S: EnumTag, E: EnumTag>(
    v: MachineView<S, E>,
    i: nat,
    j: nat,
    rule: RuleView<S, E>,
    n: nat,
    m: nat,
)
    requires
        v.covers(),
        i <= S::max_tag(),
        j <= E::max_tag(),
    ensures
        v.edge(n, m).is_prefix_of(v.register(i, j, rule).edge(n, m)),
{
    if v.admits(i, j) {
        lemma_with_rule_edges(v, i, j, rule);
    }
}

/// The current state changes only when a dispatch fires a rule: no
/// registration moves the machine, and no dispatch that fires nothing. The
/// policy never changes, and the table changes by registration only.
pub proof fn lemma_state_moves_only_on_firing<S: EnumTag, E: EnumTag>(
    v: MachineView<S, E>,
    step: Step<S, E>,
    choice: Option<int>,
)
    ensures
        v.apply(step, choice).policy == v.policy,
        step is Register || choice is None ==> v.apply(step, choice).state == v.state,
        step is Dispatch ==> v.apply(step, choice).table == v.table,
{
}

/// An event for which the current state has no rule is ignored: no rule
/// fires and the machine stays as it is. This covers a state or an event
/// whose tag lies outside the table.
pub proof fn lemma_undefined_event_is_ignored<S: EnumTag, E: EnumTag>(
    v: MachineView<S, E>,
    event: E,
    choice: Option<int>,
)
    requires
        v.matching(event).len() == 0,
        v.selects(event, choice),
    ensures
        choice is None,
        v.advance(event, choice) == v,
{
}

/// The first rule that cannot turn a state and an event away, behind rules
/// that cannot let them through, is the one that fires.
pub proof fn lemma_first_willing_rule_fires<S, E>(
    rules: Seq<RuleView<S, E>>,
    s: S,
    e: E,
    k: int,
    choice: Option<int>,
)
    requires
        0 <= k < rules.len(),
        forall|j: int| 0 <= j < k ==> !(#[trigger] rules[j]).may_accept(s, e),
        !rules[k].may_reject(s, e),
        selects(rules, s, e, choice),
    ensures
        choice == Some(k),
{
    match choice {
        Some(c) => {
            if c < k {
                assert(!rules[c].may_accept(s, e));
            } else if c > k {
                assert(rules[k].may_reject(s, e));
            }
        },
        None => {
            assert(rules[k].may_reject(s, e));
        },
    }
}

/// A rule without a guard fires on its event: where the rules that an event
/// meets in the current state hold, behind rules that cannot let the state
/// and the event through, a rule without a guard, dispatching the event fires
/// that rule, takes the machine to the rule's next state, and runs the rule's
/// action on the state before the transition and on the event.
///
/// On a single-edge machine the rule is the only one on its edge.
pub proof fn lemma_unguarded_rule_fires<S: EnumTag, E: EnumTag>(
    v: MachineView<S, E>,
    event: E,
    k: int,
    next_state: S,
    action: ActionView<S, E>,
    choice: Option<int>,
)
    requires
        0 <= k < v.matching(event).len(),
        v.matching(event)[k] == RuleView::unguarded(next_state, action),
        forall|j: int|
            0 <= j < k ==> !(#[trigger] v.matching(event)[j]).may_accept(v.state, event),
        v.selects(event, choice),
    ensures
        choice == Some(k),
        v.advance(event, choice).state == next_state,
        v.performed(event, choice) ==> (action.effect)(v.state, event),
{
    lemma_first_willing_rule_fires(v.matching(event), v.state, event, k, choice);
}

/// A rule fires as soon as it is registered: once a rule without a guard has
/// been admitted for the current state and an event, on an edge whose earlier
/// rules cannot let that state and event through, dispatching the event fires
/// the rule, takes the machine to the rule's next state, and runs the rule's
/// action on the state before the transition and on the event.
pub proof fn lemma_registered_rule_fires<S: EnumTag, E: EnumTag>(
    v: MachineView<S, E>,
    event: E,
    next_state: S,
    action: ActionView<S, E>,
    choice: Option<int>,
)
    requires
        v.covers(),
        v.state.tag() <= S::max_tag(),
        event.tag() <= E::max_tag(),
        v.admits(v.state.tag(), event.tag()),
        forall|j: int|
            0 <= j < v.matching(event).len() ==> !(#[trigger] v.matching(event)[j]).may_accept(
                v.state,
                event,
            ),
        v.register(v.state.tag(), event.tag(), RuleView::unguarded(next_state, action)).selects(
            event,
            choice,
        ),
    ensures
        choice == Some(v.matching(event).len() as int),
        v.register(v.state.tag(), event.tag(), RuleView::unguarded(next_state, action)).advance(
            event,
            choice,
        ).state == next_state,
        v.register(v.state.tag(), event.tag(), RuleView::unguarded(next_state, action)).performed(
            event,
            choice,
        ) ==> (action.effect)(v.state, event),
{
    let rule = RuleView::unguarded(next_state, action);
    let w = v.register(v.state.tag(), event.tag(), rule);
    lemma_with_rule_edges(v, v.state.tag(), event.tag(), rule);
    let k = v.matching(event).len() as int;
    assert forall|j: int| 0 <= j < k implies !(#[trigger] w.matching(event)[j]).may_accept(
        v.state,
        event,
    ) by {
        assert(w.matching(event)[j] == v.matching(event)[j]);
    }
    lemma_unguarded_rule_fires(w, event, k, next_state, action, choice);
}

/// Of two rules registered for one state and event on an empty edge of a
/// multi-edge machine, the first with a guard that cannot answer true and the
/// second with a guard that cannot answer false, dispatch fires the second
/// and never the first: the machine moves to the second rule's next state and
/// the second rule's action is the one that has run.
pub proof fn lemma_second_guard_wins<S: EnumTag, E: EnumTag>(
    v: MachineView<S, E>,
    event: E,
    first: RuleView<S, E>,
    second: RuleView<S, E>,
    choice: Option<int>,
)
    requires
        v.covers(),
        v.policy == Policy::MultiEdge,
        v.state.tag() <= S::max_tag(),
        event.tag() <= E::max_tag(),
        v.matching(event).len() == 0,
        !first.may_accept(v.state, event),
        !second.may_reject(v.state, event),
        v.register(v.state.tag(), event.tag(), first).register(
            v.state.tag(),
            event.tag(),
            second,
        ).selects(event, choice),
    ensures
        choice == Some(1int),
        v.register(v.state.tag(), event.tag(), first).register(
            v.state.tag(),
            event.tag(),
            second,
        ).advance(event, choice).state == second.next_state,
        v.register(v.state.tag(), event.tag(), first).register(
            v.state.tag(),
            event.tag(),
            second,
        ).performed(event, choice) ==> (second.action.effect)(v.state, event),
{
    let i = v.state.tag();
    let j = event.tag();
    let u = v.register(i, j, first);
    let w = u.register(i, j, second);
    lemma_with_rule_edges(v, i, j, first);
    lemma_with_rule_edges(u, i, j, second);
    assert(w.matching(event) == seq![first, second]);
    lemma_first_willing_rule_fires(w.matching(event), v.state, event, 1, choice);
}

/// A single-edge machine takes one rule per state and event: once a
/// registration for a pair has been admitted, a second one for that pair is
/// refused and leaves the machine, and with it the first rule, as it was.
pub proof fn lemma_second_registration_refused<S: EnumTag, E: EnumTag>(
    v: MachineView<S, E>,
    i: nat,
    j: nat,
    first: RuleView<S, E>,
    second: RuleView<S, E>,
)
    requires
        v.covers(),
        v.policy == Policy::SingleEdge,
        i <= S::max_tag(),
        j <= E::max_tag(),
        v.admits(i, j),
    ensures
        !v.register(i, j, first).admits(i, j),
        v.register(i, j, first).register(i, j, second) == v.register(i, j, first),
        v.register(i, j, first).edge(i, j) == seq![first],
{
    lemma_with_rule_edges(v, i, j, first);
    assert(v.edge(i, j).push(first) =~= seq![first]);
}

/// Where every rule of an edge has one answer at most, scanning the edge has
/// one outcome at most.
pub proof fn lemma_selection_deterministic<S, E>(
    rules: Seq<RuleView<S, E>>,
    s: S,
    e: E,
    a: Option<int>,
    b: Option<int>,
)
    requires
        forall|k: int| 0 <= k < rules.len() ==> (#[trigger] rules[k]).decisive(s, e),
        selects(rules, s, e, a),
        selects(rules, s, e, b),
    ensures
        a == b,
{
    match (a, b) {
        (Some(x), Some(y)) => {
            if x < y {
                assert(rules[x].decisive(s, e));
            } else if y < x {
                assert(rules[y].decisive(s, e));
            }
        },
        (Some(x), None) => {
            assert(rules[x].decisive(s, e));
        },
        (None, Some(y)) => {
            assert(rules[y].decisive(s, e));
        },
        (None, None) => {},
    }
}

/// Whether every registration among `steps` names an edge of the table and
/// brings a rule that has one answer at most for every state and event.
pub open spec fn decisive_steps<S: EnumTag, E: EnumTag>(steps: Seq<Step<S, E>>) -> bool {
    forall|n: int|
        0 <= n < steps.len() ==> match #[trigger] steps[n] {
            Step::Register { in_tag, on_tag, rule } => {
                &&& in_tag <= S::max_tag()
                &&& on_tag <= E::max_tag()
                &&& forall|s: S, e: E| #[trigger] rule.decisive(s, e)
            },
            Step::Dispatch { .. } => true,
        }
}

/// Dispatch is deterministic: where no guard has two answers for one state
/// and event, a sequence of registrations and events taken from one machine
/// has one outcome. Any two runs of it fire the same rules, end in the same
/// machine, and make the same calls of actions in the same order.
pub proof fn lemma_replay_deterministic<S: EnumTag, E: EnumTag>(
    v: MachineView<S, E>,
    steps: Seq<Step<S, E>>,
    a: Seq<Option<int>>,
    b: Seq<Option<int>>,
)
    requires
        v.covers(),
        v.decisive(),
        decisive_steps(steps),
        v.follows(steps, a),
        v.follows(steps, b),
    ensures
        a == b,
        v.replay(steps, a) == v.replay(steps, b),
        v.invocations(steps, a) == v.invocations(steps, b),
    decreases steps.len(),
{
    if steps.len() == 0 {
        assert(a =~= b);
    } else {
        let step = steps[0];
        match step {
            Step::Register { in_tag, on_tag, rule } => {
                lemma_register_decisive(v, in_tag, on_tag, rule);
            },
            Step::Dispatch { event } => {
                let rules = v.matching(event);
                assert forall|k: int| 0 <= k < rules.len() implies (#[trigger] rules[k]).decisive(
                    v.state,
                    event,
                ) by {
                    assert(v.edge(v.state.tag(), event.tag())[k].decisive(v.state, event));
                }
                lemma_selection_deterministic(rules, v.state, event, a[0], b[0]);
                lemma_advance_decisive(v, event, a[0]);
            },
        }
        assert(a[0] == b[0]);
        let next = v.apply(step, a[0]);
        assert forall|n: int| 0 <= n < steps.len() - 1 implies #[trigger] steps.drop_first()[n]
            == steps[n + 1] by {}
        lemma_replay_deterministic(next, steps.drop_first(), a.drop_first(), b.drop_first());
        assert(a =~= seq![a[0]] + a.drop_first());
        assert(b =~= seq![b[0]] + b.drop_first());
    }
}

/// Registering a rule that has one answer at most keeps a machine covering
/// its tags and free of rules with two answers.
proof fn lemma_register_decisive<S: EnumTag, E: EnumTag>(
    v: MachineView<S, E>,
    i: nat,
    j: nat,
    rule: RuleView<S, E>,
)
    requires
        v.covers(),
        v.decisive(),
        i <= S::max_tag(),
        j <= E::max_tag(),
        forall|s: S, e: E| #[trigger] rule.decisive(s, e),
    ensures
        v.register(i, j, rule).covers(),
        v.register(i, j, rule).decisive(),
{
    if v.admits(i, j) {
        let after = v.with_rule(i, j, rule);
        lemma_with_rule_edges(v, i, j, rule);
        assert forall|n: nat, m: nat, k: int, s: S, e: E|
            0 <= k < after.edge(n, m).len() implies #[trigger] after.edge(n, m)[k].decisive(
            s,
            e,
        ) by {
            if n == i && m == j && k == v.edge(i, j).len() {
                assert(rule.decisive(s, e));
            } else {
                assert(v.edge(n, m)[k].decisive(s, e));
            }
        }
    }
}

/// Dispatch keeps a machine covering its tags and free of rules with two
/// answers.
proof fn lemma_advance_decisive<S: EnumTag, E: EnumTag>(
    v: MachineView<S, E>,
    event: E,
    choice: Option<int>,
)
    requires
        v.covers(),
        v.decisive(),
    ensures
        v.advance(event, choice).covers(),
        v.advance(event, choice).decisive(),
{
    let after = v.advance(event, choice);
    assert forall|n: nat, m: nat, k: int, s: S, e: E|
        0 <= k < after.edge(n, m).len() implies #[trigger] after.edge(n, m)[k].decisive(s, e) by {
        assert(after.edge(n, m) == v.edge(n, m));
        assert(v.edge(n, m)[k].decisive(s, e));
    }
}

} // verus!
