//! The machine itself: construction, registration, dispatch.

use crate::callback::{action_view, predicate_view, Action, FnAction, FnPredicate, Predicate};
use crate::domain::EnumTag;
use crate::laws::{lemma_advance_well_formed, lemma_register_well_formed};
use crate::model::{position, MachineView, Policy, RuleView};
use vstd::prelude::*;

verus! {

/// What the table records for one rule: the state to move to, the guard, if
/// there is one, and the action to run on the way.
#[verifier::reject_recursive_types(S)]
#[verifier::reject_recursive_types(E)]
struct Transition<'a, S, E> {
    next_state: S,
    guard: Option<Box<dyn Predicate<S, E> + 'a>>,
    action: Box<dyn Action<S, E> + 'a>,
}

/// All the rules of one state, by event tag.
#[verifier::reject_recursive_types(S)]
#[verifier::reject_recursive_types(E)]
struct StateTransitions<'a, S, E> {
    edges: Vec<Vec<Transition<'a, S, E>>>,
}

/// A finite state machine: a current state and the table of its rules.
#[verifier::reject_recursive_types(S)]
#[verifier::reject_recursive_types(E)]
pub struct Machine<'a, S: EnumTag, E: EnumTag> {
    state: S,
    policy: Policy,
    transitions: Vec<StateTransitions<'a, S, E>>,
}

impl<'a, S, E> Transition<'a, S, E> {
    spec fn view(&self) -> RuleView<S, E> {
        RuleView {
            next_state: self.next_state,
            guard: match self.guard {
                Some(g) => Some(g.view()),
                None => None,
            },
            action: self.action.view(),
        }
    }
}

/// The rules of an edge as the model has them.
spec fn edge_view<'a, S, E>(edge: Seq<Transition<'a, S, E>>) -> Seq<RuleView<S, E>> {
    Seq::new(edge.len(), |k: int| edge[k].view())
}

impl<'a, S, E> StateTransitions<'a, S, E> {
    spec fn view(&self) -> Seq<Seq<RuleView<S, E>>> {
        Seq::new(self.edges.len() as nat, |j: int| edge_view(self.edges[j]@))
    }
}

/// Scans `edge` in order and returns the position of the first rule that lets
/// `s` and `e` through, calling each guard on the way once.
fn first_accepting<'a, S, E>(
    edge: &Vec<Transition<'a, S, E>>,
    s: &S,
    e: &E,
) -> (found: Option<usize>)
    requires
        forall|k: int| 0 <= k < edge.len() ==> (#[trigger] edge_view(edge@)[k]).callable(*s, *e),
    ensures
        crate::model::selects(edge_view(edge@), *s, *e, position(found)),
{
    let mut k: usize = 0;
    while k < edge.len()
        invariant
            k <= edge.len(),
            forall|n: int|
                0 <= n < edge.len() ==> (#[trigger] edge_view(edge@)[n]).callable(*s, *e),
            forall|n: int| 0 <= n < k ==> (#[trigger] edge_view(edge@)[n]).may_reject(*s, *e),
        decreases edge.len() - k,
    {
        assert(edge_view(edge@)[k as int].callable(*s, *e));
        let accepted = match &edge[k].guard {
            Some(g) => g.test(s, e),
            None => true,
        };
        if accepted {
            return Some(k);
        }
        k += 1;
    }
    None
}

impl<'a, S: EnumTag, E: EnumTag> View for Machine<'a, S, E> {
    type V = MachineView<S, E>;

    closed spec fn view(&self) -> MachineView<S, E> {
        MachineView {
            state: self.state,
            policy: self.policy,
            table: Seq::new(self.transitions.len() as nat, |i: int| self.transitions[i].view()),
        }
    }
}

impl<'a, S: EnumTag, E: EnumTag> Machine<'a, S, E> {
    /// The invariant of a machine, which every function here keeps.
    pub open spec fn wf(&self) -> bool {
        self@.well_formed()
    }

    /// Builds a single-edge machine in `initial_state` with no rule.
    ///
    /// The table gets one edge for every pair of a state tag and an event
    /// tag up to the largest of each, so both numbers of tags must fit in
    /// `usize`.
    pub fn new(initial_state: S) -> (machine: Self)
        requires
            S::max_tag() < usize::MAX,
            E::max_tag() < usize::MAX,
        ensures
            machine.wf(),
            machine@ == MachineView::<S, E>::empty(initial_state, Policy::SingleEdge),
    {
        Self::with_policy(initial_state, Policy::SingleEdge)
    }

    /// Builds a machine in `initial_state` with no rule, under `policy`.
    ///
    /// The table gets one edge for every pair of a state tag and an event
    /// tag up to the largest of each, so both numbers of tags must fit in
    /// `usize`.
    pub fn with_policy(initial_state: S, policy: Policy) -> (machine: Self)
        requires
            S::max_tag() < usize::MAX,
            E::max_tag() < usize::MAX,
        ensures
            machine.wf(),
            machine@ == MachineView::<S, E>::empty(initial_state, policy),
    {
        let rows: usize = S::max_tag_number() + 1;
        let columns: usize = E::max_tag_number() + 1;
        let mut transitions: Vec<StateTransitions<'a, S, E>> = Vec::with_capacity(rows);
        let mut i: usize = 0;
        while i < rows
            invariant
                i <= rows,
                columns == E::max_tag() + 1,
                transitions.len() == i,
                forall|n: int| 0 <= n < i ==> (#[trigger] transitions[n]).edges.len() == columns,
                forall|n: int, m: int|
                    0 <= n < i && 0 <= m < columns ==> (#[trigger] transitions[n].edges[m]).len()
                        == 0,
            decreases rows - i,
        {
            let mut edges: Vec<Vec<Transition<'a, S, E>>> = Vec::with_capacity(columns);
            let mut j: usize = 0;
            while j < columns
                invariant
                    j <= columns,
                    edges.len() == j,
                    forall|n: int| 0 <= n < j ==> (#[trigger] edges[n]).len() == 0,
                decreases columns - j,
            {
                edges.push(Vec::new());
                j += 1;
            }
            transitions.push(StateTransitions { edges });
            i += 1;
        }
        let machine = Machine { state: initial_state, policy, transitions };
        assert(machine@.table =~~= MachineView::<S, E>::empty(initial_state, policy).table);
        machine
    }

    /// Appends `transition` to the edge for state tag `i` and event tag `j`
    /// where the policy admits one more rule there, and says whether it did.
    fn register(&mut self, i: usize, j: usize, transition: Transition<'a, S, E>) -> (added: bool)
        requires
            old(self).wf(),
            i <= S::max_tag(),
            j <= E::max_tag(),
            forall|s: S, e: E|
                s.tag() == i && e.tag() == j ==> #[trigger] transition.view().callable(s, e),
        ensures
            final(self).wf(),
            added == old(self)@.admits(i as nat, j as nat),
            final(self)@ == old(self)@.register(i as nat, j as nat, transition.view()),
    {
        let admitted = match self.policy {
            Policy::MultiEdge => true,
            Policy::SingleEdge => self.transitions[i].edges[j].len() == 0,
        };
        if admitted {
            let ghost rule = transition.view();
            self.transitions[i].edges[j].push(transition);
            proof {
                let before = old(self)@;
                let after = before.with_rule(i as nat, j as nat, rule);
                assert(self@.table =~~= after.table);
                lemma_register_well_formed(before, i as nat, j as nat, rule);
            }
        }
        admitted
    }

    /// Registers the rule that, on `on_event` in `in_state`, runs `action`
    /// and moves to `next_state`.
    ///
    /// Returns whether the rule was added. A single-edge machine refuses a
    /// rule for a pair that already has one and stays as it was; a multi-edge
    /// machine appends the rule behind those registered before. No callback
    /// is called.
    ///
    /// The tags of `in_state` and `on_event` must lie within the table: a
    /// value that reports a larger tag breaks the promise of its domain and
    /// has no edge to be registered on. `action` must accept every state and
    /// event that carry those two tags, since these are what it will be run
    /// on.
    pub fn add_transition<F>(
        &mut self,
        in_state: S,
        on_event: E,
        next_state: S,
        action: F,
    ) -> (added: bool) where F: Fn(&S, &E) + 'a
        requires
            old(self).wf(),
            in_state.tag() <= S::max_tag(),
            on_event.tag() <= E::max_tag(),
            forall|s: S, e: E|
                s.tag() == in_state.tag() && e.tag() == on_event.tag() ==> call_requires(
                    action,
                    (&s, &e),
                ),
        ensures
            final(self).wf(),
            added == old(self)@.admits(in_state.tag(), on_event.tag()),
            final(self)@ == old(self)@.register(
                in_state.tag(),
                on_event.tag(),
                RuleView::unguarded(next_state, action_view(action)),
            ),
    {
        let i: usize = in_state.tag_number();
        let j: usize = on_event.tag_number();
        let transition = Transition {
            next_state,
            guard: None,
            action: Box::new(FnAction { f: action }),
        };
        self.register(i, j, transition)
    }

    /// Registers the rule that, on `on_event` in `in_state` and where `guard`
    /// answers true, runs `action` and moves to `next_state`.
    ///
    /// Returns whether the rule was added, as [`Machine::add_transition`]
    /// does, and asks of the two tags and of both callbacks what it asks. No
    /// callback is called.
    pub fn add_guarded_transition<G, F>(
        &mut self,
        in_state: S,
        on_event: E,
        next_state: S,
        guard: G,
        action: F,
    ) -> (added: bool) where G: Fn(&S, &E) -> bool + 'a, F: Fn(&S, &E) + 'a
        requires
            old(self).wf(),
            in_state.tag() <= S::max_tag(),
            on_event.tag() <= E::max_tag(),
            forall|s: S, e: E|
                s.tag() == in_state.tag() && e.tag() == on_event.tag() ==> call_requires(
                    guard,
                    (&s, &e),
                ) && call_requires(action, (&s, &e)),
        ensures
            final(self).wf(),
            added == old(self)@.admits(in_state.tag(), on_event.tag()),
            final(self)@ == old(self)@.register(
                in_state.tag(),
                on_event.tag(),
                RuleView::guarded(next_state, predicate_view(guard), action_view(action)),
            ),
    {
        let i: usize = in_state.tag_number();
        let j: usize = on_event.tag_number();
        let transition = Transition {
            next_state,
            guard: Some(Box::new(FnPredicate { g: guard })),
            action: Box::new(FnAction { f: action }),
        };
        self.register(i, j, transition)
    }

    /// Feeds `event` to the machine.
    ///
    /// The rules registered for the current state and `event` are tried in
    /// the order of registration. The first one that has no guard, or whose
    /// guard answers true on the current state and `event`, fires: its
    /// action runs on the current state and `event`, and only then does the
    /// machine move to the rule's next state. The position of that rule among
    /// those tried is returned. Where no rule fires, and so where a tag lies
    /// outside the table, nothing changes and `None` is returned.
    ///
    /// A guard is called once at most, and none behind the rule that fires.
    /// Where a guard or the action does not return, the failure is the
    /// caller's to handle: the machine is left as it was, and nothing is
    /// tried again.
    pub fn on_event(&mut self, event: E) -> (fired: Option<usize>)
        requires
            old(self).wf(),
        ensures
            final(self).wf(),
            old(self)@.selects(event, position(fired)),
            old(self)@.performed(event, position(fired)),
            final(self)@ == old(self)@.advance(event, position(fired)),
            old(self)@.matching(event).len() == 0 ==> fired is None && final(self)@ == old(self)@,
    {
        let i: usize = self.state.tag_number();
        let j: usize = event.tag_number();
        if i >= self.transitions.len() {
            return None;
        }
        if j >= self.transitions[i].edges.len() {
            return None;
        }
        let edge = &self.transitions[i].edges[j];
        assert(edge_view(edge@) == self@.matching(event));
        let fired = first_accepting(edge, &self.state, &event);
        if let Some(k) = fired {
            edge[k].action.run(&self.state, &event);
            self.state = edge[k].next_state;
        }
        proof {
            lemma_advance_well_formed(old(self)@, event, position(fired));
        }
        fired
    }

    /// Returns the registration policy.
    pub fn policy(&self) -> (policy: Policy)
        ensures
            policy == self@.policy,
    {
        self.policy
    }

    /// Returns the current state.
    pub fn current_state(&self) -> (state: S)
        ensures
            state == self@.state,
    {
        self.state
    }
}

} // verus!
