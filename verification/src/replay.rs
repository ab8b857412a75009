//! Runs of a machine: sequences of registrations and dispatches, what they
//! lead to, and the calls of actions they make.

use crate::callback::ActionView;
use crate::domain::EnumTag;
use crate::model::{MachineView, RuleView};
use vstd::prelude::*;

verus! {

/// One thing done to a machine: a registration, as
/// [`crate::Machine::add_transition`] and
/// [`crate::Machine::add_guarded_transition`] make it, or a dispatch, as
/// [`crate::Machine::on_event`] makes it.
#[verifier::reject_recursive_types(S)]
#[verifier::reject_recursive_types(E)]
pub enum Step<S, E> {
    /// An attempt to register `rule` for state tag `in_tag` and event tag
    /// `on_tag`.
    Register { in_tag: nat, on_tag: nat, rule: RuleView<S, E> },
    /// The dispatch of `event`.
    Dispatch { event: E },
}

/// One call of an action: which action, and on which state and event.
#[verifier::reject_recursive_types(S)]
#[verifier::reject_recursive_types(E)]
pub struct Invocation<S, E> {
    /// The action that is called.
    pub action: ActionView<S, E>,
    /// The state the machine is in when the event arrives.
    pub state: S,
    /// The event that fires the rule.
    pub event: E,
}

impl<S: EnumTag, E: EnumTag> MachineView<S, E> {
    /// Whether `step` can end with `choice` on this machine. A registration
    /// fires nothing; a dispatch ends as [`MachineView::selects`] says.
    pub open spec fn allows(self, step: Step<S, E>, choice: Option<int>) -> bool {
        match step {
            Step::Register { .. } => choice is None,
            Step::Dispatch { event } => self.selects(event, choice),
        }
    }

    /// The machine after `step` has ended with `choice`.
    pub open spec fn apply(self, step: Step<S, E>, choice: Option<int>) -> Self {
        match step {
            Step::Register { in_tag, on_tag, rule } => self.register(in_tag, on_tag, rule),
            Step::Dispatch { event } => self.advance(event, choice),
        }
    }

    /// The call of an action that `step` makes when it ends with `choice`,
    /// if it makes one.
    pub open spec fn invocation(self, step: Step<S, E>, choice: Option<int>) -> Option<
        Invocation<S, E>,
    > {
        match (step, choice) {
            (Step::Dispatch { event }, Some(k)) => Some(
                Invocation { action: self.matching(event)[k].action, state: self.state, event },
            ),
            _ => None,
        }
    }

    /// Whether `steps`, taken in order from this machine, can end with
    /// `choices`, one for each step.
    pub open spec fn follows(self, steps: Seq<Step<S, E>>, choices: Seq<Option<int>>) -> bool
        decreases steps.len(),
    {
        &&& choices.len() == steps.len()
        &&& steps.len() > 0 ==> {
            &&& self.allows(steps[0], choices[0])
            &&& self.apply(steps[0], choices[0]).follows(
                steps.drop_first(),
                choices.drop_first(),
            )
        }
    }

    /// The machine after `steps` have been taken in order and have ended
    /// with `choices`.
    pub open spec fn replay(self, steps: Seq<Step<S, E>>, choices: Seq<Option<int>>) -> Self
        recommends
            choices.len() == steps.len(),
        decreases steps.len(),
    {
        if steps.len() == 0 || choices.len() != steps.len() {
            self
        } else {
            self.apply(steps[0], choices[0]).replay(steps.drop_first(), choices.drop_first())
        }
    }

    /// The calls of actions that `steps` make, in order, when they end with
    /// `choices`.
    pub open spec fn invocations(self, steps: Seq<Step<S, E>>, choices: Seq<Option<int>>) -> Seq<
        Invocation<S, E>,
    >
        recommends
            choices.len() == steps.len(),
        decreases steps.len(),
    {
        if steps.len() == 0 || choices.len() != steps.len() {
            Seq::empty()
        } else {
            let rest = self.apply(steps[0], choices[0]).invocations(
                steps.drop_first(),
                choices.drop_first(),
            );
            match self.invocation(steps[0], choices[0]) {
                Some(call) => seq![call] + rest,
                None => rest,
            }
        }
    }
}

} // verus!
