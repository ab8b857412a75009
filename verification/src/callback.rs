//! Actions and guards: the callbacks a rule carries.
//!
//! A callback is an arbitrary closure, so all the machine can know of it is
//! its contract: on which arguments it may be called, and what holds once it
//! has returned. [`ActionView`] and [`PredicateView`] are those contracts as
//! mathematical values, and the table's model is stated over them.

use vstd::prelude::*;

verus! {

/// The contract of an action.
#[verifier::reject_recursive_types(S)]
#[verifier::reject_recursive_types(E)]
pub struct ActionView<S, E> {
    /// Whether the action may be called on a state and an event.
    pub callable: spec_fn(S, E) -> bool,
    /// What is known once the action has returned from a call on a state and
    /// an event.
    pub effect: spec_fn(S, E) -> bool,
}

/// The contract of a guard.
#[verifier::reject_recursive_types(S)]
#[verifier::reject_recursive_types(E)]
pub struct PredicateView<S, E> {
    /// Whether the guard may be called on a state and an event.
    pub callable: spec_fn(S, E) -> bool,
    /// Whether the guard can answer with the given boolean on a state and an
    /// event.
    pub verdict: spec_fn(S, E, bool) -> bool,
}

/// The contract of the closure `f` used as an action.
pub open spec fn action_view<S, E, F: Fn(&S, &E)>(f: F) -> ActionView<S, E> {
    ActionView {
        callable: |s: S, e: E| call_requires(f, (&s, &e)),
        effect: |s: S, e: E| call_ensures(f, (&s, &e), ()),
    }
}

/// The contract of the closure `g` used as a guard.
pub open spec fn predicate_view<S, E, G: Fn(&S, &E) -> bool>(g: G) -> PredicateView<S, E> {
    PredicateView {
        callable: |s: S, e: E| call_requires(g, (&s, &e)),
        verdict: |s: S, e: E, b: bool| call_ensures(g, (&s, &e), b),
    }
}

/// A stored action, whatever closure it was built from.
pub(crate) trait Action<S, E> {
    spec fn view(&self) -> ActionView<S, E>;

    fn run(&self, s: &S, e: &E)
        requires
            (self.view().callable)(*s, *e),
        ensures
            (self.view().effect)(*s, *e),
    ;
}

/// A stored guard, whatever closure it was built from.
pub(crate) trait Predicate<S, E> {
    spec fn view(&self) -> PredicateView<S, E>;

    fn test(&self, s: &S, e: &E) -> (b: bool)
        requires
            (self.view().callable)(*s, *e),
        ensures
            (self.view().verdict)(*s, *e, b),
    ;
}

/// A closure held as an [`Action`].
pub(crate) struct FnAction<F> {
    pub f: F,
}

/// A closure held as a [`Predicate`].
pub(crate) struct FnPredicate<G> {
    pub g: G,
}

impl<S, E, F: Fn(&S, &E)> Action<S, E> for FnAction<F> {
    open spec fn view(&self) -> ActionView<S, E> {
        action_view(self.f)
    }

    fn run(&self, s: &S, e: &E) {
        (self.f)(s, e)
    }
}

impl<S, E, G: Fn(&S, &E) -> bool> Predicate<S, E> for FnPredicate<G> {
    open spec fn view(&self) -> PredicateView<S, E> {
        predicate_view(self.g)
    }

    fn test(&self, s: &S, e: &E) -> (b: bool) {
        (self.g)(s, e)
    }
}

} // verus!
