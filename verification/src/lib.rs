//! A finite-state-machine engine over closed sets of states and events.
//!
//! A [`Machine`] owns a current state and a table that maps each pair of a
//! state tag and an event tag to an ordered list of transition rules. Rules
//! are registered one at a time and the machine is then driven one event at a
//! time: the first rule of the matching edge whose guard lets the event
//! through has its action run on the state before the transition and the
//! event, after which the machine moves to the rule's next state.
//!
//! Every executable function is stated against [`MachineView`], the
//! mathematical model of a machine.
//!
//! - [`domain`]: what a state or event type must offer.
//! - [`callback`]: actions and guards, and what is known of them.
//! - [`model`]: rules, the table, one registration, one dispatch.
//! - [`machine`]: the machine itself.
//! - [`replay`]: sequences of registrations and dispatches.
//! - [`laws`]: what holds of every machine.

pub mod callback;
pub mod domain;
pub mod laws;
pub mod machine;
pub mod model;
pub mod replay;

pub use callback::{action_view, predicate_view, ActionView, PredicateView};
pub use domain::EnumTag;
pub use machine::Machine;
pub use model::{MachineView, Policy, RuleView};
pub use replay::{Invocation, Step};
