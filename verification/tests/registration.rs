use fsm::{EnumTag, Machine, Policy};
use std::cell::{Cell, RefCell};

#[derive(Copy, Clone, Debug, Eq, PartialEq)]
enum Phase {
    Idle,
    Running,
    Done,
}

#[derive(Copy, Clone, Debug, Eq, PartialEq)]
enum Command {
    Start,
    Stop,
}

#[derive(Copy, Clone, Debug, Eq, PartialEq)]
enum Only {
    One,
}

impl EnumTag for Phase {
    fn tag_number(&self) -> usize {
        *self as usize
    }
    fn max_tag_number() -> usize {
        Phase::Done as usize
    }
}

impl EnumTag for Command {
    fn tag_number(&self) -> usize {
        *self as usize
    }
    fn max_tag_number() -> usize {
        Command::Stop as usize
    }
}

impl EnumTag for Only {
    fn tag_number(&self) -> usize {
        0
    }
    fn max_tag_number() -> usize {
        0
    }
}

#[test]
fn new_machine_starts_in_the_given_state() {
    for state in [Phase::Idle, Phase::Running, Phase::Done] {
        let machine: Machine<Phase, Command> = Machine::new(state);
        assert_eq!(machine.current_state(), state);
    }
}

#[test]
fn new_machine_is_single_edge() {
    let machine: Machine<Phase, Command> = Machine::new(Phase::Idle);
    assert_eq!(machine.policy(), Policy::SingleEdge);
}

#[test]
fn with_policy_keeps_the_policy_and_the_state() {
    let single: Machine<Phase, Command> = Machine::with_policy(Phase::Running, Policy::SingleEdge);
    assert_eq!(single.policy(), Policy::SingleEdge);
    assert_eq!(single.current_state(), Phase::Running);
    let multi: Machine<Phase, Command> = Machine::with_policy(Phase::Done, Policy::MultiEdge);
    assert_eq!(multi.policy(), Policy::MultiEdge);
    assert_eq!(multi.current_state(), Phase::Done);
}

#[test]
fn table_has_an_edge_for_every_pair_of_tags() {
    let mut machine = Machine::new(Phase::Idle);
    for state in [Phase::Idle, Phase::Running, Phase::Done] {
        for command in [Command::Start, Command::Stop] {
            assert!(machine.add_transition(state, command, Phase::Done, |_, _| {}));
        }
    }
    for state in [Phase::Idle, Phase::Running, Phase::Done] {
        for command in [Command::Start, Command::Stop] {
            assert!(!machine.add_transition(state, command, Phase::Idle, |_, _| {}));
        }
    }
}

#[test]
fn second_registration_is_refused_and_the_first_rule_stays() {
    let calls: RefCell<Vec<&str>> = RefCell::new(Vec::new());
    let mut machine = Machine::new(Phase::Idle);
    assert!(machine.add_transition(Phase::Idle, Command::Start, Phase::Running, |_, _| {
        calls.borrow_mut().push("first")
    }));
    assert!(!machine.add_transition(Phase::Idle, Command::Start, Phase::Done, |_, _| {
        calls.borrow_mut().push("second")
    }));
    assert!(!machine.add_guarded_transition(
        Phase::Idle,
        Command::Start,
        Phase::Done,
        |_, _| true,
        |_, _| calls.borrow_mut().push("third"),
    ));
    assert_eq!(machine.current_state(), Phase::Idle);
    assert_eq!(machine.on_event(Command::Start), Some(0));
    assert_eq!(machine.current_state(), Phase::Running);
    assert_eq!(*calls.borrow(), vec!["first"]);
}

#[test]
fn refused_registration_leaves_other_edges_open() {
    let mut machine = Machine::new(Phase::Idle);
    assert!(machine.add_transition(Phase::Idle, Command::Start, Phase::Running, |_, _| {}));
    assert!(!machine.add_transition(Phase::Idle, Command::Start, Phase::Done, |_, _| {}));
    assert!(machine.add_transition(Phase::Idle, Command::Stop, Phase::Done, |_, _| {}));
    assert!(machine.add_transition(Phase::Running, Command::Start, Phase::Done, |_, _| {}));
    assert_eq!(machine.on_event(Command::Stop), Some(0));
    assert_eq!(machine.current_state(), Phase::Done);
}

#[test]
fn guarded_rule_also_fills_a_single_edge() {
    let mut machine = Machine::new(Phase::Idle);
    assert!(machine.add_guarded_transition(
        Phase::Idle,
        Command::Start,
        Phase::Running,
        |_, _| false,
        |_, _| {},
    ));
    assert!(!machine.add_transition(Phase::Idle, Command::Start, Phase::Done, |_, _| {}));
    assert_eq!(machine.on_event(Command::Start), None);
    assert_eq!(machine.current_state(), Phase::Idle);
}

#[test]
fn multi_edge_machine_admits_every_registration_in_order() {
    let mut machine = Machine::with_policy(Phase::Idle, Policy::MultiEdge);
    assert!(machine.add_transition(Phase::Idle, Command::Start, Phase::Running, |_, _| {}));
    assert!(machine.add_transition(Phase::Idle, Command::Start, Phase::Done, |_, _| {}));
    assert!(machine.add_guarded_transition(
        Phase::Idle,
        Command::Start,
        Phase::Idle,
        |_, _| true,
        |_, _| {},
    ));
    assert_eq!(machine.on_event(Command::Start), Some(0));
    assert_eq!(machine.current_state(), Phase::Running);
}

#[test]
fn registration_calls_no_callback_and_keeps_the_state() {
    let calls = Cell::new(0u32);
    let mut machine = Machine::with_policy(Phase::Idle, Policy::MultiEdge);
    machine.add_transition(Phase::Idle, Command::Start, Phase::Running, |_, _| {
        calls.set(calls.get() + 1)
    });
    machine.add_guarded_transition(
        Phase::Idle,
        Command::Start,
        Phase::Done,
        |_, _| {
            calls.set(calls.get() + 1);
            true
        },
        |_, _| calls.set(calls.get() + 1),
    );
    assert_eq!(calls.get(), 0);
    assert_eq!(machine.current_state(), Phase::Idle);
}

#[test]
fn rule_registered_between_dispatches_takes_effect() {
    let mut machine = Machine::new(Phase::Idle);
    assert_eq!(machine.on_event(Command::Start), None);
    assert!(machine.add_transition(Phase::Idle, Command::Start, Phase::Running, |_, _| {}));
    assert_eq!(machine.on_event(Command::Start), Some(0));
    assert_eq!(machine.current_state(), Phase::Running);
    assert!(machine.add_transition(Phase::Running, Command::Stop, Phase::Done, |_, _| {}));
    assert_eq!(machine.on_event(Command::Stop), Some(0));
    assert_eq!(machine.current_state(), Phase::Done);
}

#[test]
fn domain_of_one_value_has_one_edge() {
    let calls = Cell::new(0u32);
    let mut machine: Machine<Only, Only> = Machine::new(Only::One);
    assert_eq!(machine.on_event(Only::One), None);
    assert!(machine.add_transition(Only::One, Only::One, Only::One, |_, _| calls.set(calls.get() + 1)));
    assert!(!machine.add_transition(Only::One, Only::One, Only::One, |_, _| {}));
    assert_eq!(machine.on_event(Only::One), Some(0));
    assert_eq!(machine.current_state(), Only::One);
    assert_eq!(calls.get(), 1);
}

#[test]
fn action_may_own_what_it_captures() {
    let label = String::from("started");
    let sink: RefCell<Vec<String>> = RefCell::new(Vec::new());
    let mut machine = Machine::new(Phase::Idle);
    let sink_ref = &sink;
    machine.add_transition(Phase::Idle, Command::Start, Phase::Running, move |_, _| {
        sink_ref.borrow_mut().push(label.clone())
    });
    machine.on_event(Command::Start);
    assert_eq!(*sink.borrow(), vec![String::from("started")]);
}

#[test]
fn truth_values_are_a_domain_of_two() {
    assert_eq!(false.tag_number(), 0);
    assert_eq!(true.tag_number(), 1);
    assert_eq!(<bool as EnumTag>::max_tag_number(), 1);
    let mut toggle: Machine<bool, bool> = Machine::new(false);
    assert!(toggle.add_transition(false, true, true, |_, _| {}));
    assert!(toggle.add_transition(true, true, false, |_, _| {}));
    assert_eq!(toggle.on_event(false), None);
    assert!(!toggle.current_state());
    assert_eq!(toggle.on_event(true), Some(0));
    assert!(toggle.current_state());
    assert_eq!(toggle.on_event(true), Some(0));
    assert!(!toggle.current_state());
}

#[test]
fn bytes_are_a_domain_of_their_own_values() {
    assert_eq!(0u8.tag_number(), 0);
    assert_eq!(200u8.tag_number(), 200);
    assert_eq!(255u8.tag_number(), 255);
    assert_eq!(<u8 as EnumTag>::max_tag_number(), 255);
    let mut machine: Machine<bool, u8> = Machine::new(false);
    assert!(machine.add_transition(false, 255, true, |_, _| {}));
    assert!(machine.add_transition(true, 0, false, |_, _| {}));
    assert_eq!(machine.on_event(254), None);
    assert_eq!(machine.on_event(255), Some(0));
    assert!(machine.current_state());
    assert_eq!(machine.on_event(0), Some(0));
    assert!(!machine.current_state());
}
