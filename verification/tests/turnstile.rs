use fsm::{EnumTag, Machine};

#[derive(Copy, Clone, Debug, Eq, PartialEq)]
enum TurnStyleState {
    Locked,
    Unlocked,
}

#[derive(Copy, Clone, Debug, Eq, PartialEq)]
enum TurnStyleEvent {
    Push,
    InsertCoin,
}

impl EnumTag for TurnStyleState {
    fn tag_number(&self) -> usize {
        *self as usize
    }
    fn max_tag_number() -> usize {
        TurnStyleState::Unlocked as usize
    }
}

impl EnumTag for TurnStyleEvent {
    fn tag_number(&self) -> usize {
        *self as usize
    }
    fn max_tag_number() -> usize {
        TurnStyleEvent::InsertCoin as usize
    }
}

#[test]
fn test_machine() {
    let mut machine = Machine::new(TurnStyleState::Locked);
    machine.add_transition(
        TurnStyleState::Locked, TurnStyleEvent::InsertCoin,
        TurnStyleState::Unlocked, |_,_| println!("unlocked")
    );
    machine.add_transition(
        TurnStyleState::Unlocked, TurnStyleEvent::Push,
        TurnStyleState::Locked, |_,_| println!("locked")
    );
    assert!(machine.current_state() == TurnStyleState::Locked);
    machine.on_event(TurnStyleEvent::Push);
    assert!(machine.current_state() == TurnStyleState::Locked);
    machine.on_event(TurnStyleEvent::InsertCoin);
    assert!(machine.current_state() == TurnStyleState::Unlocked);
    machine.on_event(TurnStyleEvent::InsertCoin);
    assert!(machine.current_state() == TurnStyleState::Unlocked);
    machine.on_event(TurnStyleEvent::Push);
    assert!(machine.current_state() == TurnStyleState::Locked);
}
