use tetrox::input::{Input, InputState, InputStates, N_INPUTS};

#[test]
fn inputs_in_declaration_order() {
    let all = Input::iter();
    assert_eq!(all.len(), N_INPUTS);
    assert_eq!(all[0], Input::Left);
    assert_eq!(all[9], Input::ShowHideUi);
    for (i, input) in all.iter().enumerate() {
        assert_eq!(input.index(), i);
    }
}

#[test]
fn all_released_at_first() {
    let states = InputStates::new();
    for input in Input::iter() {
        assert_eq!(states.get_state(&input), InputState::Released);
    }
}

#[test]
fn press_and_release() {
    let mut states = InputStates::new();
    assert_eq!(states.set_pressed(&Input::HardDrop), InputState::Released);
    assert!(states.get_state(&Input::HardDrop).is_pressed());
    assert_eq!(states.set_pressed(&Input::HardDrop), InputState::Pressed);
    assert_eq!(states.get_state(&Input::SoftDrop), InputState::Released);
    states.set_released(&Input::HardDrop);
    assert_eq!(states.get_state(&Input::HardDrop), InputState::Released);
}

#[test]
fn latest_of_left_and_right_wins() {
    let mut states = InputStates::new();
    states.set_pressed(&Input::Left);
    assert_eq!(states.set_pressed(&Input::Right), InputState::Released);
    assert_eq!(states.get_state(&Input::Left), InputState::Suppressed);
    assert!(states.get_state(&Input::Left).is_held());
    assert!(!states.get_state(&Input::Left).is_pressed());
    assert_eq!(states.get_state(&Input::Right), InputState::Pressed);
    // releasing right makes the held left pressed again
    states.set_released(&Input::Right);
    assert_eq!(states.get_state(&Input::Left), InputState::Pressed);
    assert_eq!(states.get_state(&Input::Right), InputState::Released);
}

#[test]
fn releasing_suppressed_input() {
    let mut states = InputStates::new();
    states.set_pressed(&Input::Right);
    states.set_pressed(&Input::Left);
    assert_eq!(states.get_state(&Input::Right), InputState::Suppressed);
    states.set_released(&Input::Right);
    assert_eq!(states.get_state(&Input::Right), InputState::Released);
    assert_eq!(states.get_state(&Input::Left), InputState::Pressed);
}

#[test]
fn input_state_predicates() {
    assert!(InputState::Pressed.is_pressed());
    assert!(InputState::Pressed.is_held());
    assert!(!InputState::Suppressed.is_pressed());
    assert!(InputState::Suppressed.is_held());
    assert!(!InputState::Released.is_pressed());
    assert!(!InputState::Released.is_held());
}
