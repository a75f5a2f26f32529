use herdr_pluck::picker::input::{InputDecision, InputState, PickerInputEvent};

#[test]
fn exact_one_character_hint_requests_copy() {
    let mut state = InputState::new(1);

    assert_eq!(
        state.push(PickerInputEvent::Char('a'), &["a"]),
        InputDecision::CopyHint("a".to_string())
    );
}

#[test]
fn exact_two_character_hint_waits_for_full_width() {
    let mut state = InputState::new(2);

    assert_eq!(
        state.push(PickerInputEvent::Char('a'), &["as"]),
        InputDecision::Continue
    );
    assert_eq!(
        state.push(PickerInputEvent::Char('s'), &["as"]),
        InputDecision::CopyHint("as".to_string())
    );
}

#[test]
fn invalid_full_width_hint_clears_buffer() {
    let mut state = InputState::new(2);

    assert_eq!(
        state.push(PickerInputEvent::Char('a'), &["sd"]),
        InputDecision::Continue
    );
    assert_eq!(
        state.push(PickerInputEvent::Char('x'), &["sd"]),
        InputDecision::InvalidHint
    );
    assert_eq!(
        state.push(PickerInputEvent::Char('s'), &["sd"]),
        InputDecision::Continue
    );
    assert_eq!(
        state.push(PickerInputEvent::Char('d'), &["sd"]),
        InputDecision::CopyHint("sd".to_string())
    );
}

#[test]
fn uppercase_hint_requests_open() {
    let mut state = InputState::new(1);

    assert_eq!(
        state.push(PickerInputEvent::Char('A'), &["a"]),
        InputDecision::OpenHint("a".to_string())
    );
}

#[test]
fn one_uppercase_char_makes_the_whole_hint_open() {
    let mut state = InputState::new(2);

    assert_eq!(
        state.push(PickerInputEvent::Char('a'), &["as"]),
        InputDecision::Continue
    );
    assert_eq!(
        state.push(PickerInputEvent::Char('S'), &["as"]),
        InputDecision::OpenHint("as".to_string())
    );
}

#[test]
fn invalid_hint_clears_the_open_flag() {
    let mut state = InputState::new(2);

    assert_eq!(
        state.push(PickerInputEvent::Char('A'), &["as"]),
        InputDecision::Continue
    );
    assert_eq!(
        state.push(PickerInputEvent::Char('x'), &["as"]),
        InputDecision::InvalidHint
    );
    assert_eq!(
        state.push(PickerInputEvent::Char('a'), &["as"]),
        InputDecision::Continue
    );
    assert_eq!(
        state.push(PickerInputEvent::Char('s'), &["as"]),
        InputDecision::CopyHint("as".to_string())
    );
}

#[test]
fn escape_and_ctrl_c_cancel() {
    let mut state = InputState::new(1);
    assert_eq!(
        state.push(PickerInputEvent::Escape, &[]),
        InputDecision::Cancel
    );
    assert_eq!(
        state.push(PickerInputEvent::CtrlC, &[]),
        InputDecision::Cancel
    );
}

#[test]
fn enter_is_ignored() {
    let mut state = InputState::new(1);
    assert_eq!(
        state.push(PickerInputEvent::Enter, &["a"]),
        InputDecision::Continue
    );
}

#[test]
fn zero_width_buffer_ignores_characters() {
    let mut state = InputState::new(0);
    assert_eq!(
        state.push(PickerInputEvent::Char('a'), &["a"]),
        InputDecision::Continue
    );
    assert_eq!(state, InputState::new(0));
}

#[test]
fn other_keys_keep_the_buffer() {
    let mut state = InputState::new(2);
    assert_eq!(
        state.push(PickerInputEvent::Char('a'), &["as"]),
        InputDecision::Continue
    );
    assert_eq!(
        state.push(PickerInputEvent::Other, &["as"]),
        InputDecision::Continue
    );
    assert_eq!(
        state.push(PickerInputEvent::Escape, &["as"]),
        InputDecision::Cancel
    );
    assert_eq!(
        state.push(PickerInputEvent::Char('s'), &["as"]),
        InputDecision::CopyHint("as".to_string())
    );
}

#[test]
fn non_letter_characters_are_kept_as_typed() {
    let mut state = InputState::new(1);
    assert_eq!(
        state.push(PickerInputEvent::Char('1'), &["1"]),
        InputDecision::CopyHint("1".to_string())
    );
}
