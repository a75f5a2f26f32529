use herdr_pluck::hints::{HintAssignment, HintAssignments};
use herdr_pluck::model::MatchSpan;
use herdr_pluck::picker::input::{InputState, PickerInputEvent};
use herdr_pluck::picker::render::PickerView;
use herdr_pluck::picker::session::{session_step, PickerOutcome};

fn view(entries: Vec<(&str, &str)>) -> PickerView {
    let entries: Vec<HintAssignment> = entries
        .into_iter()
        .enumerate()
        .map(|(i, (hint, text))| HintAssignment {
            hint: hint.to_string(),
            span: MatchSpan { line: i, start: 0, end: text.chars().count(), text: text.to_string() },
        })
        .collect();
    let count = entries.len();
    PickerView { lines: Vec::new(), assignments: HintAssignments::new(entries), match_count: count }
}

#[test]
fn no_matches_screen_waits_on_enter_and_closes_on_any_other_key() {
    let view = view(Vec::new());
    let mut state = InputState::new(view.assignments.hint_width());
    assert_eq!(session_step(&view, &mut state, PickerInputEvent::Enter), None);
    assert_eq!(session_step(&view, &mut state, PickerInputEvent::Char('a')), Some(PickerOutcome::Cancelled));
    assert_eq!(session_step(&view, &mut state, PickerInputEvent::Other), Some(PickerOutcome::Cancelled));
}

#[test]
fn lowercase_hint_copies_and_uppercase_hint_opens() {
    let view = view(vec![("a", "https://one.example"), ("s", "src/main.rs")]);
    let mut state = InputState::new(view.assignments.hint_width());
    assert_eq!(
        session_step(&view, &mut state, PickerInputEvent::Char('s')),
        Some(PickerOutcome::Copied("src/main.rs".to_string()))
    );
    assert_eq!(
        session_step(&view, &mut state, PickerInputEvent::Char('A')),
        Some(PickerOutcome::Opened("https://one.example".to_string()))
    );
}

#[test]
fn unknown_hints_and_other_keys_keep_waiting_until_cancelled() {
    let view = view(vec![("aa", "one"), ("as", "two")]);
    let mut state = InputState::new(view.assignments.hint_width());
    assert_eq!(session_step(&view, &mut state, PickerInputEvent::Enter), None);
    assert_eq!(session_step(&view, &mut state, PickerInputEvent::Char('z')), None);
    assert_eq!(session_step(&view, &mut state, PickerInputEvent::Char('z')), None);
    assert_eq!(session_step(&view, &mut state, PickerInputEvent::Char('a')), None);
    assert_eq!(
        session_step(&view, &mut state, PickerInputEvent::Char('s')),
        Some(PickerOutcome::Copied("two".to_string()))
    );
    assert_eq!(session_step(&view, &mut state, PickerInputEvent::Escape), Some(PickerOutcome::Cancelled));
}

#[test]
fn a_hint_typed_with_any_uppercase_letter_opens_its_match() {
    let view = view(vec![("aa", "one"), ("as", "two")]);
    let mut state = InputState::new(view.assignments.hint_width());
    assert_eq!(session_step(&view, &mut state, PickerInputEvent::Char('a')), None);
    assert_eq!(
        session_step(&view, &mut state, PickerInputEvent::Char('S')),
        Some(PickerOutcome::Opened("two".to_string()))
    );
    assert_eq!(session_step(&view, &mut state, PickerInputEvent::Char('A')), None);
    assert_eq!(
        session_step(&view, &mut state, PickerInputEvent::Char('a')),
        Some(PickerOutcome::Opened("one".to_string()))
    );
}
