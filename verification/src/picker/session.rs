//! The picker session: what each key press does, given the view the picker shows.

use crate::hints::{text_for_hint, HintAssignment};
use crate::picker::input::{hint_views, step, DecisionView, InputDecision, InputState, PickerInputEvent};
use crate::picker::render::PickerView;
use vstd::prelude::*;
use vstd::string::StrSliceExecFns;

verus! {

/// How a picker session ended.
#[derive(Debug, Clone, PartialEq, Eq)]
pub enum PickerOutcome {
    /// The text of the chosen match, to copy.
    Copied(String),
    /// The text of the chosen match, to open.
    Opened(String),
    Cancelled,
}

/// The hints of the entries, as characters.
pub open spec fn entry_hints(entries: Seq<HintAssignment>) -> Seq<Seq<char>> {
    entries.map_values(|e: HintAssignment| e.hint@)
}

/// The outcome that the text of hint `hint` gives, if it names a match.
pub open spec fn chosen(entries: Seq<HintAssignment>, hint: Seq<char>, open: bool, r: Option<PickerOutcome>) -> bool {
    match text_for_hint(entries, hint) {
        Some(t) => if open {
            r matches Some(PickerOutcome::Opened(o)) && o@ == t
        } else {
            r matches Some(PickerOutcome::Copied(c)) && c@ == t
        },
        None => r is None,
    }
}

/// What one key press does in a picker session: `None` to keep waiting, or how
/// the session ends.
///
/// With no matches on screen, Enter keeps the notice up and any other key closes
/// it. Otherwise the key goes to the hint buffer: a cancel ends the session, a
/// completed hint ends it with its match to copy or, when it was typed in
/// uppercase, to open, and anything else keeps waiting.
pub fn session_step(view: &PickerView, state: &mut InputState, event: PickerInputEvent) -> (r: Option<PickerOutcome>)
    ensures
        view.assignments.entries@.len() == 0 ==> final(state)@ == old(state)@ && (if event == PickerInputEvent::Enter {
            r is None
        } else {
            r == Some(PickerOutcome::Cancelled)
        }),
        view.assignments.entries@.len() > 0 ==> ({
            let (next, decision) = step(old(state)@, event, entry_hints(view.assignments.entries@));
            &&& final(state)@ == next
            &&& match decision {
                DecisionView::Cancel => r == Some(PickerOutcome::Cancelled),
                DecisionView::CopyHint(h) => chosen(view.assignments.entries@, h, false, r),
                DecisionView::OpenHint(h) => chosen(view.assignments.entries@, h, true, r),
                _ => r is None,
            }
        }),
{
    if view.assignments.is_empty() {
        return match event {
            PickerInputEvent::Enter => None,
            _ => Some(PickerOutcome::Cancelled),
        };
    }
    let hints = view.assignments.hints();
    assert(hint_views(hints@) =~= entry_hints(view.assignments.entries@));
    match state.push(event, hints.as_slice()) {
        InputDecision::Continue | InputDecision::InvalidHint => None,
        InputDecision::Cancel => Some(PickerOutcome::Cancelled),
        InputDecision::CopyHint(hint) => match view.assignments.copied_text_for_hint(hint.as_str()) {
            Some(text) => Some(PickerOutcome::Copied(text.to_owned())),
            None => None,
        },
        InputDecision::OpenHint(hint) => match view.assignments.copied_text_for_hint(hint.as_str()) {
            Some(text) => Some(PickerOutcome::Opened(text.to_owned())),
            None => None,
        },
    }
}

} // verus!
