//! The picker's view of the pane it took over: matches, hints and drawn rows.

use crate::hints::{
    assign_hints, assigned, hint_label, hint_width, lemma_hint_selects_its_match, lemma_hint_width_has_room,
    lemma_hints_are_lowercase, lemma_label_len, text_for_hint, HintAssignment, HintAssignments,
};
use crate::picker::input::{feed, no_uppercase, lemma_typing_a_hint_selects_it, DecisionView, InputView};
use crate::model::{
    is_first_with_id, MatchSpan, PickerAction, PickerSnapshot, RenderLine, RenderSpan, RenderStyle,
    SourcePaneGeometry,
};
use crate::patterns::{all_rule_matches, compile_pattern_specs, find_matches, find_openable_urls, RuleView};
use crate::renderer::inline::{draws, inline_row, render_inline_hints, render_visible_inline_hints, row_count, viewport_row, Cell};
use crate::text::views;
use vstd::prelude::*;

verus! {

/// Rendered picker state and hint assignments derived from a captured pane snapshot.
#[derive(Debug, Clone, PartialEq, Eq)]
pub struct PickerView {
    pub lines: Vec<RenderLine>,
    pub assignments: HintAssignments,
    pub match_count: usize,
}

/// The unwrapped lines of a pane: those of its viewport when it has one.
pub open spec fn pane_lines(pane: SourcePaneGeometry) -> Seq<Seq<char>> {
    match pane.visible_viewport {
        Some(v) => views(v.logical_lines@),
        None => views(pane.logical_lines@),
    }
}

/// What the snapshot's picker matches.
pub open spec fn snapshot_rule(snapshot: PickerSnapshot) -> RuleView {
    match snapshot.action {
        PickerAction::Copy => RuleView::Copyable(snapshot.custom_patterns@.map_values(|s: crate::model::PatternSpec| s.pattern@)),
        PickerAction::OpenUrl => RuleView::OpenableUrls,
    }
}

/// The matches of the snapshot's picker in one pane, in reading order.
pub fn find_pane_matches(snapshot: &PickerSnapshot, pane: &SourcePaneGeometry) -> (r: Vec<MatchSpan>)
    ensures
        all_rule_matches(pane_lines(*pane), snapshot_rule(*snapshot), r@),
        pane.visible_viewport matches Some(v) ==> all_rule_matches(views(v.logical_lines@), snapshot_rule(*snapshot), r@),
        pane.visible_viewport is None ==> all_rule_matches(views(pane.logical_lines@), snapshot_rule(*snapshot), r@),
{
    let logical_lines = match &pane.visible_viewport {
        Some(viewport) => viewport.logical_lines.as_slice(),
        None => pane.logical_lines.as_slice(),
    };
    match snapshot.action {
        PickerAction::Copy => {
            let custom_patterns = compile_pattern_specs(snapshot.custom_patterns.as_slice());
            find_matches(logical_lines, &custom_patterns)
        },
        PickerAction::OpenUrl => find_openable_urls(logical_lines),
    }
}

/// The cells of row `i` of a pane: its viewport's row, or else its `i`-th logical line.
pub open spec fn pane_row(pane: SourcePaneGeometry, entries: Seq<HintAssignment>, i: nat) -> Seq<Cell> {
    match pane.visible_viewport {
        Some(v) => viewport_row(v, entries, i, pane.content_width as nat),
        None => inline_row(views(pane.logical_lines@), entries, i, pane.content_width as nat),
    }
}

/// The rows of a pane drawn with the hints.
pub open spec fn draws_pane(lines: Seq<RenderLine>, pane: SourcePaneGeometry, entries: Seq<HintAssignment>) -> bool {
    &&& lines.len() == row_count(pane.content_width as nat, pane.content_height as nat)
    &&& forall|i: int| 0 <= i < lines.len() ==> draws(#[trigger] lines[i], pane_row(pane, entries, i as nat))
}

/// Draws a pane with its hints, one row per row of the pane.
pub fn render_pane(pane: &SourcePaneGeometry, assignments: &HintAssignments) -> (r: Vec<RenderLine>)
    ensures
        draws_pane(r@, *pane, assignments.entries@),
{
    match &pane.visible_viewport {
        Some(viewport) => render_visible_inline_hints(viewport, assignments, pane.content_width, pane.content_height),
        None => render_inline_hints(pane.logical_lines.as_slice(), assignments, pane.content_width, pane.content_height),
    }
}

/// Text cut or padded with blanks to `width` characters.
pub open spec fn fit_text(text: Seq<char>, width: nat) -> Seq<char> {
    if text.len() >= width {
        text.take(width as int)
    } else {
        text + Seq::new((width - text.len()) as nat, |i: int| ' ')
    }
}

pub open spec fn no_matches_message(action: PickerAction) -> Seq<char> {
    match action {
        PickerAction::Copy => "Herdr Pluck: no copyable matches found"@,
        PickerAction::OpenUrl => "Herdr Pluck: no openable URLs found"@,
    }
}

pub open spec fn close_hint() -> Seq<char> {
    "Press any non-Enter key to close"@
}

/// Row `row` of the no-match screen: the message on the first row, the close
/// hint on the third when there is one, blanks elsewhere.
pub open spec fn no_matches_row(action: PickerAction, row: nat, width: nat, height: nat) -> Seq<char> {
    if row == 0 {
        fit_text(no_matches_message(action), width)
    } else if row == 2 && height > 2 {
        fit_text(close_hint(), width)
    } else {
        fit_text(Seq::empty(), width)
    }
}

/// `lines` are the no-match screen of a `width` by `height` pane.
pub open spec fn is_no_matches_view(lines: Seq<RenderLine>, action: PickerAction, width: nat, height: nat) -> bool {
    &&& lines.len() == row_count(width, height)
    &&& forall|i: int| 0 <= i < lines.len() ==> {
        &&& (#[trigger] lines[i]).spans@.len() == 1
        &&& lines[i].spans@[0].style == RenderStyle::Unmatched
        &&& lines[i].spans@[0].text@ == no_matches_row(action, i as nat, width, height)
    }
}

/// Text cut or padded to `width` characters.
pub fn fit_to_width(text: &str, width: usize) -> (r: String)
    ensures
        r@ == fit_text(text@, width as nat),
{
    let chars = crate::text::chars_of(text);
    let mut out = String::new();
    let mut p: usize = 0;
    while p < width
        invariant
            p <= width,
            chars@ == text@,
            out@ == fit_text(text@, width as nat).take(p as int),
        decreases width - p,
    {
        let c = if p < chars.len() { chars[p] } else { ' ' };
        crate::text::push_char(&mut out, c);
        assert(fit_text(text@, width as nat).take(p + 1) =~= fit_text(text@, width as nat).take(p as int).push(c));
        p = p + 1;
    }
    assert(fit_text(text@, width as nat).take(width as int) =~= fit_text(text@, width as nat));
    out
}

/// Every fitted text has exactly the asked width, and keeps the text where it fits.
pub proof fn lemma_fit_text(text: Seq<char>, width: nat)
    ensures
        fit_text(text, width).len() == width,
        forall|i: int| 0 <= i < width && i < text.len() ==> #[trigger] fit_text(text, width)[i] == text[i],
        forall|i: int| text.len() <= i < width ==> #[trigger] fit_text(text, width)[i] == ' ',
{
}

/// The screen shown when the pane has nothing to pick.
pub fn no_matches_view(action: PickerAction, width: u16, height: u16) -> (r: Vec<RenderLine>)
    ensures
        is_no_matches_view(r@, action, width as nat, height as nat),
{
    let mut lines: Vec<RenderLine> = Vec::new();
    if width == 0 || height == 0 {
        return lines;
    }
    let w = width as usize;
    let h = height as usize;
    let message = match action {
        PickerAction::Copy => "Herdr Pluck: no copyable matches found",
        PickerAction::OpenUrl => "Herdr Pluck: no openable URLs found",
    };
    let hint = "Press any non-Enter key to close";
    let mut row: usize = 0;
    while row < h
        invariant
            w == width,
            h == height,
            w > 0,
            row <= h,
            message@ == no_matches_message(action),
            hint@ == close_hint(),
            lines@.len() == row,
            forall|i: int| 0 <= i < row ==> {
                &&& (#[trigger] lines@[i]).spans@.len() == 1
                &&& lines@[i].spans@[0].style == RenderStyle::Unmatched
                &&& lines@[i].spans@[0].text@ == no_matches_row(action, i as nat, width as nat, height as nat)
            },
        decreases h - row,
    {
        let text = if row == 0 {
            fit_to_width(message, w)
        } else if row == 2 && h > 2 {
            fit_to_width(hint, w)
        } else {
            fit_to_width("", w)
        };
        proof {
            reveal_strlit("");
            assert(""@ =~= Seq::<char>::empty());
        }
        let mut spans: Vec<RenderSpan> = Vec::new();
        spans.push(RenderSpan { text, style: RenderStyle::Unmatched });
        lines.push(RenderLine { spans });
        row = row + 1;
    }
    lines
}

/// The view of the snapshot's target pane: its hints and how it is drawn.
pub open spec fn is_picker_view(view: PickerView, snapshot: PickerSnapshot) -> bool {
    let panes = snapshot.source.source_panes@;
    let target = snapshot.source.target_pane_id.0@;
    if forall|i: int| 0 <= i < panes.len() ==> (#[trigger] panes[i]).pane_id.0@ != target {
        &&& view.lines@.len() == 0
        &&& view.assignments.entries@.len() == 0
        &&& view.match_count == 0
    } else {
        exists|i: int| #[trigger] is_first_with_id(panes, target, i) && {
            let pane = panes[i];
            let entries = view.assignments.entries@;
            let spans = entries.map_values(|e: HintAssignment| e.span);
            &&& all_rule_matches(pane_lines(pane), snapshot_rule(snapshot), spans)
            &&& forall|k: int| 0 <= k < entries.len() ==> (#[trigger] entries[k]).hint@ == hint_label(k as nat, hint_width(entries.len()))
            &&& view.match_count == entries.len()
            &&& if entries.len() == 0 {
                is_no_matches_view(view.lines@, snapshot.action, pane.content_width as nat, pane.content_height as nat)
            } else {
                draws_pane(view.lines@, pane, entries)
            }
        }
    }
}

/// Builds the production picker view for the pane the picker took over.
pub fn build_picker_view(snapshot: &PickerSnapshot) -> (r: PickerView)
    ensures
        is_picker_view(r, *snapshot),
{
    let target = match snapshot.source.target_pane() {
        Some(t) => t,
        None => {
            return PickerView { lines: Vec::new(), assignments: HintAssignments::new(Vec::new()), match_count: 0 };
        },
    };
    let matches = find_pane_matches(snapshot, target);
    let match_count = matches.len();
    let ghost ms = matches@;
    let assignments = assign_hints(matches);
    let lines = if assignments.is_empty() {
        no_matches_view(snapshot.action, target.content_width, target.content_height)
    } else {
        render_pane(target, &assignments)
    };
    let view = PickerView { lines, assignments, match_count };
    proof {
        let entries = view.assignments.entries@;
        assert(entries.map_values(|e: HintAssignment| e.span) =~= ms);
    }
    view
}

/// The number of matches of a view is the number of its hints.
pub proof fn lemma_match_count_is_hint_count(view: PickerView, snapshot: PickerSnapshot)
    requires
        is_picker_view(view, snapshot),
    ensures
        view.match_count == view.assignments.entries@.len(),
{
}

/// In a picker view, typing the letters of the i-th hint into an empty buffer of the
/// hints' width copies that hint, and the hint selects the i-th match's text.
pub proof fn lemma_typed_hint_copies_its_match(view: PickerView, snapshot: PickerSnapshot, i: int)
    requires
        is_picker_view(view, snapshot),
        0 <= i < view.assignments.entries@.len(),
    ensures
        ({
            let entries = view.assignments.entries@;
            let h = entries[i].hint@;
            let valid = entries.map_values(|e: HintAssignment| e.hint@);
            let start = InputView { width: h.len(), buffer: Seq::empty(), open_requested: false };
            &&& feed(start, h, valid) == (start, DecisionView::CopyHint(h))
            &&& text_for_hint(entries, h) == Some(entries[i].span.text@)
        }),
{
    let entries = view.assignments.entries@;
    let n = entries.len();
    let w = hint_width(n);
    let spans = entries.map_values(|e: HintAssignment| e.span);
    assert(assigned(entries, spans, w));
    lemma_hint_selects_its_match(entries, spans, i);
    let h = entries[i].hint@;
    assert(h == hint_label(i as nat, w));
    lemma_hint_width_has_room(n);
    lemma_label_len(i as nat, w);
    lemma_hints_are_lowercase(i as nat, w);
    assert(no_uppercase(h));
    let valid = entries.map_values(|e: HintAssignment| e.hint@);
    assert(valid[i] == h);
    lemma_typing_a_hint_selects_it(h, valid);
}

/// The picker searches what the pane shows before wrapping: when the target pane
/// has a viewport, the view's matches are exactly the rule's matches in the
/// viewport's logical lines, so a match that the pane's width wraps over two rows
/// is still one match; without a viewport they are those of the pane's own lines.
pub proof fn lemma_matches_come_from_unwrapped_lines(view: PickerView, snapshot: PickerSnapshot, i: int)
    requires
        is_picker_view(view, snapshot),
        is_first_with_id(snapshot.source.source_panes@, snapshot.source.target_pane_id.0@, i),
    ensures
        ({
            let pane = snapshot.source.source_panes@[i];
            let spans = view.assignments.entries@.map_values(|e: HintAssignment| e.span);
            &&& pane.visible_viewport matches Some(v) ==> all_rule_matches(views(v.logical_lines@), snapshot_rule(snapshot), spans)
            &&& pane.visible_viewport is None ==> all_rule_matches(views(pane.logical_lines@), snapshot_rule(snapshot), spans)
        }),
{
    let panes = snapshot.source.source_panes@;
    let target = snapshot.source.target_pane_id.0@;
    assert(panes[i].pane_id.0@ == target);
    let j = choose|j: int| #[trigger] is_first_with_id(panes, target, j) && {
        let pane = panes[j];
        let entries = view.assignments.entries@;
        let spans = entries.map_values(|e: HintAssignment| e.span);
        all_rule_matches(pane_lines(pane), snapshot_rule(snapshot), spans)
    };
    assert(i == j);
}

} // verus!
