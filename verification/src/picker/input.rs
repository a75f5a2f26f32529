//! The fixed-width hint buffer that turns key presses into picker decisions.

use vstd::prelude::*;

verus! {

/// A key press, reduced to what the picker distinguishes.
#[derive(Debug, Clone, Copy, PartialEq, Eq)]
pub enum PickerInputEvent {
    Escape,
    CtrlC,
    Enter,
    Other,
    Char(char),
}

/// Result of feeding one key into the fixed-width hint state machine.
#[derive(Debug, Clone, PartialEq, Eq)]
pub enum InputDecision {
    Continue,
    Cancel,
    CopyHint(String),
    OpenHint(String),
    InvalidHint,
}

pub open spec fn is_upper(c: char) -> bool {
    'A' <= c && c <= 'Z'
}

/// ASCII lowercase of a character; every other character is kept.
pub open spec fn lower(c: char) -> char {
    if is_upper(c) {
        ((c as u32) + 32) as char
    } else {
        c
    }
}

/// `char::is_ascii_uppercase`.
pub fn char_is_ascii_uppercase(c: char) -> (r: bool)
    ensures
        r == is_upper(c),
{
    'A' <= c && c <= 'Z'
}

/// `char::to_ascii_lowercase`.
pub fn char_to_ascii_lowercase(c: char) -> (r: char)
    ensures
        r == lower(c),
{
    if 'A' <= c && c <= 'Z' {
        let b: u8 = c as u8;
        assert(b as u32 == c as u32);
        ((b + 32) as char)
    } else {
        c
    }
}

/// What a decision means, with its hint as characters.
pub enum DecisionView {
    Continue,
    Cancel,
    CopyHint(Seq<char>),
    OpenHint(Seq<char>),
    InvalidHint,
}

impl View for InputDecision {
    type V = DecisionView;

    open spec fn view(&self) -> DecisionView {
        match self {
            InputDecision::Continue => DecisionView::Continue,
            InputDecision::Cancel => DecisionView::Cancel,
            InputDecision::CopyHint(h) => DecisionView::CopyHint(h@),
            InputDecision::OpenHint(h) => DecisionView::OpenHint(h@),
            InputDecision::InvalidHint => DecisionView::InvalidHint,
        }
    }
}

/// The state of the hint buffer: its fixed width, the lowercased characters
/// typed so far, and whether an uppercase character asked to open the match.
pub struct InputView {
    pub width: nat,
    pub buffer: Seq<char>,
    pub open_requested: bool,
}

/// The hints as character sequences.
pub open spec fn hint_views(valid_hints: Seq<&str>) -> Seq<Seq<char>> {
    valid_hints.map_values(|h: &str| h@)
}

/// One step of the hint state machine: the state after `event`, and the decision.
pub open spec fn step(s: InputView, event: PickerInputEvent, valid: Seq<Seq<char>>) -> (InputView, DecisionView) {
    match event {
        PickerInputEvent::Escape | PickerInputEvent::CtrlC => (s, DecisionView::Cancel),
        PickerInputEvent::Enter | PickerInputEvent::Other => (s, DecisionView::Continue),
        PickerInputEvent::Char(ch) => {
            let entered = s.buffer.push(lower(ch));
            let open = s.open_requested || is_upper(ch);
            if s.width == 0 {
                (s, DecisionView::Continue)
            } else if entered.len() < s.width {
                (InputView { width: s.width, buffer: entered, open_requested: open }, DecisionView::Continue)
            } else {
                let cleared = InputView { width: s.width, buffer: Seq::empty(), open_requested: false };
                if !valid.contains(entered) {
                    (cleared, DecisionView::InvalidHint)
                } else if open {
                    (cleared, DecisionView::OpenHint(entered))
                } else {
                    (cleared, DecisionView::CopyHint(entered))
                }
            }
        },
    }
}

/// Pure fixed-width hint buffer for picker input.
#[derive(Debug, Clone, PartialEq, Eq)]
pub struct InputState {
    width: usize,
    buffer: String,
    open_requested: bool,
}

impl View for InputState {
    type V = InputView;

    closed spec fn view(&self) -> InputView {
        InputView { width: self.width as nat, buffer: self.buffer@, open_requested: self.open_requested }
    }
}

impl InputState {
    pub fn new(width: usize) -> (r: Self)
        ensures
            r@ == (InputView { width: width as nat, buffer: Seq::empty(), open_requested: false }),
    {
        InputState { width, buffer: String::new(), open_requested: false }
    }

    /// Whether the hint `entered` is one of `valid_hints`.
    fn is_valid_hint(valid_hints: &[&str], entered: &String) -> (r: bool)
        ensures
            r == hint_views(valid_hints@).contains(entered@),
    {
        let mut i: usize = 0;
        while i < valid_hints.len()
            invariant
                i <= valid_hints@.len(),
                forall|j: int| 0 <= j < i ==> (#[trigger] valid_hints@[j])@ != entered@,
            decreases valid_hints@.len() - i,
        {
            let candidate: String = valid_hints[i].to_owned();
            if candidate == *entered {
                assert(hint_views(valid_hints@)[i as int] == entered@);
                return true;
            }
            i = i + 1;
        }
        assert forall|j: int| 0 <= j < hint_views(valid_hints@).len() implies hint_views(valid_hints@)[j] != entered@ by {
            assert(hint_views(valid_hints@)[j] == valid_hints@[j]@);
        }
        false
    }

    /// Feeds one key press into the buffer.
    pub fn push(&mut self, event: PickerInputEvent, valid_hints: &[&str]) -> (r: InputDecision)
        ensures
            (final(self)@, r@) == step(old(self)@, event, hint_views(valid_hints@)),
    {
        match event {
            PickerInputEvent::Escape | PickerInputEvent::CtrlC => InputDecision::Cancel,
            PickerInputEvent::Enter | PickerInputEvent::Other => InputDecision::Continue,
            PickerInputEvent::Char(ch) => {
                if self.width == 0 {
                    return InputDecision::Continue;
                }
                let open = self.open_requested || char_is_ascii_uppercase(ch);
                let mut buffer = self.buffer.clone();
                crate::text::push_char(&mut buffer, char_to_ascii_lowercase(ch));
                let count = crate::text::char_count(&buffer);
                if count < self.width {
                    self.buffer = buffer;
                    self.open_requested = open;
                    return InputDecision::Continue;
                }
                self.buffer = String::new();
                self.open_requested = false;
                if !Self::is_valid_hint(valid_hints, &buffer) {
                    InputDecision::InvalidHint
                } else if open {
                    InputDecision::OpenHint(buffer)
                } else {
                    InputDecision::CopyHint(buffer)
                }
            },
        }
    }
}

/// A key other than a character never changes the buffer.
pub proof fn lemma_non_char_keys_keep_state(s: InputView, event: PickerInputEvent, valid: Seq<Seq<char>>)
    requires
        !(event is Char),
    ensures
        step(s, event, valid).0 == s,
{
}

/// Escape and Ctrl-C always cancel, Enter and other keys always continue.
pub proof fn lemma_cancel_keys(s: InputView, event: PickerInputEvent, valid: Seq<Seq<char>>)
    ensures
        (event is Escape || event is CtrlC) ==> step(s, event, valid).1 == DecisionView::Cancel,
        (event is Enter || event is Other) ==> step(s, event, valid).1 == DecisionView::Continue,
{
}

/// With a positive width, the buffer stays shorter than the width after every step.
pub proof fn lemma_buffer_stays_short(s: InputView, event: PickerInputEvent, valid: Seq<Seq<char>>)
    requires
        s.width > 0,
        s.buffer.len() < s.width,
    ensures
        step(s, event, valid).0.buffer.len() < s.width,
        step(s, event, valid).0.width == s.width,
{
}

/// A hint that the machine hands out to copy or open is always one of the valid hints,
/// and it is exactly the characters typed since the buffer was last cleared, lowercased.
pub proof fn lemma_decided_hint_is_valid(s: InputView, ch: char, valid: Seq<Seq<char>>)
    ensures
        step(s, PickerInputEvent::Char(ch), valid).1 matches DecisionView::CopyHint(h) ==> valid.contains(h) && h == s.buffer.push(lower(ch)),
        step(s, PickerInputEvent::Char(ch), valid).1 matches DecisionView::OpenHint(h) ==> valid.contains(h) && h == s.buffer.push(lower(ch)),
{
}

/// Once the buffer is full, it is cleared and the open request is dropped,
/// whether or not the hint was valid.
pub proof fn lemma_full_buffer_resets(s: InputView, ch: char, valid: Seq<Seq<char>>)
    requires
        s.width > 0,
        s.buffer.len() + 1 >= s.width,
    ensures
        step(s, PickerInputEvent::Char(ch), valid).0.buffer.len() == 0,
        !step(s, PickerInputEvent::Char(ch), valid).0.open_requested,
        step(s, PickerInputEvent::Char(ch), valid).1 != DecisionView::Continue,
{
}

/// An uppercase character anywhere in a valid hint makes the decision an open.
pub proof fn lemma_uppercase_requests_open(s: InputView, ch: char, valid: Seq<Seq<char>>)
    requires
        s.width > 0,
        s.buffer.len() + 1 >= s.width,
        s.open_requested || is_upper(ch),
        valid.contains(s.buffer.push(lower(ch))),
    ensures
        step(s, PickerInputEvent::Char(ch), valid).1 == DecisionView::OpenHint(s.buffer.push(lower(ch))),
{
}

} // verus!

verus! {

/// The state and last decision after typing the characters `typed`, one key each.
pub open spec fn feed(s: InputView, typed: Seq<char>, valid: Seq<Seq<char>>) -> (InputView, DecisionView)
    decreases typed.len(),
{
    if typed.len() == 0 {
        (s, DecisionView::Continue)
    } else {
        let (before, _) = feed(s, typed.drop_last(), valid);
        step(before, PickerInputEvent::Char(typed.last()), valid)
    }
}

/// A sequence of characters none of which is an ASCII uppercase letter.
pub open spec fn no_uppercase(h: Seq<char>) -> bool {
    forall|i: int| 0 <= i < h.len() ==> !is_upper(#[trigger] h[i])
}

proof fn lemma_feed_prefix(width: nat, h: Seq<char>, valid: Seq<Seq<char>>, k: nat)
    requires
        width == h.len(),
        1 <= k < width,
        no_uppercase(h),
    ensures
        feed(InputView { width, buffer: Seq::empty(), open_requested: false }, h.take(k as int), valid)
            == (InputView { width, buffer: h.take(k as int), open_requested: false }, DecisionView::Continue),
    decreases k,
{
    let start = InputView { width, buffer: Seq::empty(), open_requested: false };
    assert(h.take(k as int).drop_last() =~= h.take(k - 1));
    if k == 1 {
        assert(h.take(0) =~= Seq::<char>::empty());
        assert(feed(start, h.take(0), valid) == (start, DecisionView::Continue));
        assert(Seq::<char>::empty().push(lower(h[0])) =~= h.take(1));
    } else {
        lemma_feed_prefix(width, h, valid, (k - 1) as nat);
        assert(h.take(k - 1).push(lower(h[k - 1])) =~= h.take(k as int));
    }
}

/// Typing all the letters of a valid lowercase hint into an empty buffer of the
/// hint's width copies that hint.
pub proof fn lemma_typing_a_hint_selects_it(h: Seq<char>, valid: Seq<Seq<char>>)
    requires
        h.len() >= 1,
        no_uppercase(h),
        valid.contains(h),
    ensures
        feed(InputView { width: h.len(), buffer: Seq::empty(), open_requested: false }, h, valid)
            == (InputView { width: h.len(), buffer: Seq::empty(), open_requested: false }, DecisionView::CopyHint(h)),
{
    let w = h.len();
    let start = InputView { width: w, buffer: Seq::empty(), open_requested: false };
    assert(h.drop_last() =~= h.take(w - 1));
    if w == 1 {
        assert(h.take(0) =~= Seq::<char>::empty());
        assert(feed(start, h.drop_last(), valid) == (start, DecisionView::Continue));
        assert(Seq::<char>::empty().push(lower(h[0])) =~= h);
    } else {
        lemma_feed_prefix(w, h, valid, (w - 1) as nat);
        assert(h.take(w - 1).push(lower(h.last())) =~= h);
    }
}

/// The characters lowercased, one by one.
pub open spec fn lowered(t: Seq<char>) -> Seq<char> {
    t.map_values(|c: char| lower(c))
}

/// Whether any of the characters is an ASCII uppercase letter.
pub open spec fn has_upper(t: Seq<char>) -> bool
    decreases t.len(),
{
    t.len() > 0 && (has_upper(t.drop_last()) || is_upper(t.last()))
}

proof fn lemma_feed_typed_prefix(width: nat, t: Seq<char>, valid: Seq<Seq<char>>, k: nat)
    requires
        width == t.len(),
        1 <= k < width,
    ensures
        feed(InputView { width, buffer: Seq::empty(), open_requested: false }, t.take(k as int), valid)
            == (InputView { width, buffer: lowered(t.take(k as int)), open_requested: has_upper(t.take(k as int)) }, DecisionView::Continue),
    decreases k,
{
    let start = InputView { width, buffer: Seq::empty(), open_requested: false };
    assert(t.take(k as int).drop_last() =~= t.take(k - 1));
    if k == 1 {
        assert(t.take(0) =~= Seq::<char>::empty());
        assert(feed(start, t.take(0), valid) == (start, DecisionView::Continue));
        assert(lowered(t.take(1)) =~= Seq::<char>::empty().push(lower(t[0])));
        assert(!has_upper(t.take(0)));
    } else {
        lemma_feed_typed_prefix(width, t, valid, (k - 1) as nat);
        assert(lowered(t.take(k - 1)).push(lower(t[k - 1])) =~= lowered(t.take(k as int)));
    }
}

/// Typing a valid hint into an empty buffer of the hint's width, each letter in
/// either case, selects that hint: it copies it when every letter was lowercase,
/// and opens it when any letter was uppercase.
pub proof fn lemma_typing_a_hint_in_any_case_selects_it(t: Seq<char>, valid: Seq<Seq<char>>)
    requires
        t.len() >= 1,
        valid.contains(lowered(t)),
    ensures
        feed(InputView { width: t.len(), buffer: Seq::empty(), open_requested: false }, t, valid) == (
            InputView { width: t.len(), buffer: Seq::empty(), open_requested: false },
            if has_upper(t) { DecisionView::OpenHint(lowered(t)) } else { DecisionView::CopyHint(lowered(t)) },
        ),
{
    let w = t.len();
    let start = InputView { width: w, buffer: Seq::empty(), open_requested: false };
    assert(t.drop_last() =~= t.take(w - 1));
    if w == 1 {
        assert(t.take(0) =~= Seq::<char>::empty());
        assert(feed(start, t.drop_last(), valid) == (start, DecisionView::Continue));
        assert(Seq::<char>::empty().push(lower(t[0])) =~= lowered(t));
        assert(!has_upper(t.drop_last()));
    } else {
        lemma_feed_typed_prefix(w, t, valid, (w - 1) as nat);
        assert(lowered(t.take(w - 1)).push(lower(t.last())) =~= lowered(t));
    }
}

} // verus!
