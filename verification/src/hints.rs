//! Hint labels for matches.
//!
//! Every match of a picker gets a hint of the same width, written in the
//! letters `a` to `z`: the i-th match gets the base-26 numeral of i, most
//! significant letter first. The width is the smallest that gives every match
//! its own hint.

use crate::model::MatchSpan;
use vstd::prelude::*;

verus! {

/// A hint and the match it selects.
#[derive(Debug, Clone, PartialEq, Eq)]
pub struct HintAssignment {
    pub hint: String,
    pub span: MatchSpan,
}

/// The hints of a picker, in the order of their matches.
#[derive(Debug, Clone, PartialEq, Eq)]
pub struct HintAssignments {
    pub entries: Vec<HintAssignment>,
}

/// The letter for base-26 digit `d`.
pub open spec fn digit_letter(d: nat) -> char {
    ((97 + d) as u32) as char
}

/// The hint of number `i` with `w` letters, least significant letter first.
pub open spec fn label_rev(i: nat, w: nat) -> Seq<char>
    decreases w,
{
    if w == 0 {
        Seq::empty()
    } else {
        seq![digit_letter(i % 26)] + label_rev(i / 26, (w - 1) as nat)
    }
}

/// The hint of number `i` with `w` letters.
pub open spec fn hint_label(i: nat, w: nat) -> Seq<char> {
    label_rev(i, w).reverse()
}

/// How many hints of width `w` there are.
pub open spec fn capacity(w: nat) -> nat
    decreases w,
{
    if w == 0 {
        1
    } else {
        26 * capacity((w - 1) as nat)
    }
}

/// The width of the hints for `n` matches: the smallest positive width with room for all.
pub open spec fn hint_width(n: nat) -> nat
    decreases n,
{
    if n <= 26 {
        1
    } else {
        1 + hint_width(((n + 25) / 26) as nat)
    }
}

/// There is room for `n` hints of width `hint_width(n)`.
pub proof fn lemma_hint_width_has_room(n: nat)
    ensures
        n <= capacity(hint_width(n)),
        hint_width(n) >= 1,
    decreases n,
{
    if n > 26 {
        let m = ((n + 25) / 26) as nat;
        lemma_hint_width_has_room(m);
        assert(n <= 26 * m);
        assert(hint_width(n) == 1 + hint_width(m));
        assert(capacity(hint_width(n)) == 26 * capacity(hint_width(m)));
    } else {
        assert(capacity(0) == 1);
        assert(capacity(1) == 26);
    }
}

/// No smaller positive width has room for `n` hints.
pub proof fn lemma_hint_width_is_smallest(n: nat, w: nat)
    requires
        1 <= w < hint_width(n),
    ensures
        capacity(w) < n,
    decreases n,
{
    let m = ((n + 25) / 26) as nat;
    assert(n > 26);
    if w == 1 {
        assert(capacity(0) == 1);
    } else {
        lemma_hint_width_is_smallest(m, (w - 1) as nat);
        assert(capacity((w - 1) as nat) < m);
        assert(26 * capacity((w - 1) as nat) + 26 <= 26 * m);
        assert(26 * m <= n + 25);
    }
}

pub proof fn lemma_label_len(i: nat, w: nat)
    ensures
        label_rev(i, w).len() == w,
    decreases w,
{
    if w > 0 {
        lemma_label_len(i / 26, (w - 1) as nat);
    }
}

proof fn lemma_quotient_below(i: nat, c: nat)
    requires
        i < 26 * c,
    ensures
        i / 26 < c,
{
    assert(i / 26 < c) by (nonlinear_arith)
        requires
            i < 26 * c,
    ;
}

/// Different numbers below the capacity get different hints.
pub proof fn lemma_label_injective(i: nat, j: nat, w: nat)
    requires
        i < capacity(w),
        j < capacity(w),
        label_rev(i, w) == label_rev(j, w),
    ensures
        i == j,
    decreases w,
{
    if w > 0 {
        let c = capacity((w - 1) as nat);
        assert(label_rev(i, w)[0] == digit_letter(i % 26));
        assert(label_rev(j, w)[0] == digit_letter(j % 26));
        assert(digit_letter(i % 26) == digit_letter(j % 26));
        assert(i % 26 == j % 26);
        assert(label_rev(i / 26, (w - 1) as nat) =~= label_rev(i, w).drop_first());
        assert(label_rev(j / 26, (w - 1) as nat) =~= label_rev(j, w).drop_first());
        lemma_quotient_below(i, c);
        lemma_quotient_below(j, c);
        lemma_label_injective(i / 26, j / 26, (w - 1) as nat);
    }
}

/// The hints that `entries` give to `matches`: the i-th match, the i-th hint of width `w`.
pub open spec fn assigned(entries: Seq<HintAssignment>, matches: Seq<MatchSpan>, w: nat) -> bool {
    &&& entries.len() == matches.len()
    &&& forall|i: int| 0 <= i < entries.len() ==> {
        &&& (#[trigger] entries[i]).span == matches[i]
        &&& entries[i].hint@ == hint_label(i as nat, w)
    }
}

fn digit_char(d: usize) -> (c: char)
    requires
        d < 26,
    ensures
        c == digit_letter(d as nat),
{
    let b: u8 = 97u8 + d as u8;
    b as char
}

/// The hint of number `i` with `w` letters.
pub fn label(i: usize, w: usize) -> (r: String)
    ensures
        r@ == hint_label(i as nat, w as nat),
{
    let mut rev: Vec<char> = Vec::new();
    let mut d: usize = i;
    let mut k: usize = 0;
    while k < w
        invariant
            k <= w,
            rev@ + label_rev(d as nat, (w - k) as nat) == label_rev(i as nat, w as nat),
        decreases w - k,
    {
        let ghost before = rev@;
        rev.push(digit_char(d % 26));
        assert(label_rev(d as nat, (w - k) as nat) == seq![digit_letter((d % 26) as nat)] + label_rev((d / 26) as nat, (w - k - 1) as nat));
        assert(rev@ + label_rev((d / 26) as nat, (w - (k + 1)) as nat) =~= before + label_rev(d as nat, (w - k) as nat));
        d = d / 26;
        k = k + 1;
    }
    assert(label_rev(d as nat, 0) =~= Seq::<char>::empty());
    assert(rev@ =~= label_rev(i as nat, w as nat));
    let mut out = String::new();
    let mut q: usize = rev.len();
    while q > 0
        invariant
            q <= rev@.len(),
            out@ =~= rev@.subrange(q as int, rev@.len() as int).reverse(),
        decreases q,
    {
        q = q - 1;
        let ghost before = out@;
        crate::text::push_char(&mut out, rev[q]);
        assert(rev@.subrange(q as int, rev@.len() as int) =~= seq![rev@[q as int]] + rev@.subrange(q + 1, rev@.len() as int));
        assert(out@ =~= rev@.subrange(q as int, rev@.len() as int).reverse());
    }
    assert(rev@.subrange(0, rev@.len() as int) =~= rev@);
    out
}

/// The width of the hints for `n` matches.
pub fn width_for(n: usize) -> (w: usize)
    ensures
        w == hint_width(n as nat),
{
    let mut w: usize = 1;
    let mut m: usize = n;
    while m > 26
        invariant
            w >= 1,
            w + m <= n + 1,
            hint_width(n as nat) == w - 1 + hint_width(m as nat),
        decreases m,
    {
        assert((m + 25) / 26 == (m - 1) / 26 + 1);
        m = (m - 1) / 26 + 1;
        w = w + 1;
    }
    w
}

/// Gives each match, in order, its hint.
pub fn assign_hints(matches: Vec<MatchSpan>) -> (r: HintAssignments)
    ensures
        assigned(r.entries@, matches@, hint_width(matches@.len())),
{
    let n = matches.len();
    let w = width_for(n);
    let mut entries: Vec<HintAssignment> = Vec::new();
    let mut i: usize = 0;
    while i < n
        invariant
            n == matches@.len(),
            w == hint_width(n as nat),
            i <= n,
            entries@.len() == i,
            forall|j: int| 0 <= j < i ==> {
                &&& (#[trigger] entries@[j]).span == matches@[j]
                &&& entries@[j].hint@ == hint_label(j as nat, w as nat)
            },
        decreases n - i,
    {
        entries.push(HintAssignment { hint: label(i, w), span: matches[i].duplicate() });
        i = i + 1;
    }
    HintAssignments { entries }
}

/// The hints of an assignment are pairwise different and all of one width.
pub proof fn lemma_assigned_hints_distinct(entries: Seq<HintAssignment>, matches: Seq<MatchSpan>)
    requires
        assigned(entries, matches, hint_width(matches.len())),
    ensures
        forall|a: int, b: int| 0 <= a < b < entries.len() ==> (#[trigger] entries[a]).hint@ != (#[trigger] entries[b]).hint@,
        forall|a: int| 0 <= a < entries.len() ==> (#[trigger] entries[a]).hint@.len() == hint_width(matches.len()),
{
    let w = hint_width(matches.len());
    lemma_hint_width_has_room(matches.len());
    assert forall|a: int, b: int| 0 <= a < b < entries.len() implies (#[trigger] entries[a]).hint@ != (#[trigger] entries[b]).hint@ by {
        if entries[a].hint@ == entries[b].hint@ {
            assert(label_rev(a as nat, w).reverse().reverse() =~= label_rev(a as nat, w));
            assert(label_rev(b as nat, w).reverse().reverse() =~= label_rev(b as nat, w));
            lemma_label_injective(a as nat, b as nat, w);
        }
    }
    assert forall|a: int| 0 <= a < entries.len() implies (#[trigger] entries[a]).hint@.len() == w by {
        lemma_label_len(a as nat, w);
    }
}

/// The text of the first match whose hint is `hint`.
pub open spec fn text_for_hint(entries: Seq<HintAssignment>, hint: Seq<char>) -> Option<Seq<char>>
    decreases entries.len(),
{
    if entries.len() == 0 {
        None
    } else if entries[0].hint@ == hint {
        Some(entries[0].span.text@)
    } else {
        text_for_hint(entries.drop_first(), hint)
    }
}

impl HintAssignments {
    pub fn new(entries: Vec<HintAssignment>) -> (r: HintAssignments)
        ensures
            r.entries@ == entries@,
    {
        HintAssignments { entries }
    }

    pub fn len(&self) -> (r: usize)
        ensures
            r == self.entries@.len(),
    {
        self.entries.len()
    }

    pub fn is_empty(&self) -> (r: bool)
        ensures
            r == (self.entries@.len() == 0),
    {
        self.entries.len() == 0
    }

    /// The width of the hints: that of the first one, 0 when there are none.
    pub fn hint_width(&self) -> (r: usize)
        ensures
            self.entries@.len() == 0 ==> r == 0,
            self.entries@.len() > 0 ==> r == self.entries@[0].hint@.len(),
    {
        if self.entries.len() == 0 {
            0
        } else {
            crate::text::char_count(&self.entries[0].hint)
        }
    }

    /// The hints, in order.
    pub fn hints(&self) -> (r: Vec<&str>)
        ensures
            r@.len() == self.entries@.len(),
            forall|i: int| 0 <= i < r@.len() ==> (#[trigger] r@[i])@ == self.entries@[i].hint@,
    {
        let mut out: Vec<&str> = Vec::new();
        let mut i: usize = 0;
        while i < self.entries.len()
            invariant
                i <= self.entries@.len(),
                out@.len() == i,
                forall|j: int| 0 <= j < i ==> (#[trigger] out@[j])@ == self.entries@[j].hint@,
            decreases self.entries@.len() - i,
        {
            out.push(self.entries[i].hint.as_str());
            i = i + 1;
        }
        out
    }

    /// The text that the hint `hint` copies or opens.
    pub fn copied_text_for_hint(&self, hint: &str) -> (r: Option<&str>)
        ensures
            match r {
                Some(t) => text_for_hint(self.entries@, hint@) == Some(t@),
                None => text_for_hint(self.entries@, hint@) is None,
            },
    {
        let wanted: String = hint.to_owned();
        let mut i: usize = 0;
        assert(self.entries@.skip(0) =~= self.entries@);
        while i < self.entries.len()
            invariant
                wanted@ == hint@,
                i <= self.entries@.len(),
                text_for_hint(self.entries@, hint@) == text_for_hint(self.entries@.skip(i as int), hint@),
            decreases self.entries@.len() - i,
        {
            assert(self.entries@.skip(i as int)[0] == self.entries@[i as int]);
            if self.entries[i].hint == wanted {
                return Some(self.entries[i].span.text.as_str());
            }
            assert(self.entries@.skip(i as int).drop_first() =~= self.entries@.skip(i + 1));
            i = i + 1;
        }
        None
    }
}

} // verus!

verus! {

/// When no two entries share a hint, looking up the hint of entry `i` gives entry `i`'s text.
pub proof fn lemma_distinct_hint_lookup(entries: Seq<HintAssignment>, i: int)
    requires
        0 <= i < entries.len(),
        forall|a: int, b: int| 0 <= a < b < entries.len() ==> (#[trigger] entries[a]).hint@ != (#[trigger] entries[b]).hint@,
    ensures
        text_for_hint(entries, entries[i].hint@) == Some(entries[i].span.text@),
    decreases i,
{
    if i > 0 {
        assert(entries[0].hint@ != entries[i].hint@);
        let rest = entries.drop_first();
        assert(rest[i - 1] == entries[i]);
        assert forall|a: int, b: int| 0 <= a < b < rest.len() implies (#[trigger] rest[a]).hint@ != (#[trigger] rest[b]).hint@ by {
            assert(rest[a] == entries[a + 1]);
            assert(rest[b] == entries[b + 1]);
        }
        lemma_distinct_hint_lookup(rest, i - 1);
    }
}

/// The hint given to the i-th match selects the i-th match.
pub proof fn lemma_hint_selects_its_match(entries: Seq<HintAssignment>, matches: Seq<MatchSpan>, i: int)
    requires
        assigned(entries, matches, hint_width(matches.len())),
        0 <= i < matches.len(),
    ensures
        text_for_hint(entries, entries[i].hint@) == Some(matches[i].text@),
{
    lemma_assigned_hints_distinct(entries, matches);
    lemma_distinct_hint_lookup(entries, i);
}

/// Hints are written in lowercase letters.
pub proof fn lemma_hints_are_lowercase(i: nat, w: nat)
    ensures
        forall|k: int| 0 <= k < hint_label(i, w).len() ==> {
            let c = #[trigger] hint_label(i, w)[k];
            'a' <= c && c <= 'z'
        },
    decreases w,
{
    lemma_label_len(i, w);
    if w > 0 {
        lemma_hints_are_lowercase(i / 26, (w - 1) as nat);
        lemma_label_len(i / 26, (w - 1) as nat);
        let rest = label_rev(i / 26, (w - 1) as nat);
        assert forall|k: int| 0 <= k < hint_label(i, w).len() implies {
            let c = #[trigger] hint_label(i, w)[k];
            'a' <= c && c <= 'z'
        } by {
            let j = w - 1 - k;
            assert(hint_label(i, w)[k] == label_rev(i, w)[j]);
            if j == 0 {
                assert(label_rev(i, w)[0] == digit_letter(i % 26));
            } else {
                assert(label_rev(i, w)[j] == rest[j - 1]);
                assert(hint_label(i / 26, (w - 1) as nat)[(w - 1) - 1 - (j - 1)] == rest[j - 1]);
            }
        }
    }
}

} // verus!
