//! Drawing captured lines with their hints.
//!
//! A line is first turned into cells (a character and a style each). Every
//! hint whose match lies on the line marks its match's characters as matched
//! and writes its letters over the first characters of the match, within the
//! line. Rows are then cut or padded with blanks to the pane's width, and
//! grouped into spans of one style.

use crate::hints::{HintAssignment, HintAssignments};
use crate::model::{RenderLine, RenderSpan, RenderStyle, VisibleViewport};
use crate::text::{chars_of, views};
use vstd::prelude::*;

verus! {

pub type Cell = (char, RenderStyle);

pub open spec fn plain_cells(line: Seq<char>) -> Seq<Cell> {
    line.map_values(|c: char| (c, RenderStyle::Unmatched))
}

/// `base` with the match `start..end` marked and `hint` written over its first characters.
pub open spec fn overlay(base: Seq<Cell>, start: nat, end: nat, hint: Seq<char>) -> Seq<Cell> {
    Seq::new(
        base.len(),
        |p: int|
            if start <= p < start + hint.len() {
                (hint[p - start], RenderStyle::Hint)
            } else if start <= p < end {
                (base[p].0, RenderStyle::Match)
            } else {
                base[p]
            },
    )
}

/// Logical line `li` with the hints of all `entries` on it, drawn in order.
pub open spec fn styled_line(line: Seq<char>, entries: Seq<HintAssignment>, li: nat) -> Seq<Cell>
    decreases entries.len(),
{
    if entries.len() == 0 {
        plain_cells(line)
    } else {
        let prev = styled_line(line, entries.drop_last(), li);
        let e = entries.last();
        if e.span.line == li {
            overlay(prev, e.span.start as nat, e.span.end as nat, e.hint@)
        } else {
            prev
        }
    }
}

/// Cells cut or padded with blanks to `width`.
pub open spec fn fit_cells(cells: Seq<Cell>, width: nat) -> Seq<Cell> {
    if cells.len() >= width {
        cells.take(width as int)
    } else {
        cells + Seq::new((width - cells.len()) as nat, |i: int| (' ', RenderStyle::Unmatched))
    }
}

/// The cells that the spans of a row draw, in order.
pub open spec fn span_cells(spans: Seq<RenderSpan>) -> Seq<Cell>
    decreases spans.len(),
{
    if spans.len() == 0 {
        Seq::empty()
    } else {
        span_cells(spans.drop_last()) + run_cells(spans.last().text@, spans.last().style)
    }
}

/// Characters drawn in one style.
pub open spec fn run_cells(text: Seq<char>, style: RenderStyle) -> Seq<Cell> {
    text.map_values(|c: char| (c, style))
}

proof fn lemma_run_cells_push(text: Seq<char>, c: char, style: RenderStyle)
    ensures
        run_cells(text.push(c), style) == run_cells(text, style).push((c, style)),
{
    assert(run_cells(text.push(c), style) =~= run_cells(text, style).push((c, style)));
}

/// `line` draws `cells`, in maximal runs of one style.
#[verifier::opaque]
pub open spec fn draws(line: RenderLine, cells: Seq<Cell>) -> bool {
    &&& span_cells(line.spans@) == cells
    &&& forall|k: int| 0 <= k < line.spans@.len() ==> (#[trigger] line.spans@[k]).text@.len() > 0
    &&& forall|k: int| 0 < k < line.spans@.len() ==> (#[trigger] line.spans@[k]).style != line.spans@[k - 1].style
}

/// The cells of row `r` when the rows are the logical lines.
pub open spec fn inline_row(lines: Seq<Seq<char>>, entries: Seq<HintAssignment>, r: nat, width: nat) -> Seq<Cell> {
    if r < lines.len() {
        fit_cells(styled_line(lines[r as int], entries, r), width)
    } else {
        fit_cells(Seq::empty(), width)
    }
}

/// Characters `start..start + len` of the cells, as far as they reach.
pub open spec fn clip(cells: Seq<Cell>, start: nat, len: nat) -> Seq<Cell> {
    let lo = if start <= cells.len() { start } else { cells.len() };
    let hi = if start + len <= cells.len() { start + len } else { cells.len() };
    cells.subrange(lo as int, hi as int)
}

/// The cells of row `r` of a viewport: the part of its logical line that the row shows.
pub open spec fn viewport_row(v: VisibleViewport, entries: Seq<HintAssignment>, r: nat, width: nat) -> Seq<Cell> {
    if r < v.segments@.len() {
        let seg = v.segments@[r as int];
        let styled = if seg.line < v.logical_lines@.len() {
            styled_line(v.logical_lines@[seg.line as int]@, entries, seg.line as nat)
        } else {
            Seq::empty()
        };
        fit_cells(clip(styled, seg.start as nat, seg.len as nat), width)
    } else {
        fit_cells(Seq::empty(), width)
    }
}

/// The number of rows drawn for a pane: none when it has no width or height.
pub open spec fn row_count(width: nat, height: nat) -> nat {
    if width == 0 || height == 0 {
        0
    } else {
        height
    }
}

fn overlay_exec(base: Vec<Cell>, start: usize, end: usize, hint: &Vec<char>) -> (r: Vec<Cell>)
    ensures
        r@ == overlay(base@, start as nat, end as nat, hint@),
{
    let n = base.len();
    let mut out: Vec<Cell> = Vec::new();
    let mut p: usize = 0;
    while p < n
        invariant
            n == base@.len(),
            p <= n,
            out@.len() == p,
            forall|q: int| 0 <= q < p ==> out@[q] == #[trigger] overlay(base@, start as nat, end as nat, hint@)[q],
        decreases n - p,
    {
        let cell = if start <= p && p - start < hint.len() {
            (hint[p - start], RenderStyle::Hint)
        } else if start <= p && p < end {
            (base[p].0, RenderStyle::Match)
        } else {
            base[p]
        };
        out.push(cell);
        p = p + 1;
    }
    assert(out@ =~= overlay(base@, start as nat, end as nat, hint@));
    out
}

/// Logical line `li` with its hints drawn.
pub fn styled_cells(line: &str, entries: &Vec<HintAssignment>, li: usize) -> (r: Vec<Cell>)
    ensures
        r@ == styled_line(line@, entries@, li as nat),
{
    let chars = chars_of(line);
    let mut cells: Vec<Cell> = Vec::new();
    let mut i: usize = 0;
    while i < chars.len()
        invariant
            i <= chars@.len(),
            cells@ == plain_cells(chars@).take(i as int),
        decreases chars@.len() - i,
    {
        cells.push((chars[i], RenderStyle::Unmatched));
        assert(plain_cells(chars@).take(i + 1) =~= plain_cells(chars@).take(i as int).push((chars@[i as int], RenderStyle::Unmatched)));
        i = i + 1;
    }
    assert(plain_cells(chars@).take(chars@.len() as int) =~= plain_cells(chars@));
    let mut k: usize = 0;
    while k < entries.len()
        invariant
            k <= entries@.len(),
            chars@ == line@,
            cells@ == styled_line(line@, entries@.take(k as int), li as nat),
        decreases entries@.len() - k,
    {
        let e = &entries[k];
        assert(entries@.take(k + 1).drop_last() =~= entries@.take(k as int));
        assert(entries@.take(k + 1).last() == entries@[k as int]);
        if e.span.line == li {
            let hint = chars_of(e.hint.as_str());
            cells = overlay_exec(cells, e.span.start, e.span.end, &hint);
        }
        k = k + 1;
    }
    assert(entries@.take(entries@.len() as int) =~= entries@);
    cells
}

/// Cells cut or padded to `width`.
pub fn fit_cells_exec(cells: &Vec<Cell>, width: usize) -> (r: Vec<Cell>)
    ensures
        r@ == fit_cells(cells@, width as nat),
{
    let mut out: Vec<Cell> = Vec::new();
    let mut p: usize = 0;
    while p < width
        invariant
            p <= width,
            out@ == fit_cells(cells@, width as nat).take(p as int),
        decreases width - p,
    {
        let cell = if p < cells.len() { cells[p] } else { (' ', RenderStyle::Unmatched) };
        out.push(cell);
        assert(fit_cells(cells@, width as nat).take(p + 1) =~= fit_cells(cells@, width as nat).take(p as int).push(cell));
        p = p + 1;
    }
    assert(fit_cells(cells@, width as nat).take(width as int) =~= fit_cells(cells@, width as nat));
    out
}

proof fn lemma_span_cells_push(spans: Seq<RenderSpan>, s: RenderSpan)
    ensures
        span_cells(spans.push(s)) == span_cells(spans) + run_cells(s.text@, s.style),
{
    assert(spans.push(s).drop_last() =~= spans);
}

/// Groups cells into spans of one style.
#[verifier::rlimit(60)]
pub fn group_cells(cells: &Vec<Cell>) -> (r: RenderLine)
    ensures
        draws(r, cells@),
{
    reveal(draws);
    let mut spans: Vec<RenderSpan> = Vec::new();
    let n = cells.len();
    if n == 0 {
        assert(span_cells(spans@) =~= cells@);
        return RenderLine { spans };
    }
    let mut cur = String::new();
    let mut style = cells[0].1;
    let mut i: usize = 0;
    while i < n
        invariant
            n == cells@.len(),
            n > 0,
            i <= n,
            span_cells(spans@) + run_cells(cur@, style) == cells@.take(i as int),
            i > 0 ==> cur@.len() > 0,
            i == 0 ==> cur@.len() == 0 && spans@.len() == 0,
            forall|k: int| 0 <= k < spans@.len() ==> (#[trigger] spans@[k]).text@.len() > 0,
            forall|k: int| 0 < k < spans@.len() ==> (#[trigger] spans@[k]).style != spans@[k - 1].style,
            spans@.len() > 0 ==> spans@.last().style != style,
        decreases n - i,
    {
        let (c, st) = cells[i];
        let ghost prefix = cells@.take(i as int);
        assert(cells@.take(i + 1) =~= prefix.push((c, st)));
        if i == 0 {
            proof {
                lemma_run_cells_push(cur@, c, st);
                assert(span_cells(spans@) =~= Seq::<Cell>::empty());
            }
            crate::text::push_char(&mut cur, c);
            style = st;
        } else if st == style {
            proof {
                lemma_run_cells_push(cur@, c, style);
            }
            crate::text::push_char(&mut cur, c);
        } else {
            let ghost old_spans = spans@;
            let done = RenderSpan { text: cur, style };
            spans.push(done);
            proof {
                lemma_span_cells_push(old_spans, done);
                lemma_run_cells_push(Seq::<char>::empty(), c, st);
                assert(Seq::<char>::empty().push(c) =~= seq![c]);
                assert(run_cells(Seq::<char>::empty(), st) =~= Seq::<Cell>::empty());
            }
            cur = String::new();
            crate::text::push_char(&mut cur, c);
            style = st;
        }
        i = i + 1;
    }
    let ghost old_spans = spans@;
    let last = RenderSpan { text: cur, style };
    spans.push(last);
    proof {
        lemma_span_cells_push(old_spans, last);
    }
    assert(cells@.take(n as int) =~= cells@);
    RenderLine { spans }
}

/// Draws the logical lines of a pane, one per row, with their hints.
pub fn render_inline_hints(lines: &[String], assignments: &HintAssignments, width: u16, height: u16) -> (r: Vec<RenderLine>)
    ensures
        r@.len() == row_count(width as nat, height as nat),
        forall|i: int| 0 <= i < r@.len() ==> draws(#[trigger] r@[i], inline_row(views(lines@), assignments.entries@, i as nat, width as nat)),
{
    let mut out: Vec<RenderLine> = Vec::new();
    if width == 0 || height == 0 {
        return out;
    }
    let mut r: usize = 0;
    while r < height as usize
        invariant
            width > 0,
            r <= height,
            out@.len() == r,
            forall|i: int| 0 <= i < r ==> draws(#[trigger] out@[i], inline_row(views(lines@), assignments.entries@, i as nat, width as nat)),
        decreases height - r,
    {
        let styled = if r < lines.len() {
            styled_cells(lines[r].as_str(), &assignments.entries, r)
        } else {
            Vec::new()
        };
        let fitted = fit_cells_exec(&styled, width as usize);
        out.push(group_cells(&fitted));
        r = r + 1;
    }
    out
}

/// Draws the rows of a viewport with the hints of their logical lines.
pub fn render_visible_inline_hints(viewport: &VisibleViewport, assignments: &HintAssignments, width: u16, height: u16) -> (r: Vec<RenderLine>)
    ensures
        r@.len() == row_count(width as nat, height as nat),
        forall|i: int| 0 <= i < r@.len() ==> draws(#[trigger] r@[i], viewport_row(*viewport, assignments.entries@, i as nat, width as nat)),
{
    let mut out: Vec<RenderLine> = Vec::new();
    if width == 0 || height == 0 {
        return out;
    }
    let mut r: usize = 0;
    while r < height as usize
        invariant
            width > 0,
            r <= height,
            out@.len() == r,
            forall|i: int| 0 <= i < r ==> draws(#[trigger] out@[i], viewport_row(*viewport, assignments.entries@, i as nat, width as nat)),
        decreases height - r,
    {
        let piece: Vec<Cell> = if r < viewport.segments.len() {
            let seg = viewport.segments[r];
            let styled = if seg.line < viewport.logical_lines.len() {
                styled_cells(viewport.logical_lines[seg.line].as_str(), &assignments.entries, seg.line)
            } else {
                Vec::new()
            };
            let len = styled.len();
            let (lo, hi) = if seg.start >= len {
                (len, len)
            } else if seg.len <= len - seg.start {
                (seg.start, seg.start + seg.len)
            } else {
                (seg.start, len)
            };
            let mut part: Vec<Cell> = Vec::new();
            let mut p: usize = lo;
            while p < hi
                invariant
                    lo <= p <= hi <= styled@.len(),
                    part@ == styled@.subrange(lo as int, p as int),
                decreases hi - p,
            {
                part.push(styled[p]);
                assert(styled@.subrange(lo as int, p + 1) =~= styled@.subrange(lo as int, p as int).push(styled@[p as int]));
                p = p + 1;
            }
            assert(part@ == clip(styled@, seg.start as nat, seg.len as nat));
            part
        } else {
            Vec::new()
        };
        let fitted = fit_cells_exec(&piece, width as usize);
        out.push(group_cells(&fitted));
        r = r + 1;
    }
    out
}

/// Every drawn row is exactly as wide as the pane.
pub proof fn lemma_rows_fill_width(cells: Seq<Cell>, width: nat)
    ensures
        fit_cells(cells, width).len() == width,
{
}

/// Hint `e` covers position `p` of its line: inside its match, or under its hint
/// letters, which are written from the match's start.
pub open spec fn covers(e: HintAssignment, p: int) -> bool {
    e.span.start <= p && (p < e.span.end || p < e.span.start + e.hint@.len())
}

/// A hint is drawn only on its own match's line: in the drawn line `li`, a cell is
/// styled as a hint or a match only where a hint whose match is on line `li`
/// covers it, and every other cell is the line's own character, unmatched. A line
/// that no match is on is drawn as its plain characters.
pub proof fn lemma_hints_stay_on_their_line(line: Seq<char>, entries: Seq<HintAssignment>, li: nat)
    ensures
        styled_line(line, entries, li).len() == line.len(),
        forall|p: int| 0 <= p < line.len() && (#[trigger] styled_line(line, entries, li)[p]).1 != RenderStyle::Unmatched
            ==> exists|j: int| 0 <= j < entries.len() && (#[trigger] entries[j]).span.line == li && covers(entries[j], p),
        forall|p: int| 0 <= p < line.len() && (#[trigger] styled_line(line, entries, li)[p]).1 == RenderStyle::Unmatched
            ==> styled_line(line, entries, li)[p].0 == line[p],
        (forall|j: int| 0 <= j < entries.len() ==> (#[trigger] entries[j]).span.line != li) ==> styled_line(line, entries, li)
            == plain_cells(line),
    decreases entries.len(),
{
    let cur = styled_line(line, entries, li);
    if entries.len() > 0 {
        let prev_entries = entries.drop_last();
        let prev = styled_line(line, prev_entries, li);
        lemma_hints_stay_on_their_line(line, prev_entries, li);
        let e = entries.last();
        assert forall|p: int| 0 <= p < line.len() && (#[trigger] styled_line(line, entries, li)[p]).1 != RenderStyle::Unmatched
            implies exists|j: int| 0 <= j < entries.len() && (#[trigger] entries[j]).span.line == li && covers(entries[j], p) by {
            if e.span.line == li && covers(e, p) {
                assert(entries[entries.len() - 1] == e);
            } else {
                assert(cur[p] == prev[p]);
                let j = choose|j: int| 0 <= j < prev_entries.len() && (#[trigger] prev_entries[j]).span.line == li && covers(prev_entries[j], p);
                assert(entries[j] == prev_entries[j]);
            }
        }
        if forall|j: int| 0 <= j < entries.len() ==> (#[trigger] entries[j]).span.line != li {
            assert forall|j: int| 0 <= j < prev_entries.len() implies (#[trigger] prev_entries[j]).span.line != li by {
                assert(prev_entries[j] == entries[j]);
            }
            assert(entries[entries.len() - 1] == e);
        }
    } else {
        assert(cur == plain_cells(line));
    }
}

/// In every drawn row of a pane shown line by line, a cell is styled as a hint or
/// a match only where a hint whose match is on that row's line covers it.
pub proof fn lemma_inline_row_hints_on_own_line(lines: Seq<Seq<char>>, entries: Seq<HintAssignment>, r: nat, width: nat)
    ensures
        forall|p: int| 0 <= p < width && (#[trigger] inline_row(lines, entries, r, width)[p]).1 != RenderStyle::Unmatched
            ==> exists|j: int| 0 <= j < entries.len() && (#[trigger] entries[j]).span.line == r && covers(entries[j], p),
{
    if r < lines.len() {
        let cells = styled_line(lines[r as int], entries, r);
        lemma_hints_stay_on_their_line(lines[r as int], entries, r);
        assert forall|p: int| 0 <= p < width && (#[trigger] inline_row(lines, entries, r, width)[p]).1 != RenderStyle::Unmatched
            implies exists|j: int| 0 <= j < entries.len() && (#[trigger] entries[j]).span.line == r && covers(entries[j], p) by {
            if p < cells.len() {
                assert(inline_row(lines, entries, r, width)[p] == cells[p]);
            }
        }
    }
}

/// In every drawn row of a viewport, a cell is styled as a hint or a match only
/// where a hint whose match is on the row's logical line covers the character the
/// cell shows.
pub proof fn lemma_viewport_row_hints_on_own_line(v: VisibleViewport, entries: Seq<HintAssignment>, r: nat, width: nat)
    requires
        r < v.segments@.len(),
    ensures
        forall|p: int| 0 <= p < width && (#[trigger] viewport_row(v, entries, r, width)[p]).1 != RenderStyle::Unmatched
            ==> exists|j: int| 0 <= j < entries.len() && (#[trigger] entries[j]).span.line == v.segments@[r as int].line
                && covers(entries[j], v.segments@[r as int].start + p),
{
    let seg = v.segments@[r as int];
    if seg.line < v.logical_lines@.len() {
        let line = v.logical_lines@[seg.line as int]@;
        let styled = styled_line(line, entries, seg.line as nat);
        lemma_hints_stay_on_their_line(line, entries, seg.line as nat);
        let piece = clip(styled, seg.start as nat, seg.len as nat);
        assert forall|p: int| 0 <= p < width && (#[trigger] viewport_row(v, entries, r, width)[p]).1 != RenderStyle::Unmatched
            implies exists|j: int| 0 <= j < entries.len() && (#[trigger] entries[j]).span.line == seg.line
                && covers(entries[j], seg.start + p) by {
            if p < piece.len() {
                assert(viewport_row(v, entries, r, width)[p] == piece[p]);
                assert(piece[p] == styled[seg.start + p]);
            }
        }
    }
}

} // verus!
