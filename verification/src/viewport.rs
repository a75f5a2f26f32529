//! Wrapping captured lines into the rows a pane of a given size shows.

use crate::model::{ViewportSegment, VisibleViewport};
use crate::text::{chars_of, views};
use vstd::prelude::*;

verus! {

/// A row as (logical line, first character, number of characters).
pub open spec fn seg_view(s: ViewportSegment) -> (nat, nat, nat) {
    (s.line as nat, s.start as nat, s.len as nat)
}

pub open spec fn seg_views(v: Seq<ViewportSegment>) -> Seq<(nat, nat, nat)> {
    v.map_values(|s: ViewportSegment| seg_view(s))
}

/// The rows of logical line `line` from character `start` on, for a line of `n`
/// characters wrapped at `width` columns. An empty line still takes one row.
pub open spec fn line_rows(line: nat, start: nat, n: nat, width: nat) -> Seq<(nat, nat, nat)>
    decreases n - start,
{
    if width == 0 {
        Seq::empty()
    } else if n <= start + width {
        seq![(line, start, (n - start) as nat)]
    } else {
        seq![(line, start, width)] + line_rows(line, start + width, n, width)
    }
}

/// The rows of all lines, given their lengths, in order.
pub open spec fn all_rows(lens: Seq<nat>, width: nat) -> Seq<(nat, nat, nat)>
    decreases lens.len(),
{
    if lens.len() == 0 {
        Seq::empty()
    } else {
        all_rows(lens.drop_last(), width) + line_rows((lens.len() - 1) as nat, 0, lens.last(), width)
    }
}

pub open spec fn line_lengths(lines: Seq<Seq<char>>) -> Seq<nat> {
    lines.map_values(|l: Seq<char>| l.len())
}

/// The rows that a pane `height` rows tall shows: the first ones.
pub open spec fn visible_rows(lines: Seq<Seq<char>>, width: nat, height: nat) -> Seq<(nat, nat, nat)> {
    let rows = all_rows(line_lengths(lines), width);
    if rows.len() <= height {
        rows
    } else {
        rows.take(height as int)
    }
}

/// `v` shows `lines` wrapped at `width` columns, in at most `height` rows.
pub open spec fn viewport_of(v: VisibleViewport, lines: Seq<Seq<char>>, width: nat, height: nat) -> bool {
    &&& views(v.logical_lines@) == lines
    &&& seg_views(v.segments@) == visible_rows(lines, width, height)
    &&& v.rows@.len() == v.segments@.len()
    &&& forall|i: int| 0 <= i < v.rows@.len() ==> {
        let (l, s, n) = seg_view(#[trigger] v.segments@[i]);
        v.rows@[i]@ == lines[l as int].subrange(s as int, (s + n) as int)
    }
}

pub proof fn lemma_line_rows_in_line(line: nat, start: nat, n: nat, width: nat)
    requires
        start <= n,
    ensures
        forall|k: int| 0 <= k < line_rows(line, start, n, width).len() ==> {
            let (l, s, c) = #[trigger] line_rows(line, start, n, width)[k];
            l == line && s + c <= n && c <= width
        },
    decreases n - start,
{
    if width != 0 && n > start + width {
        lemma_line_rows_in_line(line, start + width, n, width);
        let rest = line_rows(line, start + width, n, width);
        assert forall|k: int| 0 <= k < line_rows(line, start, n, width).len() implies {
            let (l, s, c) = #[trigger] line_rows(line, start, n, width)[k];
            l == line && s + c <= n && c <= width
        } by {
            if k > 0 {
                assert(line_rows(line, start, n, width)[k] == rest[k - 1]);
            }
        }
    }
}

pub proof fn lemma_all_rows_in_lines(lens: Seq<nat>, width: nat)
    ensures
        forall|k: int| 0 <= k < all_rows(lens, width).len() ==> {
            let (l, s, c) = #[trigger] all_rows(lens, width)[k];
            l < lens.len() && s + c <= lens[l as int] && c <= width
        },
    decreases lens.len(),
{
    if lens.len() > 0 {
        let prev = all_rows(lens.drop_last(), width);
        let last = line_rows((lens.len() - 1) as nat, 0, lens.last(), width);
        lemma_all_rows_in_lines(lens.drop_last(), width);
        lemma_line_rows_in_line((lens.len() - 1) as nat, 0, lens.last(), width);
        assert forall|k: int| 0 <= k < all_rows(lens, width).len() implies {
            let (l, s, c) = #[trigger] all_rows(lens, width)[k];
            l < lens.len() && s + c <= lens[l as int] && c <= width
        } by {
            if k < prev.len() {
                assert(all_rows(lens, width)[k] == prev[k]);
            } else {
                assert(all_rows(lens, width)[k] == last[k - prev.len()]);
            }
        }
    }
}

/// A viewport never shows more rows than the pane is tall, nor a row wider than the pane.
pub proof fn lemma_viewport_fits(v: VisibleViewport, lines: Seq<Seq<char>>, width: nat, height: nat)
    requires
        viewport_of(v, lines, width, height),
    ensures
        v.rows@.len() <= height,
        forall|i: int| 0 <= i < v.rows@.len() ==> (#[trigger] v.rows@[i])@.len() <= width,
{
    lemma_all_rows_in_lines(line_lengths(lines), width);
    let rows = all_rows(line_lengths(lines), width);
    assert(seg_views(v.segments@).len() == v.segments@.len());
    assert forall|i: int| 0 <= i < v.rows@.len() implies (#[trigger] v.rows@[i])@.len() <= width by {
        assert(seg_views(v.segments@)[i] == seg_view(v.segments@[i]));
        assert(visible_rows(lines, width, height)[i] == rows[i]);
        let (l, s, c) = rows[i];
        assert(line_lengths(lines)[l as int] == lines[l as int].len());
    }
}

/// Wraps the captured lines of a pane into the rows it shows.
pub fn map_visible_viewport(lines: Vec<String>, width: u16, height: u16) -> (r: VisibleViewport)
    ensures
        viewport_of(r, views(lines@), width as nat, height as nat),
{
    let ghost lv = views(lines@);
    let w = width as usize;
    let mut line_chars: Vec<Vec<char>> = Vec::new();
    let mut segments: Vec<ViewportSegment> = Vec::new();
    let mut j: usize = 0;
    while j < lines.len()
        invariant
            j <= lines@.len(),
            lv == views(lines@),
            w == width as nat,
            line_chars@.len() == j,
            forall|k: int| 0 <= k < j ==> (#[trigger] line_chars@[k])@ == lv[k],
            seg_views(segments@) == all_rows(line_lengths(lv).take(j as int), w as nat),
        decreases lines@.len() - j,
    {
        let chars = chars_of(lines[j].as_str());
        let n = chars.len();
        let ghost before = seg_views(segments@);
        assert(line_lengths(lv).take(j + 1).drop_last() == line_lengths(lv).take(j as int));
        assert(line_lengths(lv).take(j + 1).last() == n);
        if w > 0 {
            let mut start: usize = 0;
            loop
                invariant_except_break
                    w > 0,
                    start <= n,
                    seg_views(segments@) + line_rows(j as nat, start as nat, n as nat, w as nat)
                        == before + line_rows(j as nat, 0, n as nat, w as nat),
                ensures
                    seg_views(segments@) == before + line_rows(j as nat, 0, n as nat, w as nat),
                decreases n - start,
            {
                let ghost cur = seg_views(segments@);
                if n - start <= w {
                    segments.push(ViewportSegment { line: j, start, len: n - start });
                    assert(seg_views(segments@) =~= cur.push((j as nat, start as nat, (n - start) as nat)));
                    assert(seg_views(segments@) =~= cur + line_rows(j as nat, start as nat, n as nat, w as nat));
                    break;
                }
                segments.push(ViewportSegment { line: j, start, len: w });
                assert(seg_views(segments@) =~= cur.push((j as nat, start as nat, w as nat)));
                assert(cur + line_rows(j as nat, start as nat, n as nat, w as nat)
                    =~= seg_views(segments@) + line_rows(j as nat, (start + w) as nat, n as nat, w as nat));
                start = start + w;
            }
        } else {
            assert(line_rows(j as nat, 0, n as nat, w as nat) =~= Seq::<(nat, nat, nat)>::empty());
            assert(seg_views(segments@) =~= before + line_rows(j as nat, 0, n as nat, w as nat));
        }
        assert(all_rows(line_lengths(lv).take(j + 1), w as nat) == all_rows(line_lengths(lv).take(j as int), w as nat)
            + line_rows(j as nat, 0, n as nat, w as nat));
        line_chars.push(chars);
        j = j + 1;
    }
    assert(line_lengths(lv).take(lines@.len() as int) == line_lengths(lv));
    proof {
        lemma_all_rows_in_lines(line_lengths(lv), w as nat);
    }
    let keep: usize = if segments.len() <= height as usize { segments.len() } else { height as usize };
    let mut kept: Vec<ViewportSegment> = Vec::new();
    let mut rows: Vec<String> = Vec::new();
    let mut i: usize = 0;
    while i < keep
        invariant
            keep <= segments@.len(),
            i <= keep,
            lv == views(lines@),
            line_chars@.len() == lines@.len(),
            forall|k: int| 0 <= k < lines@.len() ==> (#[trigger] line_chars@[k])@ == lv[k],
            seg_views(segments@) == all_rows(line_lengths(lv), w as nat),
            forall|k: int| 0 <= k < seg_views(segments@).len() ==> {
                let (l, s, c) = #[trigger] seg_views(segments@)[k];
                l < lv.len() && s + c <= lv[l as int].len()
            },
            seg_views(kept@) == seg_views(segments@).take(i as int),
            rows@.len() == i,
            forall|k: int| 0 <= k < i ==> {
                let (l, s, n) = seg_view(#[trigger] kept@[k]);
                rows@[k]@ == lv[l as int].subrange(s as int, (s + n) as int)
            },
        decreases keep - i,
    {
        let seg = segments[i];
        assert(seg_views(segments@)[i as int] == seg_view(seg));
        let chars = &line_chars[seg.line];
        let clen = chars.len();
        assert(seg.start + seg.len <= clen);
        let end = seg.start + seg.len;
        let mut row = String::new();
        let mut p: usize = seg.start;
        while p < end
            invariant
                end == seg.start + seg.len,
                end <= chars@.len(),
                seg.start <= p <= end,
                row@ == chars@.subrange(seg.start as int, p as int),
            decreases end - p,
        {
            crate::text::push_char(&mut row, chars[p]);
            assert(chars@.subrange(seg.start as int, p + 1) == chars@.subrange(seg.start as int, p as int).push(chars@[p as int]));
            p = p + 1;
        }
        let ghost old_kept = kept@;
        rows.push(row);
        kept.push(seg);
        assert(seg_views(kept@) =~= seg_views(old_kept).push(seg_view(seg)));
        assert(seg_views(kept@) =~= seg_views(segments@).take(i + 1));
        i = i + 1;
    }
    let mut logical_lines: Vec<String> = Vec::new();
    let mut k: usize = 0;
    while k < lines.len()
        invariant
            k <= lines@.len(),
            views(logical_lines@) == views(lines@).take(k as int),
        decreases lines@.len() - k,
    {
        let ghost old_logical = logical_lines@;
        logical_lines.push(lines[k].clone());
        assert(views(logical_lines@) =~= views(old_logical).push(lines@[k as int]@));
        assert(views(logical_lines@) =~= views(lines@).take(k + 1));
        k = k + 1;
    }
    assert(views(lines@).take(lines@.len() as int) =~= views(lines@));
    assert(seg_views(segments@).take(keep as int) == visible_rows(lv, width as nat, height as nat));
    VisibleViewport { rows, logical_lines, segments: kept }
}

/// Wrapping a line: the part from `start` on of a line of `n` characters, at a
/// positive `width`, takes the smallest number of rows that holds it, one row when
/// nothing is left; row `k` starts `k` widths on and holds a full width, or the rest.
/// So no row of a non-empty line is empty, and a line of exactly `width`
/// characters takes one row.
pub proof fn lemma_line_rows_closed_form(line: nat, start: nat, n: nat, width: nat)
    requires
        width > 0,
        start <= n,
    ensures
        n == start ==> line_rows(line, start, n, width).len() == 1,
        n > start ==> {
            let m = line_rows(line, start, n, width).len();
            &&& m * width >= n - start
            &&& (m - 1) * width < n - start
        },
        forall|k: int| 0 <= k < line_rows(line, start, n, width).len() ==> {
            let (l, s, c) = #[trigger] line_rows(line, start, n, width)[k];
            &&& l == line
            &&& s == start + k * width
            &&& c == if n - s >= width { width } else { (n - s) as nat }
            &&& n > start ==> c > 0
        },
    decreases n - start,
{
    let rows = line_rows(line, start, n, width);
    if n <= start + width {
        assert(rows.len() == 1);
        assert(rows[0] == (line, start, (n - start) as nat));
        assert(0 * width == 0) by (nonlinear_arith);
        assert(1 * width == width) by (nonlinear_arith);
    } else {
        let rest = line_rows(line, start + width, n, width);
        lemma_line_rows_closed_form(line, start + width, n, width);
        assert(rows == seq![(line, start, width)] + rest);
        let m2 = rest.len();
        assert(m2 >= 1);
        assert((m2 + 1) * width == m2 * width + width) by (nonlinear_arith);
        assert(((m2 + 1) - 1) * width == m2 * width) by (nonlinear_arith);
        assert((m2 - 1) * width + width == m2 * width) by (nonlinear_arith)
            requires
                m2 >= 1;
        assert forall|k: int| 0 <= k < rows.len() implies {
            let (l, s, c) = #[trigger] rows[k];
            &&& l == line
            &&& s == start + k * width
            &&& c == if n - s >= width { width } else { (n - s) as nat }
            &&& n > start ==> c > 0
        } by {
            if k == 0 {
                assert(rows[0] == (line, start, width));
                assert(0 * width == 0) by (nonlinear_arith);
            } else {
                assert(rows[k] == rest[k - 1]);
                assert(start + width + (k - 1) * width == start + k * width) by (nonlinear_arith);
            }
        }
    }
}

/// Every row of a viewport shows a non-empty piece of its line, unless the line is empty.
pub proof fn lemma_rows_of_nonempty_lines_are_nonempty(lens: Seq<nat>, width: nat)
    requires
        width > 0,
    ensures
        forall|k: int| 0 <= k < all_rows(lens, width).len() ==> {
            let (l, s, c) = #[trigger] all_rows(lens, width)[k];
            l < lens.len() && (lens[l as int] > 0 ==> c > 0)
        },
    decreases lens.len(),
{
    if lens.len() > 0 {
        let prev = all_rows(lens.drop_last(), width);
        let last = line_rows((lens.len() - 1) as nat, 0, lens.last(), width);
        lemma_rows_of_nonempty_lines_are_nonempty(lens.drop_last(), width);
        lemma_line_rows_closed_form((lens.len() - 1) as nat, 0, lens.last(), width);
        assert forall|k: int| 0 <= k < all_rows(lens, width).len() implies {
            let (l, s, c) = #[trigger] all_rows(lens, width)[k];
            l < lens.len() && (lens[l as int] > 0 ==> c > 0)
        } by {
            if k < prev.len() {
                assert(all_rows(lens, width)[k] == prev[k]);
                let (l, s, c) = prev[k];
                assert(lens.drop_last()[l as int] == lens[l as int]);
            } else {
                assert(all_rows(lens, width)[k] == last[k - prev.len()]);
            }
        }
    }
}

/// In a viewport of positive width, a row that shows a non-empty line is itself
/// non-empty: a line never leaves a blank row behind it.
pub proof fn lemma_viewport_rows_of_nonempty_lines(v: VisibleViewport, lines: Seq<Seq<char>>, width: nat, height: nat)
    requires
        width > 0,
        viewport_of(v, lines, width, height),
    ensures
        forall|i: int| 0 <= i < v.rows@.len() && lines[v.segments@[i].line as int].len() > 0 ==> (#[trigger] v.rows@[i])@.len() > 0,
{
    lemma_rows_of_nonempty_lines_are_nonempty(line_lengths(lines), width);
    lemma_all_rows_in_lines(line_lengths(lines), width);
    let rows = all_rows(line_lengths(lines), width);
    assert(seg_views(v.segments@).len() == v.segments@.len());
    assert forall|i: int| 0 <= i < v.rows@.len() && lines[v.segments@[i].line as int].len() > 0 implies (#[trigger] v.rows@[i])@.len() > 0 by {
        assert(seg_views(v.segments@)[i] == seg_view(v.segments@[i]));
        assert(visible_rows(lines, width, height)[i] == rows[i]);
        let (l, s, c) = rows[i];
        assert(line_lengths(lines)[l as int] == lines[l as int].len());
    }
}

} // verus!
