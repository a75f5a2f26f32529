//! The layout of the source tab as Herdr reports it, and the panes derived from it.

use crate::model::{LayoutNode, PaneId, Rect, SourcePaneGeometry, SplitDirection, SplitRatio};
use crate::error::PluckError;
use crate::herdr::launch::LaunchSupport;
use vstd::prelude::*;
use vstd::string::StringExecFns;

verus! {

/// A pane of the source tab.
#[derive(Debug, Clone, PartialEq, Eq)]
pub struct LayoutPane {
    pub focused: bool,
    pub pane_id: String,
    pub rect: Rect,
}

/// A split of the source tab.
#[derive(Debug, Clone, PartialEq, Eq)]
pub struct LayoutSplit {
    pub direction: SplitDirection,
    pub ratio: SplitRatio,
    pub rect: Rect,
}

/// The layout of the tab that holds the target pane.
#[derive(Debug, Clone, PartialEq, Eq)]
pub struct LayoutSnapshot {
    pub area: Rect,
    pub focused_pane_id: Option<String>,
    pub panes: Vec<LayoutPane>,
    pub splits: Vec<LayoutSplit>,
    pub tab_id: Option<String>,
    pub workspace_id: Option<String>,
    pub zoomed: bool,
}

/// The geometry of a pane before its text is captured: content is the whole pane.
pub open spec fn pane_geometry(pane: LayoutPane, g: SourcePaneGeometry) -> bool {
    &&& g.pane_id.0@ == pane.pane_id@
    &&& g.outer_rect == pane.rect
    &&& g.content_rect == pane.rect
    &&& g.content_width == pane.rect.width
    &&& g.content_height == pane.rect.height
}

/// One geometry per pane of the layout, in layout order, with no text captured yet.
pub fn derive_source_pane_geometries(layout: &LayoutSnapshot) -> (r: Vec<SourcePaneGeometry>)
    ensures
        r@.len() == layout.panes@.len(),
        forall|i: int| 0 <= i < r@.len() ==> {
            &&& pane_geometry(layout.panes@[i], #[trigger] r@[i])
            &&& r@[i].logical_lines@.len() == 0
            &&& r@[i].visible_viewport is None
            &&& r@[i].cwd is None
        },
{
    let mut out: Vec<SourcePaneGeometry> = Vec::new();
    let mut i: usize = 0;
    while i < layout.panes.len()
        invariant
            i <= layout.panes@.len(),
            out@.len() == i,
            forall|j: int| 0 <= j < i ==> {
                &&& pane_geometry(layout.panes@[j], #[trigger] out@[j])
                &&& out@[j].logical_lines@.len() == 0
                &&& out@[j].visible_viewport is None
                &&& out@[j].cwd is None
            },
        decreases layout.panes@.len() - i,
    {
        let pane = &layout.panes[i];
        out.push(SourcePaneGeometry {
            pane_id: PaneId(pane.pane_id.clone()),
            outer_rect: pane.rect,
            content_rect: pane.rect,
            content_width: pane.rect.width,
            content_height: pane.rect.height,
            logical_lines: Vec::new(),
            visible_viewport: None,
            cwd: None,
        });
        i = i + 1;
    }
    out
}

} // verus!

verus! {

/// The rectangle of the pane at position `k` of `idx`.
pub open spec fn pane_rect(panes: Seq<LayoutPane>, idx: Seq<usize>, k: int) -> Rect {
    panes[idx[k] as int].rect
}

/// `r` is the smallest rectangle that holds the panes at `idx`.
pub open spec fn is_bounding_box(panes: Seq<LayoutPane>, idx: Seq<usize>, r: Rect) -> bool {
    &&& forall|k: int| 0 <= k < idx.len() ==> {
        let p = #[trigger] pane_rect(panes, idx, k);
        &&& r.x <= p.x
        &&& r.y <= p.y
        &&& p.x + p.width <= r.x + r.width
        &&& p.y + p.height <= r.y + r.height
    }
    &&& exists|k: int| 0 <= k < idx.len() && (#[trigger] pane_rect(panes, idx, k)).x == r.x
    &&& exists|k: int| 0 <= k < idx.len() && (#[trigger] pane_rect(panes, idx, k)).y == r.y
    &&& exists|k: int| 0 <= k < idx.len() && (#[trigger] pane_rect(panes, idx, k)).x + pane_rect(panes, idx, k).width == r.x + r.width
    &&& exists|k: int| 0 <= k < idx.len() && (#[trigger] pane_rect(panes, idx, k)).y + pane_rect(panes, idx, k).height == r.y + r.height
}

/// The elements of `s` whose mark in `mask` is `side`, in order.
pub open spec fn select(s: Seq<usize>, mask: Seq<bool>, side: bool) -> Seq<usize>
    decreases s.len(),
{
    if s.len() == 0 || mask.len() != s.len() {
        Seq::empty()
    } else {
        select(s.drop_last(), mask.drop_last(), side) + if mask.last() == side { seq![s.last()] } else { Seq::empty() }
    }
}

/// `node` recreates the panes at `idx`: a single pane is a leaf; several panes are
/// split by the first split of the layout that covers exactly their bounding box,
/// into two non-empty groups, in order, each recreated in turn.
pub open spec fn recreates(panes: Seq<LayoutPane>, splits: Seq<LayoutSplit>, idx: Seq<usize>, node: LayoutNode) -> bool
    decreases node,
{
    match node {
        LayoutNode::Pane { source_pane_id, rect } => {
            &&& idx.len() == 1
            &&& source_pane_id.0@ == panes[idx[0] as int].pane_id@
            &&& rect == panes[idx[0] as int].rect
        },
        LayoutNode::Split { direction, ratio, first, second, rect } => {
            &&& idx.len() >= 2
            &&& exists|j: int|
                #![trigger splits[j]]
                {
                    &&& 0 <= j < splits.len()
                    &&& is_bounding_box(panes, idx, splits[j].rect)
                    &&& forall|i: int| 0 <= i < j ==> !is_bounding_box(panes, idx, #[trigger] splits[i].rect)
                    &&& rect == splits[j].rect
                    &&& direction == splits[j].direction
                    &&& ratio == splits[j].ratio
                }
            &&& exists|mask: Seq<bool>|
                #![trigger select(idx, mask, true)]
                {
                    &&& mask.len() == idx.len()
                    &&& select(idx, mask, true).len() > 0
                    &&& select(idx, mask, false).len() > 0
                    &&& recreates(panes, splits, select(idx, mask, true), *first)
                    &&& recreates(panes, splits, select(idx, mask, false), *second)
                }
        },
    }
}

/// The edges of the bounding box of the panes at `idx`: left, top, right and bottom.
fn bounds(panes: &Vec<LayoutPane>, idx: &Vec<usize>) -> (r: (u16, u16, u32, u32))
    requires
        idx@.len() >= 1,
        forall|k: int| 0 <= k < idx@.len() ==> #[trigger] idx@[k] < panes@.len(),
    ensures
        forall|k: int| 0 <= k < idx@.len() ==> {
            let p = #[trigger] pane_rect(panes@, idx@, k);
            &&& r.0 <= p.x
            &&& r.1 <= p.y
            &&& p.x + p.width <= r.2
            &&& p.y + p.height <= r.3
        },
        exists|k: int| 0 <= k < idx@.len() && (#[trigger] pane_rect(panes@, idx@, k)).x == r.0,
        exists|k: int| 0 <= k < idx@.len() && (#[trigger] pane_rect(panes@, idx@, k)).y == r.1,
        exists|k: int| 0 <= k < idx@.len() && (#[trigger] pane_rect(panes@, idx@, k)).x + pane_rect(panes@, idx@, k).width == r.2,
        exists|k: int| 0 <= k < idx@.len() && (#[trigger] pane_rect(panes@, idx@, k)).y + pane_rect(panes@, idx@, k).height == r.3,
{
    let first = panes[idx[0]].rect;
    let mut left: u16 = first.x;
    let mut top: u16 = first.y;
    let mut right: u32 = first.x as u32 + first.width as u32;
    let mut bottom: u32 = first.y as u32 + first.height as u32;
    let ghost mut wl: int = 0;
    let ghost mut wt: int = 0;
    let ghost mut wr: int = 0;
    let ghost mut wb: int = 0;
    let mut k: usize = 1;
    while k < idx.len()
        invariant
            1 <= k <= idx@.len(),
            forall|i: int| 0 <= i < idx@.len() ==> #[trigger] idx@[i] < panes@.len(),
            forall|i: int| 0 <= i < k ==> {
                let p = #[trigger] pane_rect(panes@, idx@, i);
                &&& left <= p.x
                &&& top <= p.y
                &&& p.x + p.width <= right
                &&& p.y + p.height <= bottom
            },
            0 <= wl < k && pane_rect(panes@, idx@, wl).x == left,
            0 <= wt < k && pane_rect(panes@, idx@, wt).y == top,
            0 <= wr < k && pane_rect(panes@, idx@, wr).x + pane_rect(panes@, idx@, wr).width == right,
            0 <= wb < k && pane_rect(panes@, idx@, wb).y + pane_rect(panes@, idx@, wb).height == bottom,
        decreases idx@.len() - k,
    {
        let p = panes[idx[k]].rect;
        assert(p == pane_rect(panes@, idx@, k as int));
        if p.x < left {
            left = p.x;
            proof { wl = k as int; }
        }
        if p.y < top {
            top = p.y;
            proof { wt = k as int; }
        }
        if p.x as u32 + p.width as u32 > right {
            right = p.x as u32 + p.width as u32;
            proof { wr = k as int; }
        }
        if p.y as u32 + p.height as u32 > bottom {
            bottom = p.y as u32 + p.height as u32;
            proof { wb = k as int; }
        }
        k = k + 1;
    }
    (left, top, right, bottom)
}

/// The first split of the layout whose rectangle is the bounding box of the panes at `idx`.
fn find_split(layout: &LayoutSnapshot, idx: &Vec<usize>) -> (r: Option<usize>)
    requires
        idx@.len() >= 1,
        forall|k: int| 0 <= k < idx@.len() ==> #[trigger] idx@[k] < layout.panes@.len(),
    ensures
        match r {
            Some(j) => {
                &&& j < layout.splits@.len()
                &&& is_bounding_box(layout.panes@, idx@, layout.splits@[j as int].rect)
                &&& forall|i: int| 0 <= i < j ==> !is_bounding_box(layout.panes@, idx@, #[trigger] layout.splits@[i].rect)
            },
            None => forall|i: int|
                0 <= i < layout.splits@.len() ==> !is_bounding_box(layout.panes@, idx@, #[trigger] layout.splits@[i].rect),
        },
{
    let (left, top, right, bottom) = bounds(&layout.panes, idx);
    let ghost panes = layout.panes@;
    let mut j: usize = 0;
    while j < layout.splits.len()
        invariant
            j <= layout.splits@.len(),
            panes == layout.panes@,
            forall|k: int| 0 <= k < idx@.len() ==> {
                let p = #[trigger] pane_rect(panes, idx@, k);
                &&& left <= p.x
                &&& top <= p.y
                &&& p.x + p.width <= right
                &&& p.y + p.height <= bottom
            },
            exists|k: int| 0 <= k < idx@.len() && (#[trigger] pane_rect(panes, idx@, k)).x == left,
            exists|k: int| 0 <= k < idx@.len() && (#[trigger] pane_rect(panes, idx@, k)).y == top,
            exists|k: int| 0 <= k < idx@.len() && (#[trigger] pane_rect(panes, idx@, k)).x + pane_rect(panes, idx@, k).width == right,
            exists|k: int| 0 <= k < idx@.len() && (#[trigger] pane_rect(panes, idx@, k)).y + pane_rect(panes, idx@, k).height == bottom,
            forall|i: int| 0 <= i < j ==> !is_bounding_box(panes, idx@, #[trigger] layout.splits@[i].rect),
        decreases layout.splits@.len() - j,
    {
        let r = layout.splits[j].rect;
        if r.x == left && r.y == top && r.x as u32 + r.width as u32 == right && r.y as u32 + r.height as u32 == bottom {
            return Some(j);
        }
        proof {
            if is_bounding_box(panes, idx@, r) {
                let kl = choose|k: int| 0 <= k < idx@.len() && (#[trigger] pane_rect(panes, idx@, k)).x == left;
                let kt = choose|k: int| 0 <= k < idx@.len() && (#[trigger] pane_rect(panes, idx@, k)).y == top;
                let kr = choose|k: int| 0 <= k < idx@.len() && (#[trigger] pane_rect(panes, idx@, k)).x + pane_rect(panes, idx@, k).width == right;
                let kb = choose|k: int| 0 <= k < idx@.len() && (#[trigger] pane_rect(panes, idx@, k)).y + pane_rect(panes, idx@, k).height == bottom;
                let ml = choose|k: int| 0 <= k < idx@.len() && (#[trigger] pane_rect(panes, idx@, k)).x == r.x;
                let mt = choose|k: int| 0 <= k < idx@.len() && (#[trigger] pane_rect(panes, idx@, k)).y == r.y;
                let mr = choose|k: int| 0 <= k < idx@.len() && (#[trigger] pane_rect(panes, idx@, k)).x + pane_rect(panes, idx@, k).width == r.x + r.width;
                let mb = choose|k: int| 0 <= k < idx@.len() && (#[trigger] pane_rect(panes, idx@, k)).y + pane_rect(panes, idx@, k).height == r.y + r.height;
                assert(pane_rect(panes, idx@, kl).x == left);
                assert(pane_rect(panes, idx@, ml).x == r.x);
                assert(pane_rect(panes, idx@, kt).y == top);
                assert(pane_rect(panes, idx@, mt).y == r.y);
                assert(pane_rect(panes, idx@, kr).x + pane_rect(panes, idx@, kr).width == right);
                assert(pane_rect(panes, idx@, mr).x + pane_rect(panes, idx@, mr).width == r.x + r.width);
                assert(pane_rect(panes, idx@, kb).y + pane_rect(panes, idx@, kb).height == bottom);
                assert(pane_rect(panes, idx@, mb).y + pane_rect(panes, idx@, mb).height == r.y + r.height);
                assert(false);
            }
        }
        j = j + 1;
    }
    None
}

/// The message of a layout that cannot be recreated.
pub open spec fn cannot_recreate(e: PluckError) -> bool {
    e matches PluckError::Other(m) && m@ == "could not recreate the pane layout"@
}

fn could_not_recreate() -> (e: PluckError)
    ensures
        cannot_recreate(e),
{
    PluckError::Other(String::from_str("could not recreate the pane layout"))
}

/// One question put to the launch support while recreating a layout: whether
/// `pane` starts before the boundary that `split` draws across `region`, with the
/// support's answer.
pub ghost struct BoundaryQuestion {
    pub split: LayoutSplit,
    pub region: Rect,
    pub pane: Rect,
    pub answer: bool,
}

/// The support was asked whether `pane` starts before `split`'s boundary across
/// the split's own rectangle, and answered `answer`.
pub open spec fn answered(qs: Seq<BoundaryQuestion>, split: LayoutSplit, pane: Rect, answer: bool) -> bool {
    exists|t: int| 0 <= t < qs.len() && #[trigger] qs[t] == (BoundaryQuestion { split, region: split.rect, pane, answer })
}

/// Every question was about a split of the layout, across that split's own rectangle.
pub open spec fn well_posed(splits: Seq<LayoutSplit>, qs: Seq<BoundaryQuestion>) -> bool {
    forall|t: int| 0 <= t < qs.len() ==> {
        &&& (#[trigger] qs[t]).region == qs[t].split.rect
        &&& exists|j: int| 0 <= j < splits.len() && #[trigger] splits[j] == qs[t].split
    }
}

/// `node` recreates the panes at `idx` as `recreates` says, and every split of it
/// places each of its panes in its first child exactly as the support answered for
/// that pane and that split, across the split's own rectangle.
pub open spec fn recreates_by_answers(
    panes: Seq<LayoutPane>,
    splits: Seq<LayoutSplit>,
    idx: Seq<usize>,
    node: LayoutNode,
    qs: Seq<BoundaryQuestion>,
) -> bool
    decreases node,
{
    match node {
        LayoutNode::Pane { source_pane_id, rect } => {
            &&& idx.len() == 1
            &&& source_pane_id.0@ == panes[idx[0] as int].pane_id@
            &&& rect == panes[idx[0] as int].rect
        },
        LayoutNode::Split { direction, ratio, first, second, rect } => {
            &&& idx.len() >= 2
            &&& exists|j: int, mask: Seq<bool>|
                #![trigger splits[j], select(idx, mask, true)]
                {
                    &&& 0 <= j < splits.len()
                    &&& is_bounding_box(panes, idx, splits[j].rect)
                    &&& forall|i: int| 0 <= i < j ==> !is_bounding_box(panes, idx, #[trigger] splits[i].rect)
                    &&& rect == splits[j].rect
                    &&& direction == splits[j].direction
                    &&& ratio == splits[j].ratio
                    &&& mask.len() == idx.len()
                    &&& forall|t: int| 0 <= t < idx.len() ==> answered(qs, splits[j], panes[idx[t] as int].rect, #[trigger] mask[t])
                    &&& select(idx, mask, true).len() > 0
                    &&& select(idx, mask, false).len() > 0
                    &&& recreates_by_answers(panes, splits, select(idx, mask, true), *first, qs)
                    &&& recreates_by_answers(panes, splits, select(idx, mask, false), *second, qs)
                }
        },
    }
}

/// Every question of `qs` is also one of `more`.
pub open spec fn asked_in(qs: Seq<BoundaryQuestion>, more: Seq<BoundaryQuestion>) -> bool {
    forall|t: int| 0 <= t < qs.len() ==> exists|u: int| 0 <= u < more.len() && more[u] == #[trigger] qs[t]
}

proof fn lemma_by_answers_with_more(
    panes: Seq<LayoutPane>,
    splits: Seq<LayoutSplit>,
    idx: Seq<usize>,
    node: LayoutNode,
    qs: Seq<BoundaryQuestion>,
    more: Seq<BoundaryQuestion>,
)
    requires
        recreates_by_answers(panes, splits, idx, node, qs),
        asked_in(qs, more),
    ensures
        recreates_by_answers(panes, splits, idx, node, more),
    decreases node,
{
    match node {
        LayoutNode::Pane { .. } => {},
        LayoutNode::Split { direction, ratio, first, second, rect } => {
            let (j, mask) = choose|j: int, mask: Seq<bool>|
                #![trigger splits[j], select(idx, mask, true)]
                {
                    &&& 0 <= j < splits.len()
                    &&& is_bounding_box(panes, idx, splits[j].rect)
                    &&& forall|i: int| 0 <= i < j ==> !is_bounding_box(panes, idx, #[trigger] splits[i].rect)
                    &&& rect == splits[j].rect
                    &&& direction == splits[j].direction
                    &&& ratio == splits[j].ratio
                    &&& mask.len() == idx.len()
                    &&& forall|t: int| 0 <= t < idx.len() ==> answered(qs, splits[j], panes[idx[t] as int].rect, #[trigger] mask[t])
                    &&& select(idx, mask, true).len() > 0
                    &&& select(idx, mask, false).len() > 0
                    &&& recreates_by_answers(panes, splits, select(idx, mask, true), *first, qs)
                    &&& recreates_by_answers(panes, splits, select(idx, mask, false), *second, qs)
                };
            lemma_by_answers_with_more(panes, splits, select(idx, mask, true), *first, qs, more);
            lemma_by_answers_with_more(panes, splits, select(idx, mask, false), *second, qs, more);
            assert forall|t: int| 0 <= t < idx.len() implies answered(more, splits[j], panes[idx[t] as int].rect, #[trigger] mask[t]) by {
                let q = BoundaryQuestion { split: splits[j], region: splits[j].rect, pane: panes[idx[t] as int].rect, answer: mask[t] };
                let w = choose|w: int| 0 <= w < qs.len() && #[trigger] qs[w] == q;
                let u = choose|u: int| 0 <= u < more.len() && more[u] == #[trigger] qs[w];
                assert(more[u] == q);
            }
            assert(select(idx, mask, true) == select(idx, mask, true));
        },
    }
}

/// Asks the support on which side of `split`'s boundary across `region` the pane starts.
fn ask<S: LaunchSupport>(support: &S, split: &LayoutSplit, region: Rect, pane: Rect) -> (r: (bool, Ghost<BoundaryQuestion>))
    ensures
        r.1@ == (BoundaryQuestion { split: *split, region, pane, answer: r.0 }),
{
    let answer = support.starts_before_boundary(split, region, pane);
    (answer, Ghost(BoundaryQuestion { split: *split, region, pane, answer }))
}

/// Recreates the split tree of the panes at `idx`. The support says on which side
/// of a split's boundary each pane starts; the questions it was asked come back too.
fn build_node<S: LaunchSupport>(support: &S, layout: &LayoutSnapshot, idx: Vec<usize>) -> (r: (Result<LayoutNode, PluckError>, Ghost<Seq<BoundaryQuestion>>))
    requires
        idx@.len() >= 1,
        forall|k: int| 0 <= k < idx@.len() ==> #[trigger] idx@[k] < layout.panes@.len(),
    ensures
        idx@.len() == 1 ==> r.0 is Ok,
        idx@.len() >= 2 && (forall|i: int|
            0 <= i < layout.splits@.len() ==> !is_bounding_box(layout.panes@, idx@, #[trigger] layout.splits@[i].rect)) ==> r.0 is Err,
        r.0 matches Ok(node) ==> recreates(layout.panes@, layout.splits@, idx@, node),
        r.0 matches Ok(node) ==> recreates_by_answers(layout.panes@, layout.splits@, idx@, node, r.1@),
        well_posed(layout.splits@, r.1@),
        r.0 matches Err(e) ==> cannot_recreate(e),
    decreases idx@.len(),
{
    if idx.len() == 1 {
        let pane = &layout.panes[idx[0]];
        return (Ok(LayoutNode::Pane { source_pane_id: PaneId(pane.pane_id.clone()), rect: pane.rect }), Ghost(Seq::empty()));
    }
    let j = match find_split(layout, &idx) {
        Some(j) => j,
        None => return (Err(could_not_recreate()), Ghost(Seq::empty())),
    };
    let split = &layout.splits[j];
    let mut first: Vec<usize> = Vec::new();
    let mut second: Vec<usize> = Vec::new();
    let ghost mut mask: Seq<bool> = Seq::empty();
    let ghost mut own: Seq<BoundaryQuestion> = Seq::empty();
    let mut k: usize = 0;
    while k < idx.len()
        invariant
            k <= idx@.len(),
            j < layout.splits@.len(),
            split == layout.splits@[j as int],
            forall|i: int| 0 <= i < idx@.len() ==> #[trigger] idx@[i] < layout.panes@.len(),
            mask.len() == k,
            own.len() == k,
            forall|t: int| 0 <= t < k ==> #[trigger] own[t] == (BoundaryQuestion {
                split: layout.splits@[j as int],
                region: layout.splits@[j as int].rect,
                pane: layout.panes@[idx@[t] as int].rect,
                answer: mask[t],
            }),
            first@ == select(idx@.take(k as int), mask, true),
            second@ == select(idx@.take(k as int), mask, false),
            first@.len() + second@.len() == k,
            forall|i: int| 0 <= i < first@.len() ==> #[trigger] first@[i] < layout.panes@.len(),
            forall|i: int| 0 <= i < second@.len() ==> #[trigger] second@[i] < layout.panes@.len(),
        decreases idx@.len() - k,
    {
        let p = idx[k];
        let (before, Ghost(question)) = ask(support, split, split.rect, layout.panes[p].rect);
        let ghost old_mask = mask;
        proof {
            mask = mask.push(before);
            own = own.push(question);
            assert(idx@.take(k + 1).drop_last() =~= idx@.take(k as int));
            assert(mask.drop_last() =~= old_mask);
        }
        if before {
            first.push(p);
        } else {
            second.push(p);
        }
        k = k + 1;
    }
    assert(idx@.take(idx@.len() as int) =~= idx@);
    if first.len() == 0 || second.len() == 0 {
        return (Err(could_not_recreate()), Ghost(own));
    }
    let (a, Ghost(qa)) = build_node(support, layout, first);
    let (b, Ghost(qb)) = build_node(support, layout, second);
    let ghost all = own + qa + qb;
    proof {
        assert forall|t: int| 0 <= t < all.len() implies {
            &&& (#[trigger] all[t]).region == all[t].split.rect
            &&& exists|j2: int| 0 <= j2 < layout.splits@.len() && #[trigger] layout.splits@[j2] == all[t].split
        } by {
            if t < own.len() {
                assert(all[t] == own[t]);
                assert(layout.splits@[j as int] == all[t].split);
            } else if t < own.len() + qa.len() {
                assert(all[t] == qa[t - own.len()]);
            } else {
                assert(all[t] == qb[t - own.len() - qa.len()]);
            }
        }
        assert forall|t: int| 0 <= t < qa.len() implies exists|u: int| 0 <= u < all.len() && all[u] == #[trigger] qa[t] by {
            assert(all[own.len() + t] == qa[t]);
        }
        assert forall|t: int| 0 <= t < qb.len() implies exists|u: int| 0 <= u < all.len() && all[u] == #[trigger] qb[t] by {
            assert(all[own.len() + qa.len() + t] == qb[t]);
        }
    }
    match (a, b) {
        (Ok(f), Ok(g)) => {
            proof {
                lemma_by_answers_with_more(layout.panes@, layout.splits@, select(idx@, mask, true), f, qa, all);
                lemma_by_answers_with_more(layout.panes@, layout.splits@, select(idx@, mask, false), g, qb, all);
                assert forall|t: int| 0 <= t < idx@.len() implies answered(
                    all,
                    layout.splits@[j as int],
                    layout.panes@[idx@[t] as int].rect,
                    #[trigger] mask[t],
                ) by {
                    assert(all[t] == own[t]);
                }
            }
            assert(select(idx@, mask, true).len() > 0);
            assert(recreates(layout.panes@, layout.splits@, select(idx@, mask, false), g));
            assert(layout.splits@[j as int].rect == split.rect);
            (Ok(LayoutNode::Split {
                direction: split.direction,
                ratio: split.ratio,
                first: Box::new(f),
                second: Box::new(g),
                rect: split.rect,
            }), Ghost(all))
        },
        (Err(e), _) => (Err(e), Ghost(all)),
        (_, Err(e)) => (Err(e), Ghost(all)),
    }
}

/// The panes of a layout by their positions, all of them, in order.
pub open spec fn all_panes(n: nat) -> Seq<usize> {
    Seq::new(n, |i: int| i as usize)
}

/// `r` is the result of recreating the split tree of `layout`: a layout without panes
/// is refused; one pane is a leaf; otherwise the tree recreates all panes, and fails
/// when no split covers them all.
pub open spec fn is_plan_of(layout: LayoutSnapshot, r: Result<LayoutNode, PluckError>) -> bool {
    let n = layout.panes@.len();
    &&& n == 0 ==> (r matches Err(PluckError::Other(m)) && m@ == "pane layout has no panes"@)
    &&& n == 1 ==> r is Ok
    &&& n >= 2 && (forall|i: int|
        0 <= i < layout.splits@.len() ==> !is_bounding_box(layout.panes@, all_panes(n), #[trigger] layout.splits@[i].rect)) ==> r is Err
    &&& r matches Ok(node) ==> recreates(layout.panes@, layout.splits@, all_panes(n), node)
    &&& n > 0 ==> (r matches Err(e) ==> cannot_recreate(e))
}

/// `r` recreates the split tree of `layout` by the support's answers `qs`.
pub open spec fn planned_by_answers(layout: LayoutSnapshot, qs: Seq<BoundaryQuestion>, r: Result<LayoutNode, PluckError>) -> bool {
    &&& well_posed(layout.splits@, qs)
    &&& r matches Ok(node) ==> recreates_by_answers(layout.panes@, layout.splits@, all_panes(layout.panes@.len()), node, qs)
}

/// Recreates the split tree of the target's tab, with the questions put to the support.
pub(crate) fn derive_with_questions<S: LaunchSupport>(support: &S, layout: &LayoutSnapshot) -> (r: (Result<LayoutNode, PluckError>, Ghost<Seq<BoundaryQuestion>>))
    ensures
        is_plan_of(*layout, r.0),
        planned_by_answers(*layout, r.1@, r.0),
{
    let n = layout.panes.len();
    if n == 0 {
        return (Err(PluckError::Other(String::from_str("pane layout has no panes"))), Ghost(Seq::empty()));
    }
    let mut idx: Vec<usize> = Vec::new();
    let mut i: usize = 0;
    while i < n
        invariant
            i <= n,
            n == layout.panes@.len(),
            idx@ == all_panes(i as nat),
        decreases n - i,
    {
        idx.push(i);
        assert(idx@ =~= all_panes((i + 1) as nat));
        i = i + 1;
    }
    build_node(support, layout, idx)
}

/// Recreates the split tree of the target's tab from its panes and splits.
pub fn derive_layout_recreation_plan<S: LaunchSupport>(support: &S, layout: &LayoutSnapshot, target: &PaneId) -> (r: Result<LayoutNode, PluckError>)
    ensures
        is_plan_of(*layout, r),
{
    let (r, Ghost(_questions)) = derive_with_questions(support, layout);
    r
}

/// A recreated split sends a pane to its first child only when the support answered
/// that the pane starts before that split's own boundary, drawn across the split's
/// own rectangle, and to its second child only when it answered that the pane does
/// not; and every question asked was drawn across the asked split's own rectangle.
pub proof fn lemma_split_sides_follow_boundary_answers(
    panes: Seq<LayoutPane>,
    splits: Seq<LayoutSplit>,
    idx: Seq<usize>,
    node: LayoutNode,
    qs: Seq<BoundaryQuestion>,
)
    requires
        recreates_by_answers(panes, splits, idx, node, qs),
        well_posed(splits, qs),
        node is Split,
    ensures
        forall|t: int| 0 <= t < qs.len() ==> (#[trigger] qs[t]).region == qs[t].split.rect,
        exists|j: int, mask: Seq<bool>|
            #![trigger splits[j], select(idx, mask, true)]
            {
                &&& 0 <= j < splits.len()
                &&& splits[j].rect == node->Split_rect
                &&& mask.len() == idx.len()
                &&& forall|t: int| 0 <= t < idx.len() ==> (#[trigger] mask[t] ==> answered(
                    qs,
                    splits[j],
                    panes[idx[t] as int].rect,
                    true,
                ))
                &&& forall|t: int| 0 <= t < idx.len() ==> (!#[trigger] mask[t] ==> answered(
                    qs,
                    splits[j],
                    panes[idx[t] as int].rect,
                    false,
                ))
                &&& recreates_by_answers(panes, splits, select(idx, mask, true), *node->Split_first, qs)
                &&& recreates_by_answers(panes, splits, select(idx, mask, false), *node->Split_second, qs)
            },
{
}

} // verus!
