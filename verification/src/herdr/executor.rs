//! Steps of a picker session that talk to Herdr, and the decisions between them.

use crate::error::PluckError;
use crate::herdr::client::{AppliedLayout, HerdrClient, RecordedHerdr, HerdrRequest, LaunchLayoutNode, PaneInfo};
use crate::herdr::layout::{derive_source_pane_geometries, pane_geometry, LayoutPane, LayoutSnapshot};
use crate::model::{LayoutNode, PaneId, PickerReturnContext, PickerSnapshot, SourcePaneGeometry};
use crate::text::{lines_of, text_lines, views};
use crate::viewport::{map_visible_viewport, viewport_of};
use vstd::prelude::*;
use vstd::string::StringExecFns;

verus! {

/// The command of the pane that runs the picker.
pub open spec fn pick_command(binary: Seq<char>, snapshot: Seq<char>, ready: Seq<char>) -> Seq<Seq<char>> {
    seq![binary, "pick"@, "--snapshot"@, snapshot, "--ready"@, ready]
}

/// The command of a pane that mirrors source pane `pane`.
pub open spec fn mirror_command(binary: Seq<char>, snapshot: Seq<char>, pane: Seq<char>, ready: Seq<char>) -> Seq<Seq<char>> {
    seq![binary, "mirror"@, "--snapshot"@, snapshot, "--pane"@, pane, "--ready"@, ready]
}

/// `out` is `node` with the same splits, where the target pane runs the picker
/// and every other pane mirrors its source pane.
pub open spec fn converted(
    node: LayoutNode,
    out: LaunchLayoutNode,
    target: Seq<char>,
    binary: Seq<char>,
    snapshot: Seq<char>,
    ready: Seq<char>,
) -> bool
    decreases node,
{
    match node {
        LayoutNode::Pane { source_pane_id, .. } => match out {
            LaunchLayoutNode::Pane { command } => views(command@) == if source_pane_id.0@ == target {
                pick_command(binary, snapshot, ready)
            } else {
                mirror_command(binary, snapshot, source_pane_id.0@, ready)
            },
            _ => false,
        },
        LayoutNode::Split { direction, ratio, first, second, .. } => match out {
            LaunchLayoutNode::Split { direction: d, ratio: q, first: f, second: s } => {
                &&& d == direction
                &&& q == ratio
                &&& converted(*first, *f, target, binary, snapshot, ready)
                &&& converted(*second, *s, target, binary, snapshot, ready)
            },
            _ => false,
        },
    }
}

fn push_str(v: &mut Vec<String>, s: &str)
    ensures
        views(final(v)@) == views(old(v)@).push(s@),
{
    v.push(String::from_str(s));
    assert(views(final(v)@) =~= views(old(v)@).push(s@));
}

/// Turns the recreated source layout into the launch layout of the temporary tab.
pub fn convert_layout(
    node: &LayoutNode,
    target: &PaneId,
    binary: &str,
    snapshot: &str,
    ready: &str,
) -> (r: LaunchLayoutNode)
    ensures
        converted(*node, r, target.0@, binary@, snapshot@, ready@),
    decreases node,
{
    match node {
        LayoutNode::Pane { source_pane_id, .. } => {
            let mut command: Vec<String> = Vec::new();
            push_str(&mut command, binary);
            if source_pane_id.0 == target.0 {
                push_str(&mut command, "pick");
                push_str(&mut command, "--snapshot");
                push_str(&mut command, snapshot);
                push_str(&mut command, "--ready");
                push_str(&mut command, ready);
                assert(views(command@) =~= pick_command(binary@, snapshot@, ready@));
            } else {
                push_str(&mut command, "mirror");
                push_str(&mut command, "--snapshot");
                push_str(&mut command, snapshot);
                push_str(&mut command, "--pane");
                push_str(&mut command, source_pane_id.0.as_str());
                push_str(&mut command, "--ready");
                push_str(&mut command, ready);
                assert(views(command@) =~= mirror_command(binary@, snapshot@, source_pane_id.0@, ready@));
            }
            LaunchLayoutNode::Pane { command }
        },
        LayoutNode::Split { direction, ratio, first, second, .. } => {
            let f = convert_layout(first, target, binary, snapshot, ready);
            let s = convert_layout(second, target, binary, snapshot, ready);
            LaunchLayoutNode::Split { direction: *direction, ratio: *ratio, first: Box::new(f), second: Box::new(s) }
        },
    }
}

/// Whether Herdr reports the target pane as the focused one.
pub open spec fn target_is_focused(layout: LayoutSnapshot, target: Seq<char>) -> bool {
    ||| (layout.focused_pane_id matches Some(id) && id@ == target)
    ||| exists|i: int| 0 <= i < layout.panes@.len() && (#[trigger] layout.panes@[i]).pane_id@ == target && layout.panes@[i].focused
}

pub fn layout_target_is_focused(layout: &LayoutSnapshot, target: &PaneId) -> (r: bool)
    ensures
        r == target_is_focused(*layout, target.0@),
{
    if let Some(id) = &layout.focused_pane_id {
        if *id == target.0 {
            return true;
        }
    }
    let mut i: usize = 0;
    while i < layout.panes.len()
        invariant
            i <= layout.panes@.len(),
            !(layout.focused_pane_id matches Some(id) && id@ == target.0@),
            forall|j: int| 0 <= j < i ==> !((#[trigger] layout.panes@[j]).pane_id@ == target.0@ && layout.panes@[j].focused),
        decreases layout.panes@.len() - i,
    {
        if layout.panes[i].pane_id == target.0 && layout.panes[i].focused {
            return true;
        }
        i = i + 1;
    }
    false
}

pub open spec fn opt_view(o: Option<String>) -> Option<Seq<char>> {
    match o {
        Some(s) => Some(s@),
        None => None,
    }
}

/// The working directory of `pane` by the first report of it: its foreground
/// process's directory, else the pane's own.
pub open spec fn cwd_choice(infos: Seq<PaneInfo>, pane: Seq<char>) -> Option<Seq<char>>
    decreases infos.len(),
{
    if infos.len() == 0 {
        None
    } else if infos[0].pane_id@ == pane {
        match infos[0].foreground_cwd {
            Some(fg) => Some(fg@),
            None => opt_view(infos[0].cwd),
        }
    } else {
        cwd_choice(infos.drop_first(), pane)
    }
}

pub fn pick_cwd(infos: &Vec<PaneInfo>, pane: &PaneId) -> (r: Option<String>)
    ensures
        opt_view(r) == cwd_choice(infos@, pane.0@),
{
    let mut i: usize = 0;
    assert(infos@.skip(0) =~= infos@);
    while i < infos.len()
        invariant
            i <= infos@.len(),
            cwd_choice(infos@, pane.0@) == cwd_choice(infos@.skip(i as int), pane.0@),
        decreases infos@.len() - i,
    {
        assert(infos@.skip(i as int)[0] == infos@[i as int]);
        if infos[i].pane_id == pane.0 {
            return match &infos[i].foreground_cwd {
                Some(fg) => Some(fg.clone()),
                None => match &infos[i].cwd {
                    Some(c) => Some(c.clone()),
                    None => None,
                },
            };
        }
        assert(infos@.skip(i as int).drop_first() =~= infos@.skip(i + 1));
        i = i + 1;
    }
    None
}

/// A pane with the text that Herdr read from it: the text is split into lines
/// and wrapped into the pane's rows.
pub fn with_captured_text(pane: &SourcePaneGeometry, cwd: Option<String>, text: &str) -> (r: SourcePaneGeometry)
    ensures
        r.pane_id == pane.pane_id,
        r.outer_rect == pane.outer_rect,
        r.content_rect == pane.content_rect,
        r.content_width == pane.content_width,
        r.content_height == pane.content_height,
        r.cwd == cwd,
        views(r.logical_lines@) == text_lines(text@),
        r.visible_viewport matches Some(v) && viewport_of(v, text_lines(text@), pane.content_width as nat, pane.content_height as nat),
{
    let lines = lines_of(text);
    let viewport = map_visible_viewport(lines, pane.content_width, pane.content_height);
    let mut logical_lines: Vec<String> = Vec::new();
    let mut k: usize = 0;
    while k < viewport.logical_lines.len()
        invariant
            k <= viewport.logical_lines@.len(),
            views(logical_lines@) == views(viewport.logical_lines@).take(k as int),
        decreases viewport.logical_lines@.len() - k,
    {
        let ghost old_lines = logical_lines@;
        logical_lines.push(viewport.logical_lines[k].clone());
        assert(views(logical_lines@) =~= views(old_lines).push(viewport.logical_lines@[k as int]@));
        assert(views(viewport.logical_lines@).take(k + 1) =~= views(viewport.logical_lines@).take(k as int).push(viewport.logical_lines@[k as int]@));
        k = k + 1;
    }
    assert(views(viewport.logical_lines@).take(viewport.logical_lines@.len() as int) =~= views(viewport.logical_lines@));
    SourcePaneGeometry {
        pane_id: PaneId(pane.pane_id.0.clone()),
        outer_rect: pane.outer_rect,
        content_rect: pane.content_rect,
        content_width: pane.content_width,
        content_height: pane.content_height,
        logical_lines,
        visible_viewport: Some(viewport),
        cwd,
    }
}

/// Capturing asks Herdr nothing: there is no workspace to list and no pane has a row to read.
pub open spec fn needs_no_request(layout: LayoutSnapshot) -> bool {
    &&& layout.workspace_id is None
    &&& forall|i: int| 0 <= i < layout.panes@.len() ==> (#[trigger] layout.panes@[i]).rect.height == 0
}

/// How many of the first `i` panes have a row to read.
pub open spec fn rows_before(panes: Seq<LayoutPane>, i: int) -> nat
    decreases i,
{
    if i <= 0 {
        0
    } else {
        rows_before(panes, i - 1) + if panes[i - 1].rect.height > 0 { 1nat } else { 0nat }
    }
}

/// `req` reads the visible rows of `pane`, and succeeded if `succeeded`.
pub open spec fn reads_pane(req: HerdrRequest, pane: LayoutPane, succeeded: bool) -> bool {
    &&& req matches HerdrRequest::PaneReadVisible { pane: id, lines, result }
    &&& id == pane.pane_id@
    &&& lines == pane.rect.height
    &&& succeeded ==> result is Ok
}

/// From index `start` on, `log` reads the panes that have rows, in layout order,
/// each with its row count, every read but the last one having succeeded.
pub open spec fn reads_in_order(panes: Seq<LayoutPane>, log: Seq<HerdrRequest>, start: int) -> bool {
    &&& start <= log.len() <= start + rows_before(panes, panes.len() as int)
    &&& forall|j: int|
        #![trigger rows_before(panes, j)]
        0 <= j < panes.len() && panes[j].rect.height > 0 && start + rows_before(panes, j) < log.len() ==> reads_pane(
            log[start + rows_before(panes, j)],
            panes[j],
            start + rows_before(panes, j) + 1 < log.len(),
        )
}

/// `p` holds the text that `req` read: its lines, wrapped into the pane's rows.
pub open spec fn holds_read_text(req: HerdrRequest, p: SourcePaneGeometry) -> bool {
    &&& req matches HerdrRequest::PaneReadVisible { result: Ok(text), .. }
    &&& views(p.logical_lines@) == text_lines(text@)
    &&& p.visible_viewport matches Some(v)
    &&& viewport_of(v, text_lines(text@), p.content_width as nat, p.content_height as nat)
}

/// `req` is a request that failed with `e`.
pub open spec fn failed_with(req: HerdrRequest, e: PluckError) -> bool {
    match req {
        HerdrRequest::PaneList { result, .. } => result == Err::<Vec<PaneInfo>, PluckError>(e),
        HerdrRequest::PaneLayout { result, .. } => result == Err::<LayoutSnapshot, PluckError>(e),
        HerdrRequest::PaneReadVisible { result, .. } => result == Err::<String, PluckError>(e),
        HerdrRequest::ApplyLayout { result, .. } => result == Err::<AppliedLayout, PluckError>(e),
        HerdrRequest::FocusPane { result, .. } => result == Err::<(), PluckError>(e),
        HerdrRequest::ZoomPane { result, .. } => result == Err::<(), PluckError>(e),
        HerdrRequest::FocusTab { result, .. } => result == Err::<(), PluckError>(e),
        HerdrRequest::CloseTab { result, .. } => result == Err::<(), PluckError>(e),
    }
}

/// Where the reads of a capture start: after the pane list, when there is a workspace to list.
pub open spec fn reads_start(layout: LayoutSnapshot, before: Seq<HerdrRequest>) -> int {
    if layout.workspace_id is Some { before.len() + 1int } else { before.len() as int }
}

/// What capturing `layout` asked of Herdr, from `before` to `after`, and what it returned.
pub open spec fn captured(
    layout: LayoutSnapshot,
    before: Seq<HerdrRequest>,
    after: Seq<HerdrRequest>,
    r: Result<Vec<SourcePaneGeometry>, PluckError>,
) -> bool {
    let lp = layout.panes@;
    let start = reads_start(layout, before);
    &&& after.len() >= before.len()
    &&& after.take(before.len() as int) == before
    &&& layout.workspace_id matches Some(w) ==> {
        &&& after.len() > before.len()
        &&& after[before.len() as int] matches HerdrRequest::PaneList { workspace_id, result: listed }
        &&& workspace_id == w@
        &&& listed is Err ==> after.len() == before.len() + 1
    }
    &&& reads_in_order(lp, after, start)
    &&& r matches Err(e) ==> after.len() > before.len() && failed_with(after.last(), e)
    &&& r matches Ok(panes) ==> {
        &&& after.len() == start + rows_before(lp, lp.len() as int)
        &&& panes@.len() == lp.len()
        &&& forall|i: int| 0 <= i < panes@.len() ==> {
            let p = #[trigger] panes@[i];
            &&& pane_geometry(lp[i], p)
            &&& layout.workspace_id is None ==> p.cwd is None
            &&& layout.workspace_id is Some ==> (after[before.len() as int] matches HerdrRequest::PaneList {
                result: Ok(infos),
                ..
            } && opt_view(p.cwd) == cwd_choice(infos@, p.pane_id.0@))
            &&& p.content_height == 0 ==> p.logical_lines@.len() == 0 && p.visible_viewport is None
            &&& p.content_height != 0 ==> holds_read_text(after[start + rows_before(lp, i)], p)
        }
    }
}

/// Panes later in the layout have at least as many rowed panes before them.
pub proof fn lemma_rows_before_monotone(panes: Seq<LayoutPane>, j: int, i: int)
    requires
        0 <= j <= i <= panes.len(),
    ensures
        rows_before(panes, j) <= rows_before(panes, i),
        j < i && panes[j].rect.height > 0 ==> rows_before(panes, j) < rows_before(panes, i),
    decreases i - j,
{
    if j < i {
        lemma_rows_before_monotone(panes, j, i - 1);
    }
}

/// Captures every source pane: its working directory and its unwrapped visible text.
///
/// The workspace's pane list is asked for first, when there is a workspace; then
/// every pane with rows is read, in layout order, with its row count. A pane's
/// working directory is the first report of it in that list, its foreground
/// directory first; a pane that was read holds the lines of the text Herdr
/// returned, wrapped into its rows. The first failure ends the capture and is returned.
pub fn capture_panes<C: HerdrClient>(client: &mut RecordedHerdr<C>, layout: &LayoutSnapshot) -> (r: Result<Vec<SourcePaneGeometry>, PluckError>)
    ensures
        needs_no_request(*layout) ==> r is Ok && *final(client) == *old(client),
        captured(*layout, old(client).requests(), final(client).requests(), r),
{
    let ghost before = client.requests();
    let ghost lp = layout.panes@;
    let panes = derive_source_pane_geometries(layout);
    let infos: Vec<PaneInfo> = match &layout.workspace_id {
        Some(workspace_id) => match client.pane_list(workspace_id.as_str()) {
            Ok(v) => v,
            Err(e) => {
                assert(client.requests().take(before.len() as int) =~= before);
                return Err(e);
            },
        },
        None => Vec::new(),
    };
    let ghost start = reads_start(*layout, before);
    assert(client.requests().take(before.len() as int) =~= before);
    let mut out: Vec<SourcePaneGeometry> = Vec::new();
    let mut i: usize = 0;
    while i < panes.len()
        invariant
            i <= panes@.len(),
            panes@.len() == lp.len(),
            lp == layout.panes@,
            before == old(client).requests(),
            start == reads_start(*layout, before),
            layout.workspace_id is None ==> infos@.len() == 0,
            layout.workspace_id matches Some(w) ==> client.requests()[before.len() as int] == (HerdrRequest::PaneList {
                workspace_id: w@,
                result: Ok(infos),
            }),
            needs_no_request(*layout) ==> *client == *old(client),
            client.requests().len() == start + rows_before(lp, i as int),
            client.requests().take(before.len() as int) == before,
            forall|j: int|
                #![trigger rows_before(lp, j)]
                0 <= j < i && lp[j].rect.height > 0 ==> reads_pane(client.requests()[start + rows_before(lp, j)], lp[j], true),
            forall|j: int| 0 <= j < panes@.len() ==> {
                &&& pane_geometry(lp[j], #[trigger] panes@[j])
                &&& panes@[j].logical_lines@.len() == 0
                &&& panes@[j].visible_viewport is None
            },
            out@.len() == i,
            forall|j: int| 0 <= j < i ==> {
                let p = #[trigger] out@[j];
                &&& pane_geometry(lp[j], p)
                &&& opt_view(p.cwd) == cwd_choice(infos@, p.pane_id.0@)
                &&& p.content_height == 0 ==> p.logical_lines@.len() == 0 && p.visible_viewport is None
                &&& p.content_height != 0 ==> holds_read_text(client.requests()[start + rows_before(lp, j)], p)
            },
        decreases panes@.len() - i,
    {
        let pane = &panes[i];
        let cwd = pick_cwd(&infos, &pane.pane_id);
        let ghost log = client.requests();
        proof {
            assert forall|j: int|
                #![trigger rows_before(lp, j)]
                0 <= j < i && lp[j].rect.height > 0 implies start + rows_before(lp, j) < log.len() by {
                lemma_rows_before_monotone(lp, j, i as int);
            }
        }
        if pane.content_height == 0 {
            out.push(SourcePaneGeometry {
                pane_id: PaneId(pane.pane_id.0.clone()),
                outer_rect: pane.outer_rect,
                content_rect: pane.content_rect,
                content_width: pane.content_width,
                content_height: pane.content_height,
                logical_lines: Vec::new(),
                visible_viewport: None,
                cwd,
            });
        } else {
            match client.pane_read_visible(&pane.pane_id, pane.content_height) {
                Ok(text) => {
                    out.push(with_captured_text(pane, cwd, text.as_str()));
                },
                Err(e) => {
                    proof {
                        if layout.workspace_id is Some {
                            assert(client.requests()[before.len() as int] == log[before.len() as int]);
                        }
                        lemma_rows_before_monotone(lp, i as int, lp.len() as int);
                        assert(client.requests().take(before.len() as int) =~= before);
                        assert forall|j: int|
                            #![trigger rows_before(lp, j)]
                            0 <= j < lp.len() && lp[j].rect.height > 0 && start + rows_before(lp, j) < client.requests().len()
                            implies reads_pane(
                                client.requests()[start + rows_before(lp, j)],
                                lp[j],
                                start + rows_before(lp, j) + 1 < client.requests().len(),
                            ) by {
                            if j > i {
                                lemma_rows_before_monotone(lp, i as int, j);
                            } else if j < i {
                                lemma_rows_before_monotone(lp, j, i as int);
                            }
                        }
                    }
                    return Err(e);
                },
            }
        }
        proof {
            assert(client.requests().take(before.len() as int) =~= before);
            assert forall|j: int|
                #![trigger rows_before(lp, j)]
                0 <= j < i + 1 && lp[j].rect.height > 0 implies reads_pane(client.requests()[start + rows_before(lp, j)], lp[j], true) by {
                if j < i {
                    lemma_rows_before_monotone(lp, j, i as int);
                }
            }
        }
        i = i + 1;
    }
    proof {
        assert forall|j: int|
            #![trigger rows_before(lp, j)]
            0 <= j < lp.len() && lp[j].rect.height > 0 && start + rows_before(lp, j) < client.requests().len()
            implies reads_pane(
                client.requests()[start + rows_before(lp, j)],
                lp[j],
                start + rows_before(lp, j) + 1 < client.requests().len(),
            ) by {
        }
    }
    Ok(out)
}

/// The first failure of two results, or success if both succeeded.
pub fn first_failure(first: Result<(), PluckError>, second: Result<(), PluckError>) -> (r: Result<(), PluckError>)
    ensures
        r == (if first is Err { first } else { second }),
{
    match first {
        Err(e) => Err(e),
        Ok(()) => second,
    }
}

/// `after` is `before` with the two requests of a cleanup: the return tab was
/// focused, then the temporary tab was closed, and `r` is the first failure of the two.
pub open spec fn cleanup_requests(
    before: Seq<HerdrRequest>,
    after: Seq<HerdrRequest>,
    return_tab: Seq<char>,
    temporary: Seq<char>,
    r: Result<(), PluckError>,
) -> bool {
    &&& after.len() == before.len() + 2
    &&& after.take(before.len() as int) == before
    &&& after[before.len() as int] matches HerdrRequest::FocusTab { tab_id: focused_tab, result: focused }
    &&& after[before.len() + 1int] matches HerdrRequest::CloseTab { tab_id: closed_tab, result: closed }
    &&& focused_tab == return_tab
    &&& closed_tab == temporary
    &&& r == (if focused is Err { focused } else { closed })
}

/// Restores the source tab and closes only the explicit temporary tab.
///
/// Refuses, without asking Herdr anything, when the temporary tab id is empty or is
/// the tab to return to. Otherwise it focuses the return tab, then closes the
/// temporary tab even if focusing failed, and reports the first failure.
pub fn cleanup_session<C: HerdrClient>(
    client: &mut RecordedHerdr<C>,
    session: &PickerReturnContext,
    temporary_tab_id: &str,
) -> (r: Result<(), PluckError>)
    ensures
        temporary_tab_id@.len() == 0 ==> r == Err::<(), PluckError>(PluckError::MissingTemporaryTab)
            && final(client).requests() == old(client).requests(),
        temporary_tab_id@.len() != 0 && temporary_tab_id@ == session.return_tab_id@ ==> (
            r matches Err(PluckError::RefusingSourceTab(tab)) && tab@ == temporary_tab_id@)
            && final(client).requests() == old(client).requests(),
        temporary_tab_id@.len() != 0 && temporary_tab_id@ != session.return_tab_id@ ==> cleanup_requests(
            old(client).requests(),
            final(client).requests(),
            session.return_tab_id@,
            temporary_tab_id@,
            r,
        ),
{
    let temporary: String = temporary_tab_id.to_owned();
    if crate::text::char_count(&temporary) == 0 {
        return Err(PluckError::MissingTemporaryTab);
    }
    if temporary == session.return_tab_id {
        return Err(PluckError::RefusingSourceTab(temporary));
    }
    let ghost before = client.requests();
    let focused = client.focus_tab(session.return_tab_id.as_str());
    let closed = client.close_tab(temporary_tab_id);
    assert(client.requests().take(before.len() as int) =~= before);
    first_failure(focused, closed)
}

/// Zooms the picker pane when the snapshot asks for it.
pub fn zoom_picker<C: HerdrClient>(
    client: &mut RecordedHerdr<C>,
    snapshot: &PickerSnapshot,
    pane_id: &PaneId,
) -> (r: Result<(), PluckError>)
    ensures
        !snapshot.session.zoom_picker ==> r is Ok && final(client).requests() == old(client).requests(),
        snapshot.session.zoom_picker ==> final(client).requests() == old(client).requests().push(
            HerdrRequest::ZoomPane { pane: pane_id.0@, result: r },
        ),
{
    if snapshot.session.zoom_picker {
        client.zoom_pane(pane_id)
    } else {
        Ok(())
    }
}

} // verus!
