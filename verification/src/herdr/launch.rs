//! Launching the picker: capture the source tab, write the snapshot, and
//! replace the tab's view with a temporary layout that runs the picker.

use crate::error::{error_message, PluckError};
use crate::herdr::client::{HerdrClient, HerdrRequest, RecordedHerdr};
use crate::herdr::executor::{
    capture_panes, captured, cleanup_session, convert_layout, converted, layout_target_is_focused, reads_start, rows_before,
    target_is_focused,
};
use crate::herdr::layout::{
    derive_with_questions, is_plan_of, planned_by_answers, BoundaryQuestion, LayoutPane, LayoutSnapshot, LayoutSplit,
};
use crate::model::{
    LayoutNode, OpenSettings, PaneId, PaneTextCaptureMode, PatternSpec, PickerAction, PickerReturnContext,
    PickerScope, PickerSnapshot, Rect, SourcePaneGeometry, SourcePaneSnapshot,
};
use vstd::prelude::*;
use vstd::string::StringExecFns;

verus! {

/// The files that hand the snapshot to the picker: the snapshot itself, and the
/// one-shot barrier that the picker waits for.
#[derive(Debug, Clone, PartialEq, Eq)]
pub struct PickerLaunchFiles {
    pub snapshot_path: String,
    pub ready_path: String,
}

/// The work of a launch that is not Herdr's: the split ratios of the recreated
/// layout, the files, and warnings to the user.
pub trait LaunchSupport {
    /// Whether `pane` starts before the boundary that `split` draws across `region`
    /// at the split's ratio, which is a floating-point number.
    fn starts_before_boundary(&self, split: &LayoutSplit, region: Rect, pane: Rect) -> bool;

    fn create_files(&self, snapshot: &PickerSnapshot) -> Result<PickerLaunchFiles, PluckError>;

    fn signal_ready(&self, files: &PickerLaunchFiles) -> Result<(), PluckError>;

    fn cleanup_files(&self, files: &PickerLaunchFiles) -> Result<(), PluckError>;

    fn warn(&self, message: &str);
}

/// The label of the temporary tab.
pub open spec fn tab_label(action: PickerAction, scope: PickerScope) -> Seq<char> {
    match (action, scope) {
        (PickerAction::Copy, PickerScope::TargetPane) => "Herdr Pluck"@,
        (PickerAction::Copy, PickerScope::AllPanes) => "Herdr Pluck: All Panes"@,
        (PickerAction::OpenUrl, _) => "Herdr Pluck: Open URL"@,
    }
}

pub fn launch_tab_label(action: PickerAction, scope: PickerScope) -> (r: &'static str)
    ensures
        r@ == tab_label(action, scope),
{
    match (action, scope) {
        (PickerAction::Copy, PickerScope::TargetPane) => "Herdr Pluck",
        (PickerAction::Copy, PickerScope::AllPanes) => "Herdr Pluck: All Panes",
        (PickerAction::OpenUrl, _) => "Herdr Pluck: Open URL",
    }
}

/// The content height of the first pane with the target's id, 0 when there is none.
pub open spec fn target_height(panes: Seq<LayoutPane>, target: Seq<char>) -> nat
    decreases panes.len(),
{
    if panes.len() == 0 {
        0
    } else if panes[0].pane_id@ == target {
        panes[0].rect.height as nat
    } else {
        target_height(panes.drop_first(), target)
    }
}

pub fn target_content_height(layout: &LayoutSnapshot, target: &PaneId) -> (r: u16)
    ensures
        r == target_height(layout.panes@, target.0@),
{
    let mut i: usize = 0;
    assert(layout.panes@.skip(0) =~= layout.panes@);
    while i < layout.panes.len()
        invariant
            i <= layout.panes@.len(),
            target_height(layout.panes@, target.0@) == target_height(layout.panes@.skip(i as int), target.0@),
        decreases layout.panes@.len() - i,
    {
        assert(layout.panes@.skip(i as int)[0] == layout.panes@[i as int]);
        if layout.panes[i].pane_id == target.0 {
            return layout.panes[i].rect.height;
        }
        assert(layout.panes@.skip(i as int).drop_first() =~= layout.panes@.skip(i + 1));
        i = i + 1;
    }
    0
}

/// Where to return after the picker: the layout's tab and the target pane, with the
/// picker zoomed when the tab was zoomed on the target.
pub fn return_context_for(layout: &LayoutSnapshot, target: &PaneId) -> (r: Result<PickerReturnContext, PluckError>)
    ensures
        layout.tab_id is None ==> r == Err::<PickerReturnContext, PluckError>(PluckError::MissingTabId),
        layout.tab_id matches Some(t) ==> (r matches Ok(c) && c.return_tab_id@ == t@
            && c.return_pane_id.0@ == target.0@
            && c.zoom_picker == (layout.zoomed && target_is_focused(*layout, target.0@))),
{
    match &layout.tab_id {
        None => Err(PluckError::MissingTabId),
        Some(tab) => Ok(PickerReturnContext {
            return_tab_id: tab.clone(),
            return_pane_id: target.duplicate(),
            zoom_picker: layout.zoomed && layout_target_is_focused(layout, target),
        }),
    }
}

/// The snapshot handed to the picker.
pub fn build_source_snapshot(
    layout: &LayoutSnapshot,
    target: &PaneId,
    source_panes: Vec<SourcePaneGeometry>,
    session: PickerReturnContext,
    action: PickerAction,
    scope: PickerScope,
    custom_patterns: Vec<PatternSpec>,
    open: OpenSettings,
) -> (r: Result<PickerSnapshot, PluckError>)
    ensures
        layout.tab_id is None ==> r == Err::<PickerSnapshot, PluckError>(PluckError::MissingTabId),
        layout.tab_id is Some && layout.workspace_id is None ==> r == Err::<PickerSnapshot, PluckError>(PluckError::MissingWorkspaceId),
        layout.tab_id matches Some(t) ==> (layout.workspace_id matches Some(w) ==> (r matches Ok(s) && {
            &&& s.source.target_pane_id.0@ == target.0@
            &&& s.source.source_tab_id@ == t@
            &&& s.source.workspace_id@ == w@
            &&& s.source.source_panes == source_panes
            &&& s.source.capture_mode == PaneTextCaptureMode::ExactVisibleUnwrapped
            &&& s.session == session
            &&& s.action == action
            &&& s.scope == scope
            &&& s.custom_patterns == custom_patterns
            &&& s.open == open
        })),
{
    let tab = match &layout.tab_id {
        Some(t) => t.clone(),
        None => return Err(PluckError::MissingTabId),
    };
    let workspace = match &layout.workspace_id {
        Some(w) => w.clone(),
        None => return Err(PluckError::MissingWorkspaceId),
    };
    Ok(PickerSnapshot {
        source: SourcePaneSnapshot {
            target_pane_id: target.duplicate(),
            source_tab_id: tab,
            workspace_id: workspace,
            source_panes,
            capture_mode: PaneTextCaptureMode::ExactVisibleUnwrapped,
        },
        session,
        action,
        scope,
        custom_patterns,
        open,
    })
}

fn duplicate_context(c: &PickerReturnContext) -> (r: PickerReturnContext)
    ensures
        r == *c,
{
    PickerReturnContext {
        return_tab_id: c.return_tab_id.clone(),
        return_pane_id: PaneId(c.return_pane_id.0.clone()),
        zoom_picker: c.zoom_picker,
    }
}

/// A step of a launch that is not Herdr's, with its outcome: the recreation plan
/// of the source tab, or a call made to the launch support.
#[allow(inconsistent_fields)]
pub ghost enum SupportCall {
    RecreationPlan {
        layout: LayoutSnapshot,
        target: Seq<char>,
        questions: Seq<BoundaryQuestion>,
        result: Result<LayoutNode, PluckError>,
    },
    CreateFiles { snapshot: PickerSnapshot, result: Result<PickerLaunchFiles, PluckError> },
    SignalReady { files: PickerLaunchFiles, result: Result<(), PluckError> },
    CleanupFiles { files: PickerLaunchFiles, result: Result<(), PluckError> },
    Warn { message: Seq<char> },
}

/// A launch support together with the calls made through it, oldest first.
pub struct RecordedSupport<S> {
    pub support: S,
    pub calls: Ghost<Seq<SupportCall>>,
}

impl<S: LaunchSupport> RecordedSupport<S> {
    pub fn new(support: S) -> (r: Self)
        ensures
            r.calls@ == Seq::<SupportCall>::empty(),
            r.support == support,
    {
        RecordedSupport { support, calls: Ghost(Seq::empty()) }
    }

    /// Recreates the split tree of the target's tab, asking the support where each
    /// split's boundary falls, and records the plan with the questions asked.
    fn recreation_plan(&mut self, layout: &LayoutSnapshot, target: &PaneId) -> (r: Result<LayoutNode, PluckError>)
        ensures
            final(self).calls@.len() == old(self).calls@.len() + 1,
            final(self).calls@.drop_last() == old(self).calls@,
            final(self).calls@.last() matches SupportCall::RecreationPlan { layout: l, target: t, questions, result }
                && l == *layout && t == target.0@ && result == r && planned_by_answers(*layout, questions, r),
            is_plan_of(*layout, r),
    {
        let (r, Ghost(questions)) = derive_with_questions(&self.support, layout);
        let ghost before = self.calls@;
        proof {
            self.calls@ = self.calls@.push(
                SupportCall::RecreationPlan { layout: *layout, target: target.0@, questions, result: r },
            );
        }
        assert(self.calls@.drop_last() =~= before);
        r
    }

    fn create_files(&mut self, snapshot: &PickerSnapshot) -> (r: Result<PickerLaunchFiles, PluckError>)
        ensures
            final(self).calls@ == old(self).calls@.push(SupportCall::CreateFiles { snapshot: *snapshot, result: r }),
    {
        let r = self.support.create_files(snapshot);
        proof {
            self.calls@ = self.calls@.push(SupportCall::CreateFiles { snapshot: *snapshot, result: r });
        }
        r
    }

    fn signal_ready(&mut self, files: &PickerLaunchFiles) -> (r: Result<(), PluckError>)
        ensures
            final(self).calls@ == old(self).calls@.push(SupportCall::SignalReady { files: *files, result: r }),
    {
        let r = self.support.signal_ready(files);
        proof {
            self.calls@ = self.calls@.push(SupportCall::SignalReady { files: *files, result: r });
        }
        r
    }

    fn cleanup_files(&mut self, files: &PickerLaunchFiles) -> (r: Result<(), PluckError>)
        ensures
            final(self).calls@ == old(self).calls@.push(SupportCall::CleanupFiles { files: *files, result: r }),
    {
        let r = self.support.cleanup_files(files);
        proof {
            self.calls@ = self.calls@.push(SupportCall::CleanupFiles { files: *files, result: r });
        }
        r
    }

    /// Warns the user that `error` happened too, its message after `prefix`.
    fn warn_with(&mut self, prefix: &str, error: &PluckError)
        ensures
            final(self).calls@ == old(self).calls@.push(SupportCall::Warn { message: prefix@ + error_message(*error) }),
    {
        let mut message = String::from_str(prefix);
        let detail = error.message();
        message.append(detail.as_str());
        self.support.warn(message.as_str());
        proof {
            self.calls@ = self.calls@.push(SupportCall::Warn { message: message@ });
        }
    }
}

/// `s` is the snapshot of `layout` for the target: its panes' tab and workspace,
/// the return context, and the picker's action, scope, patterns and open settings.
pub open spec fn snapshot_for(
    s: PickerSnapshot,
    layout: LayoutSnapshot,
    target: Seq<char>,
    action: PickerAction,
    scope: PickerScope,
    custom_patterns: Vec<PatternSpec>,
    open: OpenSettings,
) -> bool {
    &&& layout.tab_id matches Some(t)
    &&& layout.workspace_id matches Some(w)
    &&& s.source.target_pane_id.0@ == target
    &&& s.source.source_tab_id@ == t@
    &&& s.source.workspace_id@ == w@
    &&& s.source.capture_mode == PaneTextCaptureMode::ExactVisibleUnwrapped
    &&& s.session.return_tab_id@ == t@
    &&& s.session.return_pane_id.0@ == target
    &&& s.session.zoom_picker == (layout.zoomed && target_is_focused(layout, target))
    &&& s.action == action
    &&& s.scope == scope
    &&& s.custom_patterns == custom_patterns
    &&& s.open == open
}

/// The requests of cleaning up after a failed launch, from `before` to `after`:
/// none when the temporary tab id is empty or names the return tab, else the
/// return tab is focused and then the temporary tab is closed.
pub open spec fn restored(return_tab: Seq<char>, temporary: Seq<char>, before: Seq<HerdrRequest>, after: Seq<HerdrRequest>) -> bool {
    if temporary.len() == 0 || temporary == return_tab {
        after == before
    } else {
        &&& after.len() == before.len() + 2
        &&& after.take(before.len() as int) == before
        &&& after[before.len() as int] matches HerdrRequest::FocusTab { tab_id: focused, .. }
        &&& after[before.len() + 1int] matches HerdrRequest::CloseTab { tab_id: closed, .. }
        &&& focused == return_tab
        &&& closed == temporary
    }
}

/// The message of the cleanup's failure, if cleaning up from `before` to `after`
/// failed: a refusal, or the first failure of its two requests.
pub open spec fn cleanup_failure(return_tab: Seq<char>, temporary: Seq<char>, before: Seq<HerdrRequest>, after: Seq<HerdrRequest>) -> Option<Seq<char>> {
    if temporary.len() == 0 {
        Some(error_message(PluckError::MissingTemporaryTab))
    } else if temporary == return_tab {
        Some("refusing to close source tab "@ + temporary + " as temporary picker tab"@)
    } else {
        match after[before.len() as int] {
            HerdrRequest::FocusTab { result: Err(e), .. } => Some(error_message(e)),
            _ => match after[before.len() + 1int] {
                HerdrRequest::CloseTab { result: Err(e), .. } => Some(error_message(e)),
                _ => None,
            },
        }
    }
}

/// From `m` on, the support got what follows a failure after the apply: a warning
/// when the cleanup failed (`cleanup`), the removal of the files, and a warning
/// when the removal failed.
pub open spec fn files_removed_after_failure(s: Seq<SupportCall>, m: int, files: PickerLaunchFiles, cleanup: Option<Seq<char>>) -> bool {
    let k = if cleanup is Some { m + 1 } else { m };
    &&& cleanup matches Some(t) ==> s[m] == SupportCall::Warn { message: "launch cleanup also failed: "@ + t }
    &&& s.len() > k
    &&& s[k] matches SupportCall::CleanupFiles { files: removed_files, result: removed }
    &&& removed_files == files
    &&& match removed {
        Ok(_) => s.len() == k + 1,
        Err(d) => s.len() == k + 2 && s[k + 1] == SupportCall::Warn {
            message: "launch file cleanup also failed: "@ + error_message(d),
        },
    }
}

/// The request that applies the layout is at `k`; what follows it, on the Herdr
/// side `h` and on the support side `s` from `m` on, and the result `r`.
pub open spec fn launched_after_files(
    return_tab: Seq<char>,
    w: Seq<char>,
    plan: LayoutNode,
    files: PickerLaunchFiles,
    target: Seq<char>,
    binary: Seq<char>,
    action: PickerAction,
    scope: PickerScope,
    k: int,
    h: Seq<HerdrRequest>,
    m: int,
    s: Seq<SupportCall>,
    r: Result<(), PluckError>,
) -> bool {
    &&& h.len() > k
    &&& h[k] matches HerdrRequest::ApplyLayout { workspace_id, tab_label: label, root, result: applied }
    &&& workspace_id == w
    &&& label == tab_label(action, scope)
    &&& converted(plan, root, target, binary, files.snapshot_path@, files.ready_path@)
    &&& match applied {
        Err(e) => {
            &&& r == Err::<(), PluckError>(e)
            &&& h.len() == k + 1
            &&& s.len() == m + 1
            &&& s[m] matches SupportCall::CleanupFiles { files: removed_files, .. }
            &&& removed_files == files
        },
        Ok(a) => {
            &&& h.len() > k + 1
            &&& h[k + 1] matches HerdrRequest::FocusPane { pane, result: focused }
            &&& pane == a.picker_pane_id.0@
            &&& match focused {
                Err(e) => {
                    &&& r == Err::<(), PluckError>(e)
                    &&& restored(return_tab, a.tab_id@, h.take(k + 2), h)
                    &&& files_removed_after_failure(s, m, files, cleanup_failure(return_tab, a.tab_id@, h.take(k + 2), h))
                },
                Ok(_) => {
                    &&& s.len() > m
                    &&& s[m] matches SupportCall::SignalReady { files: signalled, result: ready }
                    &&& signalled == files
                    &&& match ready {
                        Err(e) => {
                            &&& r == Err::<(), PluckError>(e)
                            &&& restored(return_tab, a.tab_id@, h.take(k + 2), h)
                            &&& files_removed_after_failure(s, m + 1, files, cleanup_failure(return_tab, a.tab_id@, h.take(k + 2), h))
                        },
                        Ok(_) => {
                            &&& r == Ok::<(), PluckError>(())
                            &&& h.len() == k + 2
                            &&& s.len() == m + 1
                        },
                    }
                },
            }
        },
    }
}

/// After the plan: the capture from `hs` on, the snapshot files, and the rest.
pub open spec fn launched_after_plan(
    layout: LayoutSnapshot,
    plan: LayoutNode,
    target: Seq<char>,
    binary: Seq<char>,
    action: PickerAction,
    scope: PickerScope,
    custom_patterns: Vec<PatternSpec>,
    open: OpenSettings,
    hs: int,
    h: Seq<HerdrRequest>,
    ss: int,
    s: Seq<SupportCall>,
    r: Result<(), PluckError>,
) -> bool {
    let before = h.take(hs);
    let k = reads_start(layout, before) + rows_before(layout.panes@, layout.panes@.len() as int);
    if s.len() == ss {
        &&& r is Err
        &&& {
            ||| captured(layout, before, h, Err(r->Err_0))
            ||| layout.tab_id is None && r == Err::<(), PluckError>(PluckError::MissingTabId) && h.len() == k
            ||| layout.tab_id is Some && layout.workspace_id is None && r == Err::<(), PluckError>(
                PluckError::MissingWorkspaceId,
            ) && h.len() == k
        }
    } else {
        &&& layout.tab_id matches Some(t)
        &&& layout.workspace_id matches Some(w)
        &&& s[ss] matches SupportCall::CreateFiles { snapshot, result: made }
        &&& snapshot_for(snapshot, layout, target, action, scope, custom_patterns, open)
        &&& h.len() >= k
        &&& captured(layout, before, h.take(k), Ok(snapshot.source.source_panes))
        &&& match made {
            Err(e) => r == Err::<(), PluckError>(e) && h.len() == k && s.len() == ss + 1,
            Ok(files) => launched_after_files(t@, w@, plan, files, target, binary, action, scope, k, h, ss + 1, s, r),
        }
    }
}

/// What a launch asked of Herdr (`h0` to `h`) and of its support (`s0` to `s`), and its result.
pub open spec fn launched(
    target: Seq<char>,
    binary: Seq<char>,
    action: PickerAction,
    scope: PickerScope,
    custom_patterns: Vec<PatternSpec>,
    open: OpenSettings,
    h0: Seq<HerdrRequest>,
    h: Seq<HerdrRequest>,
    s0: Seq<SupportCall>,
    s: Seq<SupportCall>,
    r: Result<(), PluckError>,
) -> bool {
    &&& h.len() > h0.len()
    &&& h.take(h0.len() as int) == h0
    &&& s.len() >= s0.len()
    &&& s.take(s0.len() as int) == s0
    &&& h[h0.len() as int] matches HerdrRequest::PaneLayout { pane, result: read }
    &&& pane == target
    &&& match read {
        Err(e) => r == Err::<(), PluckError>(e) && h.len() == h0.len() + 1 && s.len() == s0.len(),
        Ok(layout) => {
            &&& s.len() > s0.len()
            &&& s[s0.len() as int] matches SupportCall::RecreationPlan {
                layout: planned_layout,
                target: planned_target,
                questions,
                result: planned,
            }
            &&& planned_layout == layout
            &&& planned_target == target
            &&& is_plan_of(layout, planned)
            &&& planned_by_answers(layout, questions, planned)
            &&& match planned {
                Err(e) => r == Err::<(), PluckError>(e) && h.len() == h0.len() + 1 && s.len() == s0.len() + 1,
                Ok(plan) => if target_height(layout.panes@, target) == 0 {
                    &&& r matches Err(PluckError::ZeroContentHeight(id))
                    &&& id@ == target
                    &&& h.len() == h0.len() + 1
                    &&& s.len() == s0.len() + 1
                } else {
                    launched_after_plan(
                        layout,
                        plan,
                        target,
                        binary,
                        action,
                        scope,
                        custom_patterns,
                        open,
                        h0.len() + 1int,
                        h,
                        s0.len() + 1int,
                        s,
                        r,
                    )
                },
            }
        },
    }
}

/// Captures the source state and applies the temporary picker layout.
///
/// The target's layout is read first, and its recreation planned. A target that
/// shows no rows is refused before anything else is asked. Then the source panes
/// are captured, the snapshot written, and the temporary layout applied in the
/// workspace under the tab label of the action and scope, every pane running this
/// binary on the snapshot files. The picker pane is focused before the barrier is
/// released. When the apply fails its error is returned and the files are removed;
/// when focusing or releasing fails, the source tab is restored, the temporary tab
/// from the apply is closed, the files are removed, a failure of either cleanup is
/// reported to the user as a warning, and the first failure is returned.
#[verifier::rlimit(40)]
pub fn launch_layout_tab_picker<C: HerdrClient, S: LaunchSupport>(
    client: &mut RecordedHerdr<C>,
    support: &mut RecordedSupport<S>,
    target: &PaneId,
    binary_path: &str,
    action: PickerAction,
    scope: PickerScope,
    custom_patterns: Vec<PatternSpec>,
    open: OpenSettings,
) -> (r: Result<(), PluckError>)
    ensures
        launched(
            target.0@,
            binary_path@,
            action,
            scope,
            custom_patterns,
            open,
            old(client).requests(),
            final(client).requests(),
            old(support).calls@,
            final(support).calls@,
            r,
        ),
{
    let ghost h0 = client.requests();
    let ghost s0 = support.calls@;
    let layout = match client.pane_layout(target) {
        Ok(l) => l,
        Err(e) => {
            assert(client.requests().take(h0.len() as int) =~= h0);
            assert(support.calls@.take(s0.len() as int) =~= s0);
            return Err(e);
        },
    };
    let ghost h1 = client.requests();
    assert(h1.take(h0.len() as int) =~= h0);
    let plan = match support.recreation_plan(&layout, target) {
        Ok(p) => p,
        Err(e) => {
            assert(support.calls@.take(s0.len() as int) =~= s0);
            return Err(e);
        },
    };
    let ghost s1 = support.calls@;
    assert(s1.take(s0.len() as int) =~= s0);
    if target_content_height(&layout, target) == 0 {
        return Err(PluckError::ZeroContentHeight(target.0.clone()));
    }
    let source_panes = match capture_panes(client, &layout) {
        Ok(p) => p,
        Err(e) => {
            assert(client.requests().take(h1.len() as int) =~= h1);
            assert(client.requests().take(h0.len() as int) =~= h0);
            return Err(e);
        },
    };
    let ghost hc = client.requests();
    assert(hc.take(h1.len() as int) =~= h1);
    assert(hc.take(h0.len() as int) =~= h0);
    let return_context = match return_context_for(&layout, target) {
        Ok(c) => c,
        Err(e) => return Err(e),
    };
    let snapshot = match build_source_snapshot(
        &layout,
        target,
        source_panes,
        duplicate_context(&return_context),
        action,
        scope,
        custom_patterns,
        open,
    ) {
        Ok(s) => s,
        Err(e) => return Err(e),
    };
    let files = match support.create_files(&snapshot) {
        Ok(f) => f,
        Err(e) => {
            assert(support.calls@.take(s0.len() as int) =~= s0);
            assert(client.requests().take(hc.len() as int) =~= hc);
            return Err(e);
        },
    };
    let ghost s2 = support.calls@;
    assert(s2.take(s0.len() as int) =~= s0);
    let root = convert_layout(&plan, target, binary_path, files.snapshot_path.as_str(), files.ready_path.as_str());
    let workspace_id = match &layout.workspace_id {
        Some(w) => w,
        None => return Err(PluckError::MissingWorkspaceId),
    };
    let label = launch_tab_label(action, scope);
    let applied = match client.apply_layout(workspace_id.as_str(), label, &root) {
        Ok(a) => a,
        Err(e) => {
            let _ = support.cleanup_files(&files);
            assert(support.calls@.take(s0.len() as int) =~= s0);
            assert(client.requests().take(hc.len() as int) =~= hc);
            assert(client.requests().take(h0.len() as int) =~= h0);
            assert(client.requests().take(h1.len() as int) =~= h1);
            return Err(e);
        },
    };
    let focused = client.focus_pane(&applied.picker_pane_id);
    let ghost h2 = client.requests();
    assert(h2.take(hc.len() as int) =~= hc);
    assert(h2.take(h0.len() as int) =~= h0);
    let ghost focused_ok = focused is Ok;
    let ready = match focused {
        Ok(()) => support.signal_ready(&files),
        Err(e) => Err(e),
    };
    if let Err(error) = ready {
        let ghost s3 = support.calls@;
        let cleaned = cleanup_session(client, &return_context, applied.tab_id.as_str());
        let ghost failure = if cleaned is Err {
            Some(error_message(cleaned->Err_0))
        } else {
            None::<Seq<char>>
        };
        assert(cleanup_failure(return_context.return_tab_id@, applied.tab_id@, h2, client.requests()) == failure);
        if let Err(cleanup) = &cleaned {
            support.warn_with("launch cleanup also failed: ", cleanup);
        }
        let removed = support.cleanup_files(&files);
        if let Err(cleanup) = &removed {
            support.warn_with("launch file cleanup also failed: ", cleanup);
        }
        assert(files_removed_after_failure(support.calls@, s3.len() as int, files, failure));
        assert(support.calls@.take(s0.len() as int) =~= s0);
        assert(client.requests().take(hc.len() as int) =~= hc);
        assert(client.requests().take(h2.len() as int) =~= h2);
        assert(client.requests().take(h0.len() as int) =~= h0);
        assert(client.requests().take(h1.len() as int) =~= h1);
        let ghost h = client.requests();
        assert(h[hc.len() as int] == h2[hc.len() as int]);
        assert(h[hc.len() + 1int] == h2[hc.len() + 1int]);
        proof {
            if focused_ok {
                assert(s3.len() == s2.len() + 1);
                assert(support.calls@[s2.len() as int] matches SupportCall::SignalReady { result: Err(_), .. });
            } else {
                assert(s3.len() == s2.len());
            }
        }
        return Err(error);
    }
    assert(support.calls@.take(s0.len() as int) =~= s0);
    assert(client.requests().take(h1.len() as int) =~= h1);
    Ok(())
}

} // verus!
