use herdr_pluck::error::PluckError;
use herdr_pluck::herdr::client::{AppliedLayout, HerdrClient, LaunchLayoutNode, PaneInfo, RecordedHerdr};
use herdr_pluck::herdr::launch::{
    build_source_snapshot, launch_layout_tab_picker, launch_tab_label, return_context_for, target_content_height,
    LaunchSupport, PickerLaunchFiles, RecordedSupport,
};
use herdr_pluck::herdr::layout::{derive_layout_recreation_plan, LayoutPane, LayoutSnapshot, LayoutSplit};
use herdr_pluck::model::{
    LayoutNode, OpenSettings, PaneId, PickerAction, PickerScope, PickerSnapshot, Rect,
    SplitDirection, SplitRatio,
};
use std::cell::RefCell;
use std::collections::BTreeSet;
use std::rc::Rc;

/// Files that exist, shared by the fake client and the fake launch support.
type Disk = Rc<RefCell<BTreeSet<String>>>;

struct FakeClient {
    layout: Option<LayoutSnapshot>,
    calls: Vec<String>,
    launch_paths: Option<(String, String)>,
    fail_focus_pane: bool,
    fail_focus_tab: bool,
    disk: Disk,
}

impl FakeClient {
    fn new(layout: LayoutSnapshot, disk: &Disk) -> Self {
        FakeClient {
            layout: Some(layout),
            calls: Vec::new(),
            launch_paths: None,
            fail_focus_pane: false,
            fail_focus_tab: false,
            disk: disk.clone(),
        }
    }
}

fn picker_paths(node: &LaunchLayoutNode) -> Option<(String, String)> {
    match node {
        LaunchLayoutNode::Pane { command }
            if command.get(1).is_some_and(|argument| argument == "pick") =>
        {
            Some((command.get(3)?.clone(), command.get(5)?.clone()))
        }
        LaunchLayoutNode::Split { first, second, .. } => {
            picker_paths(first).or_else(|| picker_paths(second))
        }
        _ => None,
    }
}

impl HerdrClient for FakeClient {
    fn pane_list(&mut self, workspace_id: &str) -> Result<Vec<PaneInfo>, PluckError> {
        self.calls.push(format!("pane_list:{workspace_id}"));
        Ok(Vec::new())
    }

    fn pane_layout(&mut self, _pane: &PaneId) -> Result<LayoutSnapshot, PluckError> {
        self.calls.push("pane_layout".into());
        self.layout
            .take()
            .ok_or_else(|| PluckError::Other("missing fake layout".into()))
    }

    fn pane_read_visible(&mut self, pane: &PaneId, lines: u16) -> Result<String, PluckError> {
        self.calls.push(format!("pane_read:{}:{lines}", pane.0));
        Ok(format!("https://example.com/{}", pane.0))
    }

    fn apply_layout(
        &mut self,
        workspace_id: &str,
        _tab_label: &str,
        root: &LaunchLayoutNode,
    ) -> Result<AppliedLayout, PluckError> {
        self.calls.push(format!("apply:{workspace_id}"));
        self.launch_paths = picker_paths(root);
        Ok(AppliedLayout {
            tab_id: "w1:t2".into(),
            picker_pane_id: PaneId::new("w1:p2"),
        })
    }

    fn focus_pane(&mut self, pane: &PaneId) -> Result<(), PluckError> {
        self.calls.push(format!("focus_pane:{}", pane.0));
        let (_, ready) = self
            .launch_paths
            .as_ref()
            .ok_or_else(|| PluckError::Other("missing launch paths".into()))?;
        assert!(
            !self.disk.borrow().contains(ready),
            "barrier released before picker focus"
        );
        if self.fail_focus_pane {
            Err(PluckError::Other("focus failed".into()))
        } else {
            Ok(())
        }
    }

    fn zoom_pane(&mut self, pane: &PaneId) -> Result<(), PluckError> {
        self.calls.push(format!("zoom:{}", pane.0));
        Ok(())
    }

    fn focus_tab(&mut self, tab_id: &str) -> Result<(), PluckError> {
        self.calls.push(format!("focus_tab:{tab_id}"));
        if self.fail_focus_tab {
            Err(PluckError::Other("tab focus failed".into()))
        } else {
            Ok(())
        }
    }

    fn close_tab(&mut self, tab_id: &str) -> Result<(), PluckError> {
        self.calls.push(format!("close_tab:{tab_id}"));
        Ok(())
    }
}

struct FakeSupport {
    disk: Disk,
    snapshots: RefCell<Vec<PickerSnapshot>>,
    warnings: RefCell<Vec<String>>,
}

impl FakeSupport {
    fn new(disk: &Disk) -> Self {
        FakeSupport {
            disk: disk.clone(),
            snapshots: RefCell::new(Vec::new()),
            warnings: RefCell::new(Vec::new()),
        }
    }
}

impl LaunchSupport for &FakeSupport {
    fn starts_before_boundary(&self, split: &LayoutSplit, region: Rect, pane: Rect) -> bool {
        let ratio = f64::from_bits(split.ratio.bits);
        match split.direction {
            SplitDirection::Right => (pane.x as f64) < region.x as f64 + region.width as f64 * ratio,
            SplitDirection::Down => (pane.y as f64) < region.y as f64 + region.height as f64 * ratio,
        }
    }

    fn create_files(&self, snapshot: &PickerSnapshot) -> Result<PickerLaunchFiles, PluckError> {
        self.snapshots.borrow_mut().push(snapshot.clone());
        self.disk.borrow_mut().insert("/tmp/pluck/snapshot.json".into());
        Ok(PickerLaunchFiles {
            snapshot_path: "/tmp/pluck/snapshot.json".into(),
            ready_path: "/tmp/pluck/snapshot.ready".into(),
        })
    }

    fn signal_ready(&self, files: &PickerLaunchFiles) -> Result<(), PluckError> {
        self.disk.borrow_mut().insert(files.ready_path.clone());
        Ok(())
    }

    fn cleanup_files(&self, files: &PickerLaunchFiles) -> Result<(), PluckError> {
        self.disk.borrow_mut().remove(&files.snapshot_path);
        self.disk.borrow_mut().remove(&files.ready_path);
        Ok(())
    }

    fn warn(&self, message: &str) {
        self.warnings.borrow_mut().push(message.to_string());
    }
}

fn source_layout(zoomed: bool) -> LayoutSnapshot {
    LayoutSnapshot {
        area: Rect::new(0, 0, 80, 24),
        focused_pane_id: Some("w1:p1".into()),
        panes: vec![LayoutPane {
            focused: true,
            pane_id: "w1:p1".into(),
            rect: Rect::new(0, 0, 80, 24),
        }],
        splits: Vec::new(),
        tab_id: Some("w1:t1".into()),
        workspace_id: Some("w1".into()),
        zoomed,
    }
}

fn two_pane_layout() -> LayoutSnapshot {
    LayoutSnapshot {
        area: Rect::new(0, 0, 80, 24),
        focused_pane_id: Some("w1:p1".into()),
        panes: vec![
            LayoutPane {
                focused: true,
                pane_id: "w1:p1".into(),
                rect: Rect::new(0, 0, 40, 24),
            },
            LayoutPane {
                focused: false,
                pane_id: "w1:p2".into(),
                rect: Rect::new(40, 0, 40, 24),
            },
        ],
        splits: vec![LayoutSplit {
            direction: SplitDirection::Right,
            ratio: SplitRatio::from_bits(0.5f64.to_bits()),
            rect: Rect::new(0, 0, 80, 24),
        }],
        tab_id: Some("w1:t1".into()),
        workspace_id: Some("w1".into()),
        zoomed: false,
    }
}

fn launch(client: &mut FakeClient, support: &FakeSupport, binary: &str) -> Result<(), PluckError> {
    let placeholder = FakeClient::new(source_layout(false), &client.disk.clone());
    let mut recorded = RecordedHerdr::new(std::mem::replace(client, placeholder));
    let result = launch_layout_tab_picker(
        &mut recorded,
        &mut RecordedSupport::new(support),
        &PaneId::new("w1:p1"),
        binary,
        PickerAction::Copy,
        PickerScope::TargetPane,
        Vec::new(),
        OpenSettings::default(),
    );
    *client = recorded.client;
    result
}

#[test]
fn launch_focuses_picker_before_releasing_barrier() {
    let disk = Disk::default();
    let mut client = FakeClient::new(source_layout(false), &disk);
    let support = FakeSupport::new(&disk);

    launch(&mut client, &support, "/tmp/herdr pluck").unwrap();

    assert_eq!(
        client.calls,
        [
            "pane_layout",
            "pane_list:w1",
            "pane_read:w1:p1:24",
            "apply:w1",
            "focus_pane:w1:p2"
        ]
    );
    let (_snapshot, ready) = client.launch_paths.unwrap();
    assert!(disk.borrow().contains(&ready));
}

#[test]
fn every_pane_is_captured_and_non_target_panes_mirror() {
    let disk = Disk::default();
    let mut client = FakeClient::new(two_pane_layout(), &disk);
    let support = FakeSupport::new(&disk);

    launch(&mut client, &support, "/tmp/herdr-pluck").unwrap();

    assert!(client
        .calls
        .iter()
        .any(|call| call.starts_with("pane_read:w1:p1:")));
    assert!(client
        .calls
        .iter()
        .any(|call| call.starts_with("pane_read:w1:p2:")));

    let snapshots = support.snapshots.borrow();
    let mirrored = snapshots[0]
        .source
        .source_panes
        .iter()
        .find(|pane| pane.pane_id == PaneId::new("w1:p2"))
        .expect("second pane captured");
    assert!(mirrored
        .logical_lines
        .iter()
        .any(|line| line.contains("w1:p2")));
}

#[test]
fn failed_focus_compensates_with_returned_tab_id_and_preserves_primary_error() {
    let disk = Disk::default();
    let mut client = FakeClient::new(source_layout(false), &disk);
    client.fail_focus_pane = true;
    client.fail_focus_tab = true;
    let support = FakeSupport::new(&disk);

    let error = launch(&mut client, &support, "/tmp/herdr-pluck").unwrap_err();

    assert_eq!(error.message(), "focus failed");
    assert!(client.calls.contains(&"focus_tab:w1:t1".into()));
    assert!(client.calls.contains(&"close_tab:w1:t2".into()));
    let (snapshot, ready) = client.launch_paths.unwrap();
    assert!(!disk.borrow().contains(&snapshot) && !disk.borrow().contains(&ready));
    assert_eq!(
        *support.warnings.borrow(),
        vec!["launch cleanup also failed: tab focus failed".to_string()]
    );
}

#[test]
fn zero_height_target_is_refused_before_capture() {
    let disk = Disk::default();
    let mut layout = source_layout(false);
    layout.panes[0].rect = Rect::new(0, 0, 80, 0);
    let mut client = FakeClient::new(layout, &disk);
    let support = FakeSupport::new(&disk);

    let error = launch(&mut client, &support, "/bin/pluck").unwrap_err();

    assert_eq!(error, PluckError::ZeroContentHeight("w1:p1".into()));
    assert_eq!(
        error.message(),
        "target pane w1:p1 has zero visible content height"
    );
    assert_eq!(client.calls, ["pane_layout"]);
}

#[test]
fn zoomed_tab_on_focused_target_zooms_the_picker() {
    let context = return_context_for(&source_layout(true), &PaneId::new("w1:p1")).unwrap();
    assert!(context.zoom_picker);
    assert_eq!(context.return_tab_id, "w1:t1");

    let context = return_context_for(&source_layout(false), &PaneId::new("w1:p1")).unwrap();
    assert!(!context.zoom_picker);

    let mut layout = source_layout(true);
    layout.focused_pane_id = None;
    layout.panes[0].focused = false;
    let context = return_context_for(&layout, &PaneId::new("w1:p1")).unwrap();
    assert!(!context.zoom_picker);
}

#[test]
fn missing_ids_are_reported() {
    let mut layout = source_layout(false);
    layout.tab_id = None;
    assert_eq!(
        return_context_for(&layout, &PaneId::new("w1:p1")).unwrap_err(),
        PluckError::MissingTabId
    );

    let mut layout = source_layout(false);
    layout.workspace_id = None;
    let context = return_context_for(&layout, &PaneId::new("w1:p1")).unwrap();
    let error = build_source_snapshot(
        &layout,
        &PaneId::new("w1:p1"),
        Vec::new(),
        context,
        PickerAction::Copy,
        PickerScope::TargetPane,
        Vec::new(),
        OpenSettings::default(),
    )
    .unwrap_err();
    assert_eq!(error, PluckError::MissingWorkspaceId);
}

#[test]
fn tab_labels_name_the_picker() {
    assert_eq!(
        launch_tab_label(PickerAction::Copy, PickerScope::TargetPane),
        "Herdr Pluck"
    );
    assert_eq!(
        launch_tab_label(PickerAction::Copy, PickerScope::AllPanes),
        "Herdr Pluck: All Panes"
    );
    assert_eq!(
        launch_tab_label(PickerAction::OpenUrl, PickerScope::AllPanes),
        "Herdr Pluck: Open URL"
    );
}

#[test]
fn target_height_comes_from_the_target_pane() {
    let layout = two_pane_layout();
    assert_eq!(target_content_height(&layout, &PaneId::new("w1:p2")), 24);
    assert_eq!(target_content_height(&layout, &PaneId::new("w9:p9")), 0);
}

struct FailingApply(FakeClient);
impl HerdrClient for FailingApply {
    fn pane_list(&mut self, w: &str) -> Result<Vec<PaneInfo>, PluckError> {
        self.0.pane_list(w)
    }
    fn pane_layout(&mut self, p: &PaneId) -> Result<LayoutSnapshot, PluckError> {
        self.0.pane_layout(p)
    }
    fn pane_read_visible(&mut self, p: &PaneId, l: u16) -> Result<String, PluckError> {
        self.0.pane_read_visible(p, l)
    }
    fn apply_layout(&mut self, _w: &str, _l: &str, _r: &LaunchLayoutNode) -> Result<AppliedLayout, PluckError> {
        self.0.calls.push("apply".into());
        Err(PluckError::Other("apply failed".into()))
    }
    fn focus_pane(&mut self, p: &PaneId) -> Result<(), PluckError> {
        self.0.focus_pane(p)
    }
    fn zoom_pane(&mut self, p: &PaneId) -> Result<(), PluckError> {
        self.0.zoom_pane(p)
    }
    fn focus_tab(&mut self, t: &str) -> Result<(), PluckError> {
        self.0.focus_tab(t)
    }
    fn close_tab(&mut self, t: &str) -> Result<(), PluckError> {
        self.0.close_tab(t)
    }
}

#[test]
fn failed_apply_removes_files_without_touching_tabs() {
    let disk = Disk::default();
    let mut client = RecordedHerdr::new(FailingApply(FakeClient::new(source_layout(false), &disk)));
    let support = FakeSupport::new(&disk);

    let error = launch_layout_tab_picker(
        &mut client,
        &mut RecordedSupport::new(&support),
        &PaneId::new("w1:p1"),
        "/bin/pluck",
        PickerAction::OpenUrl,
        PickerScope::TargetPane,
        Vec::new(),
        OpenSettings::default(),
    )
    .unwrap_err();

    assert_eq!(error.message(), "apply failed");
    assert_eq!(client.client.0.calls.last().unwrap(), "apply");
    assert!(disk.borrow().is_empty());
    assert!(support.warnings.borrow().is_empty());
}

#[test]
fn recreation_plan_splits_panes_at_the_boundary() {
    let disk = Disk::default();
    let support = FakeSupport::new(&disk);
    let layout = two_pane_layout();

    let plan = derive_layout_recreation_plan(&&support, &layout, &PaneId::new("w1:p1")).unwrap();

    match plan {
        LayoutNode::Split { direction, ratio, first, second, rect } => {
            assert_eq!(direction, SplitDirection::Right);
            assert_eq!(ratio, SplitRatio::from_bits(0.5f64.to_bits()));
            assert_eq!(rect, Rect::new(0, 0, 80, 24));
            assert!(matches!(*first, LayoutNode::Pane { ref source_pane_id, rect } if source_pane_id.0 == "w1:p1" && rect == Rect::new(0, 0, 40, 24)));
            assert!(matches!(*second, LayoutNode::Pane { ref source_pane_id, rect } if source_pane_id.0 == "w1:p2" && rect == Rect::new(40, 0, 40, 24)));
        }
        LayoutNode::Pane { .. } => panic!("expected a split"),
    }
}

#[test]
fn recreation_plan_of_one_pane_is_a_leaf_and_of_none_is_refused() {
    let disk = Disk::default();
    let support = FakeSupport::new(&disk);
    let plan = derive_layout_recreation_plan(&&support, &source_layout(false), &PaneId::new("w1:p1")).unwrap();
    assert!(matches!(plan, LayoutNode::Pane { ref source_pane_id, .. } if source_pane_id.0 == "w1:p1"));

    let mut empty = source_layout(false);
    empty.panes.clear();
    let error = derive_layout_recreation_plan(&&support, &empty, &PaneId::new("w1:p1")).unwrap_err();
    assert_eq!(error.message(), "pane layout has no panes");
}

#[test]
fn recreation_plan_without_a_covering_split_is_refused() {
    let disk = Disk::default();
    let support = FakeSupport::new(&disk);
    let mut layout = two_pane_layout();
    layout.splits[0].rect = Rect::new(0, 0, 80, 23);

    let error = derive_layout_recreation_plan(&&support, &layout, &PaneId::new("w1:p1")).unwrap_err();

    assert_eq!(error.message(), "could not recreate the pane layout");
}
