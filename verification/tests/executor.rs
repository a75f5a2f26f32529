use herdr_pluck::error::PluckError;
use herdr_pluck::herdr::client::{AppliedLayout, HerdrClient, LaunchLayoutNode, PaneInfo, RecordedHerdr};
use herdr_pluck::herdr::executor::{capture_panes, cleanup_session, convert_layout, zoom_picker};
use herdr_pluck::herdr::layout::{LayoutPane, LayoutSnapshot, LayoutSplit};
use herdr_pluck::model::{
    LayoutNode, OpenSettings, PaneId, PaneTextCaptureMode, PickerAction, PickerReturnContext,
    PickerScope, PickerSnapshot, Rect, SourcePaneGeometry, SourcePaneSnapshot, SplitDirection,
    SplitRatio, VisibleViewport,
};

#[derive(Default)]
struct FakeClient {
    layout: Option<LayoutSnapshot>,
    calls: Vec<String>,
    fail_focus_pane: bool,
    fail_focus_tab: bool,
    pane_infos: Vec<PaneInfo>,
    fail_read_of: Option<String>,
}

impl HerdrClient for FakeClient {
    fn pane_list(&mut self, workspace_id: &str) -> Result<Vec<PaneInfo>, PluckError> {
        self.calls.push(format!("pane_list:{workspace_id}"));
        Ok(self.pane_infos.clone())
    }

    fn pane_layout(&mut self, _pane: &PaneId) -> Result<LayoutSnapshot, PluckError> {
        self.calls.push("pane_layout".into());
        self.layout
            .take()
            .ok_or_else(|| PluckError::Other("missing fake layout".into()))
    }

    fn pane_read_visible(&mut self, pane: &PaneId, lines: u16) -> Result<String, PluckError> {
        self.calls.push(format!("pane_read:{}:{lines}", pane.0));
        if self.fail_read_of.as_deref() == Some(pane.0.as_str()) {
            return Err(PluckError::Other("read failed".into()));
        }
        Ok(format!("https://example.com/{}", pane.0))
    }

    fn apply_layout(
        &mut self,
        workspace_id: &str,
        _tab_label: &str,
        _root: &LaunchLayoutNode,
    ) -> Result<AppliedLayout, PluckError> {
        self.calls.push(format!("apply:{workspace_id}"));
        Ok(AppliedLayout {
            tab_id: "w1:t2".into(),
            picker_pane_id: PaneId::new("w1:p2"),
        })
    }

    fn focus_pane(&mut self, pane: &PaneId) -> Result<(), PluckError> {
        self.calls.push(format!("focus_pane:{}", pane.0));
        if self.fail_focus_pane {
            Err(PluckError::Other("focus failed".into()))
        } else {
            Ok(())
        }
    }

    fn zoom_pane(&mut self, pane: &PaneId) -> Result<(), PluckError> {
        self.calls.push(format!("zoom:{}", pane.0));
        Ok(())
    }

    fn focus_tab(&mut self, tab_id: &str) -> Result<(), PluckError> {
        self.calls.push(format!("focus_tab:{tab_id}"));
        if self.fail_focus_tab {
            Err(PluckError::Other("tab focus failed".into()))
        } else {
            Ok(())
        }
    }

    fn close_tab(&mut self, tab_id: &str) -> Result<(), PluckError> {
        self.calls.push(format!("close_tab:{tab_id}"));
        Ok(())
    }
}

fn two_pane_layout() -> LayoutSnapshot {
    LayoutSnapshot {
        area: Rect::new(0, 0, 80, 24),
        focused_pane_id: Some("w1:p1".into()),
        panes: vec![
            LayoutPane {
                focused: true,
                pane_id: "w1:p1".into(),
                rect: Rect::new(0, 0, 40, 24),
            },
            LayoutPane {
                focused: false,
                pane_id: "w1:p2".into(),
                rect: Rect::new(40, 0, 40, 24),
            },
        ],
        splits: vec![LayoutSplit {
            direction: SplitDirection::Right,
            ratio: SplitRatio::from_bits(0.5f64.to_bits()),
            rect: Rect::new(0, 0, 80, 24),
        }],
        tab_id: Some("w1:t1".into()),
        workspace_id: Some("w1".into()),
        zoomed: false,
    }
}

fn picker_snapshot(zoom_picker: bool) -> PickerSnapshot {
    PickerSnapshot {
        source: SourcePaneSnapshot {
            target_pane_id: PaneId::new("w1:p1"),
            source_tab_id: "w1:t1".into(),
            workspace_id: "w1".into(),
            source_panes: vec![SourcePaneGeometry {
                pane_id: PaneId::new("w1:p1"),
                outer_rect: Rect::new(0, 0, 80, 24),
                content_rect: Rect::new(0, 0, 80, 24),
                content_width: 80,
                content_height: 24,
                logical_lines: Vec::new(),
                visible_viewport: Some(VisibleViewport {
                    rows: Vec::new(),
                    logical_lines: Vec::new(),
                    segments: Vec::new(),
                }),
                cwd: None,
            }],
            capture_mode: PaneTextCaptureMode::ExactVisibleUnwrapped,
        },
        session: PickerReturnContext {
            return_tab_id: "w1:t1".into(),
            return_pane_id: PaneId::new("w1:p1"),
            zoom_picker,
        },
        action: PickerAction::Copy,
        scope: PickerScope::TargetPane,
        custom_patterns: Vec::new(),
        open: OpenSettings::default(),
    }
}

#[test]
fn conversion_preserves_argv_and_split() {
    let tree = LayoutNode::Split {
        direction: SplitDirection::Right,
        ratio: SplitRatio::from_bits(0.37f64.to_bits()),
        first: Box::new(LayoutNode::Pane {
            source_pane_id: PaneId::new("a"),
            rect: Rect::new(0, 0, 1, 1),
        }),
        second: Box::new(LayoutNode::Pane {
            source_pane_id: PaneId::new("b"),
            rect: Rect::new(0, 0, 1, 1),
        }),
        rect: Rect::new(0, 0, 2, 1),
    };
    let converted = convert_layout(&tree, &PaneId::new("b"), "/a b/π'", "/s p", "/r p");
    let LaunchLayoutNode::Split {
        direction,
        ratio,
        second,
        ..
    } = converted
    else {
        panic!("expected split layout");
    };
    assert_eq!(direction, SplitDirection::Right);
    assert_eq!(f64::from_bits(ratio.bits), 0.37);
    assert!(matches!(
        second.as_ref(),
        LaunchLayoutNode::Pane { command }
            if command.first().is_some_and(|value| value == "/a b/π'")
                && command.get(1).is_some_and(|value| value == "pick")
    ));
}

#[test]
fn capture_prefers_foreground_cwd_and_falls_back_to_cwd() {
    let mut client = RecordedHerdr::new(FakeClient {
        layout: Some(two_pane_layout()),
        pane_infos: vec![
            PaneInfo {
                pane_id: "w1:p1".into(),
                cwd: Some("/repo".into()),
                foreground_cwd: Some("/repo/sub".into()),
            },
            PaneInfo {
                pane_id: "w1:p2".into(),
                cwd: Some("/other".into()),
                foreground_cwd: None,
            },
        ],
        ..FakeClient::default()
    });
    let layout = client.client.layout.clone().unwrap();

    let panes = capture_panes(&mut client, &layout).unwrap();

    assert_eq!(panes[0].cwd, Some("/repo/sub".to_string()));
    assert_eq!(panes[1].cwd, Some("/other".to_string()));
}

#[test]
fn conversion_gives_non_target_panes_a_mirror_command() {
    let tree = LayoutNode::Split {
        direction: SplitDirection::Right,
        ratio: SplitRatio::from_bits(0.5f64.to_bits()),
        first: Box::new(LayoutNode::Pane {
            source_pane_id: PaneId::new("a"),
            rect: Rect::new(0, 0, 1, 1),
        }),
        second: Box::new(LayoutNode::Pane {
            source_pane_id: PaneId::new("b"),
            rect: Rect::new(0, 0, 1, 1),
        }),
        rect: Rect::new(0, 0, 2, 1),
    };

    let converted = convert_layout(&tree, &PaneId::new("b"), "/bin/pluck", "/s", "/r");

    let LaunchLayoutNode::Split { first, .. } = converted else {
        panic!("expected split layout");
    };
    assert!(matches!(
        first.as_ref(),
        LaunchLayoutNode::Pane { command }
            if command == &vec![
                "/bin/pluck".to_string(),
                "mirror".to_string(),
                "--snapshot".to_string(),
                "/s".to_string(),
                "--pane".to_string(),
                "a".to_string(),
                "--ready".to_string(),
                "/r".to_string(),
            ]
    ));
}

#[test]
fn cleanup_attempts_close_after_focus_failure_and_rejects_source_tab() {
    let session = picker_snapshot(false).session;
    let mut client = RecordedHerdr::new(FakeClient {
        fail_focus_tab: true,
        ..FakeClient::default()
    });

    let error = cleanup_session(&mut client, &session, "w1:t2").unwrap_err();

    assert_eq!(error.message(), "tab focus failed");
    assert_eq!(client.client.calls, ["focus_tab:w1:t1", "close_tab:w1:t2"]);
    assert!(cleanup_session(&mut client, &session, "w1:t1")
        .unwrap_err()
        .message()
        .contains("refusing"));
}

#[test]
fn zooms_only_when_snapshot_requests_it() {
    let mut client = RecordedHerdr::new(FakeClient::default());
    zoom_picker(&mut client, &picker_snapshot(false), &PaneId::new("w1:p2")).unwrap();
    zoom_picker(&mut client, &picker_snapshot(true), &PaneId::new("w1:p2")).unwrap();
    assert_eq!(client.client.calls, ["zoom:w1:p2"]);
}

#[test]
fn cleanup_rejects_an_empty_temporary_tab_without_calls() {
    let session = picker_snapshot(false).session;
    let mut client = RecordedHerdr::new(FakeClient::default());

    let error = cleanup_session(&mut client, &session, "").unwrap_err();

    assert_eq!(error, PluckError::MissingTemporaryTab);
    assert_eq!(error.message(), "temporary picker tab id is missing");
    assert!(client.client.calls.is_empty());
}

#[test]
fn capture_reads_each_pane_and_wraps_its_text() {
    let mut client = RecordedHerdr::new(FakeClient::default());
    let layout = two_pane_layout();

    let panes = capture_panes(&mut client, &layout).unwrap();

    assert_eq!(
        client.client.calls,
        ["pane_list:w1", "pane_read:w1:p1:24", "pane_read:w1:p2:24"]
    );
    assert_eq!(panes[1].logical_lines, vec!["https://example.com/w1:p2".to_string()]);
    let viewport = panes[1].visible_viewport.as_ref().unwrap();
    assert_eq!(viewport.rows, vec!["https://example.com/w1:p2".to_string()]);
    assert_eq!(panes[0].cwd, None);
}

#[test]
fn capture_skips_panes_without_rows() {
    let mut client = RecordedHerdr::new(FakeClient::default());
    let mut layout = two_pane_layout();
    layout.panes[1].rect = Rect::new(40, 0, 40, 0);
    layout.workspace_id = None;

    let panes = capture_panes(&mut client, &layout).unwrap();

    assert_eq!(client.client.calls, ["pane_read:w1:p1:24"]);
    assert!(panes[1].visible_viewport.is_none());
    assert!(panes[1].logical_lines.is_empty());
}

#[test]
fn capture_without_workspace_or_rows_asks_nothing() {
    let mut client = RecordedHerdr::new(FakeClient::default());
    let mut layout = two_pane_layout();
    layout.workspace_id = None;
    layout.panes[0].rect = Rect::new(0, 0, 40, 0);
    layout.panes[1].rect = Rect::new(40, 0, 40, 0);

    let panes = capture_panes(&mut client, &layout).unwrap();

    assert!(client.client.calls.is_empty());
    assert_eq!(panes.len(), 2);
    assert!(panes.iter().all(|p| p.visible_viewport.is_none() && p.cwd.is_none()));
}

#[test]
fn capture_stops_at_the_first_failed_read_and_returns_its_error() {
    let layout = two_pane_layout();
    let mut client = RecordedHerdr::new(FakeClient {
        fail_read_of: Some("w1:p1".into()),
        ..Default::default()
    });

    let error = capture_panes(&mut client, &layout).unwrap_err();

    assert_eq!(error, PluckError::Other("read failed".into()));
    assert_eq!(client.client.calls, ["pane_list:w1", "pane_read:w1:p1:24"]);
}
