use herdr_pluck::cli::{choose_target, resolve_target, run_with, Cli, Command, PluckAdapter, RunAction};
use herdr_pluck::error::PluckError;
use herdr_pluck::herdr::client::PaneInfo;
use herdr_pluck::herdr::executor::{layout_target_is_focused, pick_cwd};
use herdr_pluck::herdr::layout::{LayoutPane, LayoutSnapshot};
use herdr_pluck::model::{PaneId, Rect};
use herdr_pluck::open_command::{open_command_outcome, wait_decision, ExitReport, WaitAction};
use std::cell::RefCell;

#[derive(Default)]
struct FakeAdapter {
    context: Option<PaneId>,
    calls: RefCell<Vec<String>>,
}

impl PluckAdapter for FakeAdapter {
    fn target_pane_from_context(&self) -> Option<PaneId> {
        self.calls.borrow_mut().push("context".into());
        self.context.clone()
    }

    fn open_copy_picker(&self, target: &PaneId) -> Result<(), PluckError> {
        self.calls.borrow_mut().push(format!("copy:{}", target.0));
        Ok(())
    }

    fn open_url_picker(&self, target: &PaneId) -> Result<(), PluckError> {
        self.calls.borrow_mut().push(format!("url:{}", target.0));
        Ok(())
    }

    fn run_picker_from_snapshot(&self, snapshot: &str, ready: &str) -> Result<(), PluckError> {
        self.calls.borrow_mut().push(format!("pick:{snapshot}:{ready}"));
        Ok(())
    }

    fn run_mirror(&self, snapshot: &str, ready: &str, pane: &PaneId) -> Result<(), PluckError> {
        self.calls.borrow_mut().push(format!("mirror:{snapshot}:{ready}:{}", pane.0));
        Ok(())
    }
}

#[test]
fn named_target_pane_wins_over_the_context() {
    let adapter = FakeAdapter {
        context: Some(PaneId::new("ctx")),
        ..FakeAdapter::default()
    };
    let target = resolve_target(&adapter, Some("w1:p9".to_string())).unwrap();
    assert_eq!(target, PaneId::new("w1:p9"));
    assert!(adapter.calls.borrow().is_empty());

    let target = resolve_target(&adapter, None).unwrap();
    assert_eq!(target, PaneId::new("ctx"));
}

#[test]
fn missing_target_pane_is_reported() {
    assert_eq!(choose_target(None, None).unwrap_err(), PluckError::NoTargetPane);
    let error = run_with(
        Cli {
            command: Command::Open { target_pane: None },
        },
        None,
    )
    .unwrap_err();
    assert!(error.message().starts_with("could not determine target pane"));
}

#[test]
fn each_command_runs_its_entrypoint() {
    assert_eq!(
        run_with(Cli { command: Command::OpenUrl { target_pane: Some("p".into()) } }, Some(PaneId::new("ctx"))).unwrap(),
        RunAction::OpenUrlPicker(PaneId::new("p"))
    );
    assert_eq!(
        run_with(Cli { command: Command::Open { target_pane: None } }, Some(PaneId::new("ctx"))).unwrap(),
        RunAction::OpenCopyPicker(PaneId::new("ctx"))
    );
    assert_eq!(
        run_with(Cli { command: Command::Pick { snapshot: "s".into(), ready: "r".into() } }, None).unwrap(),
        RunAction::RunPicker { snapshot: "s".into(), ready: "r".into() }
    );
    assert_eq!(
        run_with(
            Cli {
                command: Command::Mirror { snapshot: "s".into(), pane: "w1:p2".into(), ready: "r".into() },
            },
            None,
        )
        .unwrap(),
        RunAction::RunMirror { snapshot: "s".into(), ready: "r".into(), pane: PaneId::new("w1:p2") }
    );
}

#[test]
fn first_report_of_a_pane_gives_its_cwd() {
    let infos = vec![
        PaneInfo { pane_id: "a".into(), cwd: None, foreground_cwd: None },
        PaneInfo { pane_id: "b".into(), cwd: Some("/b".into()), foreground_cwd: None },
        PaneInfo { pane_id: "b".into(), cwd: Some("/later".into()), foreground_cwd: Some("/later/fg".into()) },
    ];
    assert_eq!(pick_cwd(&infos, &PaneId::new("a")), None);
    assert_eq!(pick_cwd(&infos, &PaneId::new("b")), Some("/b".to_string()));
    assert_eq!(pick_cwd(&infos, &PaneId::new("c")), None);
}

#[test]
fn focus_comes_from_the_layout_or_the_pane() {
    let mut layout = LayoutSnapshot {
        area: Rect::new(0, 0, 10, 10),
        focused_pane_id: None,
        panes: vec![LayoutPane { focused: true, pane_id: "p1".into(), rect: Rect::new(0, 0, 10, 10) }],
        splits: Vec::new(),
        tab_id: None,
        workspace_id: None,
        zoomed: false,
    };
    assert!(layout_target_is_focused(&layout, &PaneId::new("p1")));
    assert!(!layout_target_is_focused(&layout, &PaneId::new("p2")));
    layout.focused_pane_id = Some("p2".into());
    assert!(layout_target_is_focused(&layout, &PaneId::new("p2")));
}

#[test]
fn open_command_failure_names_program_and_status() {
    assert!(open_command_outcome("sh", None).is_ok());
    assert!(open_command_outcome("sh", Some(ExitReport { success: true, description: "exit status: 0".into() })).is_ok());
    let error = open_command_outcome(
        "sh",
        Some(ExitReport { success: false, description: "exit status: 3".into() }),
    )
    .unwrap_err();
    assert_eq!(error.message(), "open command \"sh\" failed: exit status: 3");
    let quoted = open_command_outcome(
        "my \"sh\"",
        Some(ExitReport { success: false, description: "exit status: 1".into() }),
    )
    .unwrap_err();
    assert_eq!(quoted.message(), "open command \"my \\\"sh\\\"\" failed: exit status: 1");
    assert!(error.message().contains("open command"));
}

#[test]
fn waiting_kills_only_after_the_timeout() {
    assert_eq!(wait_decision(true, 9_000, 5_000), WaitAction::Report);
    assert_eq!(wait_decision(false, 4_999, 5_000), WaitAction::PollAgain);
    assert_eq!(wait_decision(false, 5_000, 5_000), WaitAction::KillSilently);
}
