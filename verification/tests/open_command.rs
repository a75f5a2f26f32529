use herdr_pluck::error::PluckError;
use herdr_pluck::model::{
    OpenSettings, PaneId, PaneTextCaptureMode, PickerAction, PickerReturnContext, PickerScope,
    PickerSnapshot, SourcePaneSnapshot,
};
use herdr_pluck::open_command::{
    build_open_command, open_command_outcome, open_selection_with, ExitReport, OpenCommand, OpenUrlSuccess, RecordedOpener, UrlOpenError,
    UrlOpener,
};
use std::cell::RefCell;

#[derive(Default)]
struct FakeUrlOpener {
    opened: RefCell<Vec<String>>,
    commands: RefCell<Vec<OpenCommand>>,
    fail: bool,
}

impl UrlOpener for FakeUrlOpener {
    fn open(&self, url: &str) -> Result<OpenUrlSuccess, UrlOpenError> {
        self.opened.borrow_mut().push(url.to_string());
        if self.fail {
            return Err(UrlOpenError {
                message: "no browser".to_string(),
            });
        }
        Ok(OpenUrlSuccess {
            tool: "fake".to_string(),
        })
    }

    fn run_open_command(&self, command: &OpenCommand) -> Result<(), PluckError> {
        self.commands.borrow_mut().push(command.clone());
        Ok(())
    }
}

fn snapshot(open: OpenSettings) -> PickerSnapshot {
    PickerSnapshot {
        source: SourcePaneSnapshot {
            target_pane_id: PaneId::new("w1:p1"),
            source_tab_id: "w1:t1".to_string(),
            workspace_id: "w1".to_string(),
            source_panes: Vec::new(),
            capture_mode: PaneTextCaptureMode::ExactVisibleUnwrapped,
        },
        session: PickerReturnContext {
            return_tab_id: "w1:t1".to_string(),
            return_pane_id: PaneId::new("w1:p1"),
            zoom_picker: false,
        },
        action: PickerAction::Copy,
        scope: PickerScope::TargetPane,
        custom_patterns: Vec::new(),
        open,
    }
}

#[test]
fn no_configured_command_falls_back_to_the_system_opener() {
    let mut recorded = RecordedOpener::new(FakeUrlOpener::default());

    open_selection_with(
        &mut recorded,
        &snapshot(OpenSettings::default()),
        "https://example.com",
    )
    .unwrap();

    let opener = &recorded.opener;
    assert_eq!(*opener.opened.borrow(), vec!["https://example.com"]);
    assert!(opener.commands.borrow().is_empty());
}

#[test]
fn a_configured_command_bypasses_the_system_opener() {
    let mut recorded = RecordedOpener::new(FakeUrlOpener::default());
    let open = OpenSettings {
        command: vec!["sh".to_string(), "-c".to_string(), "cat > /tmp/out".to_string()],
        cwd: None,
    };

    open_selection_with(&mut recorded, &snapshot(open), "src/main.rs").unwrap();

    let opener = &recorded.opener;
    assert!(opener.opened.borrow().is_empty());
    let commands = opener.commands.borrow();
    assert_eq!(commands.len(), 1);
    assert_eq!(commands[0].program, "sh");
    assert_eq!(commands[0].args, vec!["-c".to_string(), "cat > /tmp/out".to_string()]);
    assert_eq!(commands[0].stdin, "src/main.rs");
}

#[test]
fn command_gets_the_match_on_stdin_and_pane_and_tab_in_env() {
    let settings = OpenSettings {
        command: vec!["handler".to_string()],
        cwd: Some("/work".to_string()),
    };

    let command = build_open_command(&settings, "src/main.rs", "w1:p3", "w1:t2").unwrap();

    assert_eq!(command.program, "handler");
    assert!(command.args.is_empty());
    assert_eq!(command.stdin, "src/main.rs");
    assert_eq!(
        command.env,
        vec![
            ("HERDR_PLUCK_PANE_ID".to_string(), "w1:p3".to_string()),
            ("HERDR_PLUCK_TAB_ID".to_string(), "w1:t2".to_string()),
        ]
    );
    assert_eq!(command.cwd, Some("/work".to_string()));
}

#[test]
fn empty_command_is_reported() {
    let error = build_open_command(&OpenSettings::default(), "x", "w1:p1", "w1:t1").unwrap_err();
    assert_eq!(error, PluckError::EmptyOpenCommand);
    assert!(error.message().contains("open command"));
}

#[test]
fn system_opener_failure_names_the_match() {
    let mut recorded = RecordedOpener::new(FakeUrlOpener {
        fail: true,
        ..FakeUrlOpener::default()
    });

    let error = open_selection_with(&mut recorded, &snapshot(OpenSettings::default()), "https://x.y")
        .unwrap_err();

    assert_eq!(error.message(), "failed to open selected match \"https://x.y\"");
    assert_eq!(
        error,
        PluckError::OpenFailed {
            text: "https://x.y".to_string(),
            cause: "no browser".to_string(),
        }
    );
}

#[test]
fn failed_open_message_escapes_the_match_as_debug_does() {
    let error = PluckError::OpenFailed {
        text: "say \"hi\"\n".to_string(),
        cause: String::new(),
    };
    assert_eq!(
        error.message(),
        format!("failed to open selected match {:?}", "say \"hi\"\n")
    );
    assert_eq!(error.message(), "failed to open selected match \"say \\\"hi\\\"\\n\"");
}

#[test]
fn opener_failure_propagates_the_command_result() {
    struct FailingCommand;
    impl UrlOpener for FailingCommand {
        fn open(&self, _url: &str) -> Result<OpenUrlSuccess, UrlOpenError> {
            Ok(OpenUrlSuccess { tool: "unused".to_string() })
        }
        fn run_open_command(&self, _command: &OpenCommand) -> Result<(), PluckError> {
            Err(PluckError::Other("handler crashed".to_string()))
        }
    }
    let open = OpenSettings {
        command: vec!["handler".to_string()],
        cwd: None,
    };
    let error = open_selection_with(&mut RecordedOpener::new(FailingCommand), &snapshot(open), "x").unwrap_err();
    assert_eq!(error, PluckError::Other("handler crashed".to_string()));
}

#[test]
fn failing_command_is_reported() {
    let settings = OpenSettings {
        command: vec![
            "sh".to_string(),
            "-c".to_string(),
            "cat > /dev/null; exit 3".to_string(),
        ],
        cwd: None,
    };

    let command = build_open_command(&settings, "x", "w1:p1", "w1:t1").unwrap();
    let error = open_command_outcome(
        &command.program,
        Some(ExitReport { success: false, description: "exit status: 3".to_string() }),
    )
    .unwrap_err();

    assert!(error.message().contains("open command"));
}
