//! The commands of the `herdr-pluck` binary and what each of them runs.

use crate::error::PluckError;
use crate::model::PaneId;
use vstd::prelude::*;

verus! {

/// The parsed command line.
#[derive(Debug)]
pub struct Cli {
    pub command: Command,
}

/// The entrypoints of the binary.
#[derive(Debug, Clone, PartialEq, Eq)]
pub enum Command {
    /// Action entrypoint: apply an argv-backed temporary picker layout.
    Open { target_pane: Option<String> },
    /// Action entrypoint: open a selected visible URL in the default browser.
    OpenUrl { target_pane: Option<String> },
    /// Picker entrypoint: run inside the temporary layout-tab target pane.
    Pick { snapshot: String, ready: String },
    /// Internal entrypoint: render the non-picker panes of the temporary tab.
    Mirror { snapshot: String, pane: String, ready: String },
}

/// The work behind each entrypoint, done against the running Herdr.
pub trait PluckAdapter {
    /// The pane that Herdr's invocation context names, if any.
    fn target_pane_from_context(&self) -> Option<PaneId>;

    fn open_copy_picker(&self, target: &PaneId) -> Result<(), PluckError>;

    fn open_url_picker(&self, target: &PaneId) -> Result<(), PluckError>;

    fn run_picker_from_snapshot(&self, snapshot: &str, ready: &str) -> Result<(), PluckError>;

    fn run_mirror(&self, snapshot: &str, ready: &str, pane: &PaneId) -> Result<(), PluckError>;
}

/// The target pane: the one named on the command line, else the one from the context.
pub fn choose_target(target_pane: Option<String>, context: Option<PaneId>) -> (r: Result<PaneId, PluckError>)
    ensures
        match target_pane {
            Some(t) => r matches Ok(p) && p.0@ == t@,
            None => match context {
                Some(c) => r matches Ok(p) && p.0@ == c.0@,
                None => r == Err::<PaneId, PluckError>(PluckError::NoTargetPane),
            },
        },
{
    match target_pane {
        Some(t) => Ok(PaneId(t)),
        None => match context {
            Some(c) => Ok(c),
            None => Err(PluckError::NoTargetPane),
        },
    }
}

/// The target pane; the context is asked only when none was named.
pub fn resolve_target<A: PluckAdapter>(adapter: &A, target_pane: Option<String>) -> (r: Result<PaneId, PluckError>)
    ensures
        target_pane matches Some(t) ==> r matches Ok(p) && p.0@ == t@,
        target_pane is None ==> (r is Ok || r == Err::<PaneId, PluckError>(PluckError::NoTargetPane)),
{
    match target_pane {
        Some(t) => choose_target(Some(t), None),
        None => choose_target(None, adapter.target_pane_from_context()),
    }
}

/// What an entrypoint runs, and on which pane or files.
#[derive(Debug, Clone, PartialEq, Eq)]
pub enum RunAction {
    /// Launch the copy picker over the target pane.
    OpenCopyPicker(PaneId),
    /// Launch the open-URL picker over the target pane.
    OpenUrlPicker(PaneId),
    /// Run the picker from a snapshot once the barrier is released.
    RunPicker { snapshot: String, ready: String },
    /// Mirror one source pane from a snapshot once the barrier is released.
    RunMirror { snapshot: String, ready: String, pane: PaneId },
}

/// The target pane: the one named on the command line, else the one from the context.
pub open spec fn target_choice(target_pane: Option<String>, context: Option<PaneId>) -> Option<Seq<char>> {
    match target_pane {
        Some(t) => Some(t@),
        None => match context {
            Some(c) => Some(c.0@),
            None => None,
        },
    }
}

/// Decides what the command line runs: its entrypoint, and for `open` and
/// `open-url` the target pane, which is the one named on the command line, else
/// the one from Herdr's context. Without either, `open` and `open-url` fail with
/// `NoTargetPane`.
pub fn run_with(cli: Cli, context: Option<PaneId>) -> (r: Result<RunAction, PluckError>)
    ensures
        match cli.command {
            Command::Open { target_pane } => match target_choice(target_pane, context) {
                Some(p) => r matches Ok(RunAction::OpenCopyPicker(q)) && q.0@ == p,
                None => r == Err::<RunAction, PluckError>(PluckError::NoTargetPane),
            },
            Command::OpenUrl { target_pane } => match target_choice(target_pane, context) {
                Some(p) => r matches Ok(RunAction::OpenUrlPicker(q)) && q.0@ == p,
                None => r == Err::<RunAction, PluckError>(PluckError::NoTargetPane),
            },
            Command::Pick { snapshot, ready } => r matches Ok(RunAction::RunPicker { snapshot: s, ready: d })
                && s@ == snapshot@ && d@ == ready@,
            Command::Mirror { snapshot, pane, ready } => r matches Ok(RunAction::RunMirror { snapshot: s, ready: d, pane: p })
                && s@ == snapshot@ && d@ == ready@ && p.0@ == pane@,
        },
{
    match cli.command {
        Command::Open { target_pane } => {
            let target = choose_target(target_pane, context)?;
            Ok(RunAction::OpenCopyPicker(target))
        },
        Command::OpenUrl { target_pane } => {
            let target = choose_target(target_pane, context)?;
            Ok(RunAction::OpenUrlPicker(target))
        },
        Command::Pick { snapshot, ready } => Ok(RunAction::RunPicker { snapshot, ready }),
        Command::Mirror { snapshot, pane, ready } => Ok(RunAction::RunMirror { snapshot, ready, pane: PaneId(pane) }),
    }
}

} // verus!
