//! Errors of the picker library.

use crate::text::{debug_quote, debug_quoted};
use vstd::prelude::*;
use vstd::string::StringExecFns;

verus! {

/// Why an operation of the picker failed.
#[derive(Debug, Clone, PartialEq, Eq)]
pub enum PluckError {
    /// Cleanup was asked to close a temporary tab without an id.
    MissingTemporaryTab,
    /// Cleanup was asked to close the tab the picker must return to.
    RefusingSourceTab(String),
    /// No pane was named and none could be found in the Herdr context.
    NoTargetPane,
    /// The target pane shows no rows of text.
    ZeroContentHeight(String),
    /// The pane layout lacks the id of the tab to return to.
    MissingTabId,
    /// The pane layout lacks the id of its workspace.
    MissingWorkspaceId,
    /// An open command was configured without a program.
    EmptyOpenCommand,
    /// The system opener could not open a match; `cause` is what the opener reported.
    OpenFailed { text: String, cause: String },
    /// A failure reported by Herdr, a process or the system, with its message.
    Other(String),
}

/// The message of an error, as the user reads it.
pub open spec fn error_message(e: PluckError) -> Seq<char> {
    match e {
        PluckError::MissingTemporaryTab => "temporary picker tab id is missing"@,
        PluckError::RefusingSourceTab(tab) => "refusing to close source tab "@ + tab@
            + " as temporary picker tab"@,
        PluckError::NoTargetPane =>
            "could not determine target pane from --target-pane, HERDR_PANE_ID, HERDR_ACTIVE_PANE_ID, or Herdr context"@,
        PluckError::ZeroContentHeight(pane) => "target pane "@ + pane@
            + " has zero visible content height"@,
        PluckError::MissingTabId => "pane layout did not include return tab id"@,
        PluckError::MissingWorkspaceId => "pane layout did not include workspace id"@,
        PluckError::EmptyOpenCommand => "open command is empty"@,
        PluckError::OpenFailed { text, .. } => "failed to open selected match "@ + debug_quoted(text@),
        PluckError::Other(message) => message@,
    }
}

impl PluckError {
    /// The message of the error.
    pub fn message(&self) -> (r: String)
        ensures
            r@ == error_message(*self),
    {
        match self {
            PluckError::MissingTemporaryTab => String::from_str("temporary picker tab id is missing"),
            PluckError::RefusingSourceTab(tab) => {
                let mut m = String::from_str("refusing to close source tab ");
                m.append(tab.as_str());
                m.append(" as temporary picker tab");
                m
            },
            PluckError::NoTargetPane => String::from_str(
                "could not determine target pane from --target-pane, HERDR_PANE_ID, HERDR_ACTIVE_PANE_ID, or Herdr context",
            ),
            PluckError::ZeroContentHeight(pane) => {
                let mut m = String::from_str("target pane ");
                m.append(pane.as_str());
                m.append(" has zero visible content height");
                m
            },
            PluckError::MissingTabId => String::from_str("pane layout did not include return tab id"),
            PluckError::MissingWorkspaceId => String::from_str("pane layout did not include workspace id"),
            PluckError::EmptyOpenCommand => String::from_str("open command is empty"),
            PluckError::OpenFailed { text, .. } => {
                let mut m = String::from_str("failed to open selected match ");
                let quoted = debug_quote(text.as_str());
                m.append(quoted.as_str());
                m
            },
            PluckError::Other(message) => message.clone(),
        }
    }
}

} // verus!
