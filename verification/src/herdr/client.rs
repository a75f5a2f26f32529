//! What the picker asks of Herdr, and the layout it hands Herdr to apply.

use crate::error::PluckError;
use crate::herdr::layout::LayoutSnapshot;
use crate::model::{PaneId, SplitDirection, SplitRatio};
use vstd::prelude::*;

verus! {

/// A pane as `pane list` reports it.
#[derive(Debug, Clone, PartialEq, Eq)]
pub struct PaneInfo {
    pub pane_id: String,
    pub cwd: Option<String>,
    pub foreground_cwd: Option<String>,
}

/// The temporary tab that Herdr created for a launch layout.
#[derive(Debug, Clone, PartialEq, Eq)]
pub struct AppliedLayout {
    pub tab_id: String,
    pub picker_pane_id: PaneId,
}

/// The layout of the temporary tab: every pane runs a command of this binary.
#[derive(Debug)]
pub enum LaunchLayoutNode {
    Pane { command: Vec<String> },
    Split {
        direction: SplitDirection,
        ratio: SplitRatio,
        first: Box<LaunchLayoutNode>,
        second: Box<LaunchLayoutNode>,
    },
}

/// One request made to Herdr: what was asked, and what came back.
#[allow(inconsistent_fields)]
pub ghost enum HerdrRequest {
    PaneList { workspace_id: Seq<char>, result: Result<Vec<PaneInfo>, PluckError> },
    PaneLayout { pane: Seq<char>, result: Result<LayoutSnapshot, PluckError> },
    PaneReadVisible { pane: Seq<char>, lines: u16, result: Result<String, PluckError> },
    ApplyLayout { workspace_id: Seq<char>, tab_label: Seq<char>, root: LaunchLayoutNode, result: Result<AppliedLayout, PluckError> },
    FocusPane { pane: Seq<char>, result: Result<(), PluckError> },
    ZoomPane { pane: Seq<char>, result: Result<(), PluckError> },
    FocusTab { tab_id: Seq<char>, result: Result<(), PluckError> },
    CloseTab { tab_id: Seq<char>, result: Result<(), PluckError> },
}

/// The Herdr operations the picker uses. Each talks to the running Herdr and may
/// fail; nothing is assumed of what Herdr answers.
pub trait HerdrClient {
    /// The panes of a workspace with their working directories.
    fn pane_list(&mut self, workspace_id: &str) -> Result<Vec<PaneInfo>, PluckError>;

    /// The layout of the tab that holds `pane`.
    fn pane_layout(&mut self, pane: &PaneId) -> Result<LayoutSnapshot, PluckError>;

    /// The unwrapped text of the last `lines` visible rows of `pane`.
    fn pane_read_visible(&mut self, pane: &PaneId, lines: u16) -> Result<String, PluckError>;

    /// Opens a temporary tab labelled `tab_label` in the workspace with the launch layout.
    fn apply_layout(&mut self, workspace_id: &str, tab_label: &str, root: &LaunchLayoutNode) -> Result<AppliedLayout, PluckError>;

    /// Gives `pane` the keyboard focus.
    fn focus_pane(&mut self, pane: &PaneId) -> Result<(), PluckError>;

    /// Zooms `pane` to fill its tab.
    fn zoom_pane(&mut self, pane: &PaneId) -> Result<(), PluckError>;

    /// Makes `tab_id` the visible tab.
    fn focus_tab(&mut self, tab_id: &str) -> Result<(), PluckError>;

    /// Closes `tab_id` and the panes in it.
    fn close_tab(&mut self, tab_id: &str) -> Result<(), PluckError>;
}

/// A Herdr client together with the requests made through it, oldest first.
pub struct RecordedHerdr<C> {
    pub client: C,
    pub log: Ghost<Seq<HerdrRequest>>,
}

impl<C: HerdrClient> RecordedHerdr<C> {
    pub fn new(client: C) -> (r: Self)
        ensures
            r.requests() == Seq::<HerdrRequest>::empty(),
            r.client == client,
    {
        RecordedHerdr { client, log: Ghost(Seq::empty()) }
    }

    /// The requests made so far, each with what Herdr answered.
    pub open spec fn requests(&self) -> Seq<HerdrRequest> {
        self.log@
    }

    pub(crate) fn pane_list(&mut self, workspace_id: &str) -> (r: Result<Vec<PaneInfo>, PluckError>)
        ensures
            final(self).requests() == old(self).requests().push(
                HerdrRequest::PaneList { workspace_id: workspace_id@, result: r },
            ),
    {
        let r = self.client.pane_list(workspace_id);
        proof {
            self.log@ = self.log@.push(HerdrRequest::PaneList { workspace_id: workspace_id@, result: r });
        }
        r
    }

    pub(crate) fn pane_layout(&mut self, pane: &PaneId) -> (r: Result<LayoutSnapshot, PluckError>)
        ensures
            final(self).requests() == old(self).requests().push(HerdrRequest::PaneLayout { pane: pane.0@, result: r }),
    {
        let r = self.client.pane_layout(pane);
        proof {
            self.log@ = self.log@.push(HerdrRequest::PaneLayout { pane: pane.0@, result: r });
        }
        r
    }

    pub(crate) fn pane_read_visible(&mut self, pane: &PaneId, lines: u16) -> (r: Result<String, PluckError>)
        ensures
            final(self).requests() == old(self).requests().push(
                HerdrRequest::PaneReadVisible { pane: pane.0@, lines, result: r },
            ),
    {
        let r = self.client.pane_read_visible(pane, lines);
        proof {
            self.log@ = self.log@.push(HerdrRequest::PaneReadVisible { pane: pane.0@, lines, result: r });
        }
        r
    }

    pub(crate) fn apply_layout(&mut self, workspace_id: &str, tab_label: &str, root: &LaunchLayoutNode) -> (r: Result<AppliedLayout, PluckError>)
        ensures
            final(self).requests() == old(self).requests().push(
                HerdrRequest::ApplyLayout { workspace_id: workspace_id@, tab_label: tab_label@, root: *root, result: r },
            ),
    {
        let r = self.client.apply_layout(workspace_id, tab_label, root);
        proof {
            self.log@ = self.log@.push(
                HerdrRequest::ApplyLayout { workspace_id: workspace_id@, tab_label: tab_label@, root: *root, result: r },
            );
        }
        r
    }

    pub(crate) fn focus_pane(&mut self, pane: &PaneId) -> (r: Result<(), PluckError>)
        ensures
            final(self).requests() == old(self).requests().push(HerdrRequest::FocusPane { pane: pane.0@, result: r }),
    {
        let r = self.client.focus_pane(pane);
        proof {
            self.log@ = self.log@.push(HerdrRequest::FocusPane { pane: pane.0@, result: r });
        }
        r
    }

    pub(crate) fn zoom_pane(&mut self, pane: &PaneId) -> (r: Result<(), PluckError>)
        ensures
            final(self).requests() == old(self).requests().push(HerdrRequest::ZoomPane { pane: pane.0@, result: r }),
    {
        let r = self.client.zoom_pane(pane);
        proof {
            self.log@ = self.log@.push(HerdrRequest::ZoomPane { pane: pane.0@, result: r });
        }
        r
    }

    pub(crate) fn focus_tab(&mut self, tab_id: &str) -> (r: Result<(), PluckError>)
        ensures
            final(self).requests() == old(self).requests().push(HerdrRequest::FocusTab { tab_id: tab_id@, result: r }),
    {
        let r = self.client.focus_tab(tab_id);
        proof {
            self.log@ = self.log@.push(HerdrRequest::FocusTab { tab_id: tab_id@, result: r });
        }
        r
    }

    pub(crate) fn close_tab(&mut self, tab_id: &str) -> (r: Result<(), PluckError>)
        ensures
            final(self).requests() == old(self).requests().push(HerdrRequest::CloseTab { tab_id: tab_id@, result: r }),
    {
        let r = self.client.close_tab(tab_id);
        proof {
            self.log@ = self.log@.push(HerdrRequest::CloseTab { tab_id: tab_id@, result: r });
        }
        r
    }
}

} // verus!
