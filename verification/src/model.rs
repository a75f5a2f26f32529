//! The data that the picker works on: panes, layouts, snapshots, matches and render output.

use vstd::prelude::*;

verus! {

/// Identifier of a Herdr pane, such as `w1:p2`.
#[derive(Debug, Clone, PartialEq, Eq, Hash)]
pub struct PaneId(pub String);

impl PaneId {
    pub fn new(id: &str) -> (r: PaneId)
        ensures
            r.0@ == id@,
    {
        PaneId(id.to_owned())
    }

    /// A copy of the identifier.
    pub fn duplicate(&self) -> (r: PaneId)
        ensures
            r.0@ == self.0@,
    {
        PaneId(self.0.clone())
    }

    pub fn as_str(&self) -> (r: &str)
        ensures
            r@ == self.0@,
    {
        self.0.as_str()
    }
}

/// A rectangle of terminal cells.
#[derive(Debug, Clone, Copy, PartialEq, Eq)]
pub struct Rect {
    pub x: u16,
    pub y: u16,
    pub width: u16,
    pub height: u16,
}

impl Rect {
    pub fn new(x: u16, y: u16, width: u16, height: u16) -> (r: Rect)
        ensures
            r == (Rect { x, y, width, height }),
    {
        Rect { x, y, width, height }
    }
}

/// Which way a split places its second child.
#[derive(Debug, Clone, Copy, PartialEq, Eq, Structural)]
pub enum SplitDirection {
    Right,
    Down,
}

/// The share of a split given to its first child.
///
/// The ratio is a 64-bit IEEE float; the library only carries it through, so it
/// holds the float's bit pattern (`f64::to_bits`), which keeps the value exact.
#[derive(Debug, Clone, Copy, PartialEq, Eq)]
pub struct SplitRatio {
    pub bits: u64,
}

impl SplitRatio {
    pub fn from_bits(bits: u64) -> (r: SplitRatio)
        ensures
            r.bits == bits,
    {
        SplitRatio { bits }
    }
}

/// A node of the source tab's layout tree.
#[derive(Debug)]
pub enum LayoutNode {
    Pane { source_pane_id: PaneId, rect: Rect },
    Split {
        direction: SplitDirection,
        ratio: SplitRatio,
        first: Box<LayoutNode>,
        second: Box<LayoutNode>,
        rect: Rect,
    },
}

/// What the picker does with a chosen match.
#[derive(Debug, Clone, Copy, PartialEq, Eq, Structural)]
pub enum PickerAction {
    Copy,
    OpenUrl,
}

/// Which panes the picker searches.
#[derive(Debug, Clone, Copy, PartialEq, Eq, Structural)]
pub enum PickerScope {
    TargetPane,
    AllPanes,
}

/// How a chosen match is opened: an empty command means the system URL opener.
#[derive(Debug, Clone, PartialEq, Eq, Default)]
pub struct OpenSettings {
    pub command: Vec<String>,
    pub cwd: Option<String>,
}

/// A user pattern for the copy picker: every token that contains `pattern` is a match.
#[derive(Debug, Clone, PartialEq, Eq)]
pub struct PatternSpec {
    pub pattern: String,
}

/// Where to return when the picker tab closes.
#[derive(Debug, Clone, PartialEq, Eq)]
pub struct PickerReturnContext {
    pub return_tab_id: String,
    pub return_pane_id: PaneId,
    pub zoom_picker: bool,
}

/// How the text of a pane was captured.
#[derive(Debug, Clone, Copy, PartialEq, Eq, Structural)]
pub enum PaneTextCaptureMode {
    ExactVisibleUnwrapped,
    RecentUnwrappedBottomApproximation,
}

/// One screen row of a viewport: `len` characters of logical line `line` from `start`.
#[derive(Debug, Clone, Copy, PartialEq, Eq)]
pub struct ViewportSegment {
    pub line: usize,
    pub start: usize,
    pub len: usize,
}

/// The visible rows of a pane and the unwrapped lines they show.
#[derive(Debug, Clone, PartialEq, Eq)]
pub struct VisibleViewport {
    pub rows: Vec<String>,
    pub logical_lines: Vec<String>,
    pub segments: Vec<ViewportSegment>,
}

/// A pane of the source tab, its place and its captured text.
#[derive(Debug, Clone, PartialEq, Eq)]
pub struct SourcePaneGeometry {
    pub pane_id: PaneId,
    pub outer_rect: Rect,
    pub content_rect: Rect,
    pub content_width: u16,
    pub content_height: u16,
    pub logical_lines: Vec<String>,
    pub visible_viewport: Option<VisibleViewport>,
    pub cwd: Option<String>,
}

/// Everything captured from the source tab.
#[derive(Debug, Clone, PartialEq, Eq)]
pub struct SourcePaneSnapshot {
    pub target_pane_id: PaneId,
    pub source_tab_id: String,
    pub workspace_id: String,
    pub source_panes: Vec<SourcePaneGeometry>,
    pub capture_mode: PaneTextCaptureMode,
}

/// Whether pane `i` is the first pane with id `target`.
pub open spec fn is_first_with_id(panes: Seq<SourcePaneGeometry>, target: Seq<char>, i: int) -> bool {
    &&& 0 <= i < panes.len()
    &&& panes[i].pane_id.0@ == target
    &&& forall|j: int| 0 <= j < i ==> (#[trigger] panes[j]).pane_id.0@ != target
}

impl SourcePaneSnapshot {
    /// The captured pane that the picker took over, if it was captured.
    pub fn target_pane(&self) -> (r: Option<&SourcePaneGeometry>)
        ensures
            match r {
                Some(p) => exists|i: int| is_first_with_id(self.source_panes@, self.target_pane_id.0@, i) && *p == self.source_panes@[i],
                None => forall|i: int| 0 <= i < self.source_panes@.len() ==> (#[trigger] self.source_panes@[i]).pane_id.0@ != self.target_pane_id.0@,
            },
    {
        let mut i: usize = 0;
        while i < self.source_panes.len()
            invariant
                i <= self.source_panes@.len(),
                forall|j: int| 0 <= j < i ==> (#[trigger] self.source_panes@[j]).pane_id.0@ != self.target_pane_id.0@,
            decreases self.source_panes@.len() - i,
        {
            if self.source_panes[i].pane_id.0 == self.target_pane_id.0 {
                assert(is_first_with_id(self.source_panes@, self.target_pane_id.0@, i as int));
                return Some(&self.source_panes[i]);
            }
            i = i + 1;
        }
        None
    }
}

/// The state handed from `open` to the picker process.
#[derive(Debug, Clone, PartialEq, Eq)]
pub struct PickerSnapshot {
    pub source: SourcePaneSnapshot,
    pub session: PickerReturnContext,
    pub action: PickerAction,
    pub scope: PickerScope,
    pub custom_patterns: Vec<PatternSpec>,
    pub open: OpenSettings,
}

/// A match: characters `start..end` of logical line `line`, whose text is `text`.
#[derive(Debug, Clone, PartialEq, Eq)]
pub struct MatchSpan {
    pub line: usize,
    pub start: usize,
    pub end: usize,
    pub text: String,
}

impl MatchSpan {
    /// A copy of the match.
    pub fn duplicate(&self) -> (r: MatchSpan)
        ensures
            r == *self,
    {
        MatchSpan { line: self.line, start: self.start, end: self.end, text: self.text.clone() }
    }
}

/// How a rendered span is drawn.
#[derive(Debug, Clone, Copy, PartialEq, Eq, Structural)]
pub enum RenderStyle {
    Unmatched,
    Match,
    Hint,
}

/// A run of characters drawn in one style.
#[derive(Debug, Clone, PartialEq, Eq)]
pub struct RenderSpan {
    pub text: String,
    pub style: RenderStyle,
}

/// One screen row of picker output.
#[derive(Debug, Clone, PartialEq, Eq)]
pub struct RenderLine {
    pub spans: Vec<RenderSpan>,
}

} // verus!
