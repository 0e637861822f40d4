//! The plugin's data model: pane identities, the pane manifest as the host
//! reports it, selectors and the small records the plugin keeps.
use crate::text::{chars_of, dec, decimal, eq_str, parse_unsigned, parse_unsigned_chars, strs};
use vstd::prelude::*;

verus! {

/// A pane: a terminal or a plugin, by its numeric id.
#[derive(Debug, Clone, Copy, PartialEq, Eq, Structural, Hash)]
pub enum PaneId {
    Terminal(u32),
    Plugin(u32),
}

/// What the host reports of one pane.
#[derive(Debug, Clone)]
pub struct PaneInfo {
    pub id: u32,
    pub is_plugin: bool,
    pub is_focused: bool,
    pub is_floating: bool,
    pub is_suppressed: bool,
    pub title: String,
}

/// The panes of one tab.
#[derive(Debug, Clone)]
pub struct TabPanes {
    pub position: usize,
    pub panes: Vec<PaneInfo>,
}

/// The panes of every tab, in the order of tab position.
#[derive(Debug, Clone)]
pub struct PaneManifest {
    pub tabs: Vec<TabPanes>,
}

/// The lines of a pane's scrollback, as the host reports them.
#[derive(Debug, Clone)]
pub struct PaneContents {
    pub lines_above_viewport: Vec<String>,
    pub viewport: Vec<String>,
    pub lines_below_viewport: Vec<String>,
}

/// Which tabs `panes` lists.
#[derive(Debug, Clone, Copy, PartialEq, Eq, Structural)]
pub enum TabSelector {
    Focused,
    All,
    Index(usize),
}

pub open spec fn tab_matches(sel: TabSelector, candidate: usize, focused: usize) -> bool {
    match sel {
        TabSelector::Focused => candidate == focused,
        TabSelector::All => true,
        TabSelector::Index(index) => candidate == index,
    }
}

impl TabSelector {
    /// Whether the tab at position `candidate` is selected, given the
    /// focused tab.
    pub fn matches(&self, candidate: usize, focused: usize) -> (r: bool)
        ensures
            r == tab_matches(*self, candidate, focused),
    {
        match self {
            TabSelector::Focused => candidate == focused,
            TabSelector::All => true,
            TabSelector::Index(index) => candidate == *index,
        }
    }

    /// Reads a selector: `focused`, `all`, or a tab position.
    pub fn parse_str(s: &str) -> (r: Result<TabSelector, String>)
        ensures
            tab_selector_read(s@, r),
    {
        let c = chars_of(s);
        if eq_str(&c, "focused") {
            Ok(TabSelector::Focused)
        } else if eq_str(&c, "all") {
            Ok(TabSelector::All)
        } else {
            match parse_unsigned_chars(&c, usize::MAX) {
                Some(n) => Ok(TabSelector::Index(n)),
                None => {
                    let mut m = String::from_str("Invalid --tab value: ");
                    m.append(s);
                    Err(m)
                },
            }
        }
    }
}

/// What reading the selector `s` gives: `focused`, `all`, a tab position
/// that fits in `usize`, or else an error naming the value.
pub open spec fn tab_selector_read(s: Seq<char>, r: Result<TabSelector, String>) -> bool {
    if s == "focused"@ {
        r == Ok::<TabSelector, String>(TabSelector::Focused)
    } else if s == "all"@ {
        r == Ok::<TabSelector, String>(TabSelector::All)
    } else {
        match parse_unsigned(s, usize::MAX as nat) {
            Some(n) => r == Ok::<TabSelector, String>(TabSelector::Index(n as usize)),
            None => r matches Err(m) && m@ == "Invalid --tab value: "@ + s,
        }
    }
}

impl std::str::FromStr for TabSelector {
    type Err = String;

    fn from_str(s: &str) -> (r: Result<Self, Self::Err>)
        ensures
            tab_selector_read(s@, r),
    {
        TabSelector::parse_str(s)
    }
}

/// Where `tail` takes its lines from.
#[derive(Debug, Clone, Copy, PartialEq, Eq, Structural)]
pub enum TailFrom {
    End,
    Viewport,
    Top,
}

/// Whether `wait` needs any or all sampled lines to match.
#[derive(Debug, Clone, Copy, PartialEq, Eq, Structural)]
pub enum WaitMode {
    Any,
    All,
}

/// What `spawn` opens.
#[derive(Debug, Clone, Copy, PartialEq, Eq, Structural)]
pub enum SpawnKind {
    Terminal,
    Command,
}

/// Where `spawn` opens it.
#[derive(Debug, Clone, Copy, PartialEq, Eq, Structural)]
pub enum SpawnWhere {
    Tiled,
    Floating,
    NearPlugin,
    InPlace,
    Background,
}

pub open spec fn spec_pane_id_from_info(info: PaneInfo) -> PaneId {
    if info.is_plugin {
        PaneId::Plugin(info.id)
    } else {
        PaneId::Terminal(info.id)
    }
}

/// The identity of a reported pane.
pub fn pane_id_from_info(info: &PaneInfo) -> (r: PaneId)
    ensures
        r == spec_pane_id_from_info(*info),
{
    if info.is_plugin {
        PaneId::Plugin(info.id)
    } else {
        PaneId::Terminal(info.id)
    }
}

/// How a pane is named in responses: `id:N` or `plugin:N`.
pub open spec fn pane_id_text(p: PaneId) -> Seq<char> {
    match p {
        PaneId::Terminal(id) => "id:"@ + dec(id as nat),
        PaneId::Plugin(id) => "plugin:"@ + dec(id as nat),
    }
}

pub fn pane_id_to_string(pane_id: PaneId) -> (r: String)
    ensures
        r@ == pane_id_text(pane_id),
{
    match pane_id {
        PaneId::Terminal(id) => {
            let mut s = String::from_str("id:");
            let d = decimal(id as u128);
            s.append(d.as_str());
            s
        },
        PaneId::Plugin(id) => {
            let mut s = String::from_str("plugin:");
            let d = decimal(id as u128);
            s.append(d.as_str());
            s
        },
    }
}


/// A command read from a pipe: its name and its arguments.
#[derive(Debug, Clone)]
pub struct PipeCommand {
    pub cmd: String,
    pub args: Vec<String>,
}

/// A message that reached the plugin through a pipe.
#[derive(Debug, Clone)]
pub struct PipeMessage {
    /// The id of the CLI pipe it came through, if it came from the CLI.
    pub pipe_id: Option<String>,
    pub name: String,
    pub payload: Option<String>,
    /// The pipe's arguments, by name.
    pub args: Vec<(String, String)>,
}

/// A recorded scrollback position of a pane.
#[derive(Debug, Clone)]
pub struct ScrollbackMark {
    pub token: String,
    pub pane_id: PaneId,
    pub line_count: usize,
    pub created_at_ms: u128,
}

/// A request for a token to access a pane, awaiting approval.
#[derive(Debug, Clone)]
pub struct PanePermissionRequest {
    pub request_id: String,
    pub token: String,
    pub pane_id: PaneId,
    pub origin_pane_id: Option<PaneId>,
    pub created_at_ms: u128,
}

/// A command put aside until a permission request is answered.
#[derive(Debug, Clone)]
pub struct PendingPermissionCommand {
    pub pipe_id: String,
    pub parsed: PipeCommand,
    pub origin_pane_id: Option<PaneId>,
}

/// The lines of a pane, with the viewport's place among them.
#[derive(Debug, Clone)]
pub struct PaneLines {
    pub all: Vec<String>,
    pub viewport_start: usize,
    pub viewport_end_exclusive: usize,
}

/// A line that matched a search, with its surrounding lines.
#[derive(Debug, Clone)]
pub struct GrepMatch {
    pub line_number: usize,
    pub line: String,
    pub before: Vec<String>,
    pub after: Vec<String>,
}

/// The content of a `GrepMatch`.
pub struct GrepMatchView {
    pub line_number: int,
    pub line: Seq<char>,
    pub before: Seq<Seq<char>>,
    pub after: Seq<Seq<char>>,
}

impl GrepMatch {
    pub open spec fn view(&self) -> GrepMatchView {
        GrepMatchView {
            line_number: self.line_number as int,
            line: self.line@,
            before: strs(self.before@),
            after: strs(self.after@),
        }
    }
}

/// One pane as `panes` lists it.
#[derive(Debug, Clone)]
pub struct PaneRow {
    pub pane_id: PaneId,
    pub id: u32,
    pub is_plugin: bool,
    pub tab: usize,
    pub title: String,
    pub focused: bool,
    pub floating: bool,
    pub suppressed: bool,
    pub pid: Option<i32>,
}

} // verus!
