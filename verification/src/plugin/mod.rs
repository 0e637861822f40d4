//! The plugin's state and everything it does with it.

use crate::parsing::Nanos;
use crate::pattern::SearchRegex;
use crate::table::{keys_unique, lookup};
use crate::types::{
    PaneId, PaneManifest, PanePermissionRequest, PendingPermissionCommand, ScrollbackMark, WaitMode,
};
use vstd::prelude::*;

pub mod commands;
pub mod jobs;
pub mod lifecycle;
pub mod pane;
pub mod permissions;
pub mod state;

verus! {

/// The context key that carries the id of an `exec` request.
pub const REQUEST_ID_KEY: &'static str = "zellij_quill_request_id";

/// How many recently seen terminal panes are remembered.
pub const MAX_RECENT_TERMINAL_PANES: usize = 256;

/// The session variable that holds the access token.
pub const SESSION_TOKEN_ENV_VAR: &'static str = "ZELLIJ_QUILL_TOKEN";

/// The pipe argument that names the pane a request comes from.
pub const ORIGIN_PANE_ENV_VAR: &'static str = "ZELLIJ_PANE_ID";

/// The context key that carries the id of a permission request.
pub const PERMISSION_REQUEST_CONTEXT_KEY: &'static str = "zellij_quill_permission_request_id";

/// A job that waits for lines of a pane to match.
pub struct WaitJob {
    pub pipe_id: String,
    pub pane_id: PaneId,
    pub regex: SearchRegex,
    pub last_n: usize,
    pub window: usize,
    pub mode: WaitMode,
    pub deadline: Nanos,
    pub next_poll_at: Nanos,
    pub interval: Nanos,
    pub json_only: bool,
    pub since_line_count: Option<usize>,
}

/// A job that waits for a background command to finish.
#[derive(Debug, Clone)]
pub struct ExecJob {
    pub pipe_id: String,
    pub request_id: String,
    pub command: Vec<String>,
    pub deadline: Nanos,
    pub json_only: bool,
}

/// A job that waits for a spawned pane to appear.
#[derive(Debug, Clone)]
pub struct SpawnJob {
    pub pipe_id: String,
    pub expected_pane_id: Option<PaneId>,
    pub baseline_panes: Vec<PaneId>,
    pub deadline: Nanos,
    pub json_only: bool,
    pub token: Option<String>,
}

pub enum Job {
    Wait(WaitJob),
    Exec(ExecJob),
    Spawn(SpawnJob),
}

/// Everything the plugin remembers between events.
pub struct QuillPlugin {
    pub pane_manifest: Option<PaneManifest>,
    pub focused_tab_index: Option<usize>,
    pub focused_pane_id: Option<PaneId>,
    /// Terminal panes, most recently seen first.
    pub recent_terminal_panes: Vec<PaneId>,
    pub jobs: Vec<(String, Job)>,
    pub exec_jobs_by_request_id: Vec<(String, String)>,
    pub marks: Vec<(String, ScrollbackMark)>,
    pub next_job_id: u64,
    pub next_request_id: u64,
    pub next_mark_id: u64,
    pub require_token: bool,
    pub enforce_pane_permissions: bool,
    pub configured_token: Option<String>,
    pub token_from_session_env: Option<String>,
    /// The panes each token may access.
    pub token_pane_permissions: Vec<(String, Vec<PaneId>)>,
    pub pending_permission_requests: Vec<(String, PanePermissionRequest)>,
    pub next_permission_request_id: u64,
    pub permissions_denied: bool,
    pub permissions_granted: bool,
    pub session_env_permission_granted: bool,
    pub current_pipe_origin_pane_id: Option<PaneId>,
    /// Approval prompt panes, by terminal id, with the request they ask
    /// about.
    pub permission_prompt_panes: Vec<(u32, String)>,
    pub pending_permission_commands: Vec<(String, PendingPermissionCommand)>,
}

/// At most one pending request asks for a token's access to a pane.
pub open spec fn one_request_per_target(t: Seq<(String, PanePermissionRequest)>) -> bool {
    forall|i: int, j: int|
        0 <= i < t.len() && 0 <= j < t.len() && (#[trigger] t[i]).1.token@ == (#[trigger] t[j]).1.token@
            && t[i].1.pane_id == t[j].1.pane_id ==> i == j
}

/// Taking a request out leaves at most one per token and pane.
pub proof fn lemma_one_request_removed(t: Seq<(String, PanePermissionRequest)>, i: int)
    requires
        one_request_per_target(t),
        0 <= i < t.len(),
    ensures
        one_request_per_target(t.remove(i)),
{
    let u = t.remove(i);
    assert forall|a: int, b: int|
        0 <= a < u.len() && 0 <= b < u.len() && (#[trigger] u[a]).1.token@ == (#[trigger] u[b]).1.token@
            && u[a].1.pane_id == u[b].1.pane_id implies a == b by {
        let a2 = if a < i { a } else { a + 1 };
        let b2 = if b < i { b } else { b + 1 };
        assert(u[a] == t[a2]);
        assert(u[b] == t[b2]);
    }
}

/// Storing a request for a token and a pane that no pending request asks
/// for, under a new key or in place of another, leaves at most one per
/// token and pane.
pub proof fn lemma_one_request_added(
    t: Seq<(String, PanePermissionRequest)>,
    u: Seq<(String, PanePermissionRequest)>,
    entry: (String, PanePermissionRequest),
)
    requires
        one_request_per_target(t),
        forall|j: int|
            0 <= j < t.len() ==> !((#[trigger] t[j]).1.token@ == entry.1.token@ && t[j].1.pane_id == entry.1.pane_id),
        u == t.push(entry) || exists|i: int| 0 <= i < t.len() && u == t.update(i, entry),
    ensures
        one_request_per_target(u),
{
    assert forall|a: int, b: int|
        0 <= a < u.len() && 0 <= b < u.len() && (#[trigger] u[a]).1.token@ == (#[trigger] u[b]).1.token@
            && u[a].1.pane_id == u[b].1.pane_id implies a == b by {
        if u == t.push(entry) {
            if a < t.len() {
                assert(u[a] == t[a]);
            }
            if b < t.len() {
                assert(u[b] == t[b]);
            }
        } else {
            let i = choose|i: int| 0 <= i < t.len() && u == t.update(i, entry);
            if a != i {
                assert(u[a] == t[a]);
            }
            if b != i {
                assert(u[b] == t[b]);
            }
        }
    }
}

impl QuillPlugin {
    /// The plugin's own invariant: every table holds each key once, at most
    /// one request is pending for a token and a pane, and the recent panes
    /// hold each pane once and no more than the limit.
    pub open spec fn wf(&self) -> bool {
        &&& keys_unique(self.jobs@)
        &&& keys_unique(self.exec_jobs_by_request_id@)
        &&& keys_unique(self.marks@)
        &&& keys_unique(self.token_pane_permissions@)
        &&& keys_unique(self.pending_permission_requests@)
        &&& forall|k: Seq<char>|
            #[trigger] lookup(self.pending_permission_requests@, k) matches Some(q)
                ==> q.request_id@ == k
        &&& one_request_per_target(self.pending_permission_requests@)
        &&& keys_unique(self.pending_permission_commands@)
        &&& self.recent_terminal_panes@.no_duplicates()
        &&& self.recent_terminal_panes@.len() <= MAX_RECENT_TERMINAL_PANES
    }

    /// A plugin that has seen nothing yet.
    pub fn new() -> (r: QuillPlugin)
        ensures
            r.wf(),
            r.pane_manifest is None,
            r.jobs@.len() == 0,
            r.marks@.len() == 0,
            r.token_pane_permissions@.len() == 0,
            r.pending_permission_requests@.len() == 0,
            !r.require_token,
            !r.enforce_pane_permissions,
    {
        QuillPlugin {
            pane_manifest: None,
            focused_tab_index: None,
            focused_pane_id: None,
            recent_terminal_panes: Vec::new(),
            jobs: Vec::new(),
            exec_jobs_by_request_id: Vec::new(),
            marks: Vec::new(),
            next_job_id: 0,
            next_request_id: 0,
            next_mark_id: 0,
            require_token: false,
            enforce_pane_permissions: false,
            configured_token: None,
            token_from_session_env: None,
            token_pane_permissions: Vec::new(),
            pending_permission_requests: Vec::new(),
            next_permission_request_id: 0,
            permissions_denied: false,
            permissions_granted: false,
            session_env_permission_granted: false,
            current_pipe_origin_pane_id: None,
            permission_prompt_panes: Vec::new(),
            pending_permission_commands: Vec::new(),
        }
    }
}

} // verus!
