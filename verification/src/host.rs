//! The plugin's exchange with its host: what it asks the host for, what the
//! host reported, and what it tells the host to do.
use crate::error::ErrorCode;
use crate::json::JsonValue;
use crate::parsing::Nanos;
use crate::response::Payload;
use crate::text::strs;
use crate::types::{PaneContents, PaneId, PaneManifest, SpawnKind, SpawnWhere};
use vstd::prelude::*;

verus! {

/// Arguments of `send`.
#[derive(Debug, Clone)]
pub struct SendArgs {
    pub json: bool,
    pub pane: Option<String>,
    pub no_newline: bool,
    pub enter: bool,
    pub keys: Option<String>,
    pub raw_bytes: Option<String>,
    pub token: Option<String>,
    pub text: Vec<String>,
}

/// Arguments of `run`.
#[derive(Debug, Clone)]
pub struct RunArgs {
    pub json: bool,
    pub pane: Option<String>,
    pub no_enter: bool,
    pub wait: Option<String>,
    pub timeout: Option<String>,
    pub token: Option<String>,
    pub since: Option<String>,
    pub command: Vec<String>,
}

/// Arguments of `interrupt`.
#[derive(Debug, Clone)]
pub struct InterruptArgs {
    pub json: bool,
    pub pane: Option<String>,
    pub sigint: bool,
    pub sigkill: bool,
    pub token: Option<String>,
}

/// Arguments of `exec`.
#[derive(Debug, Clone)]
pub struct ExecArgs {
    pub json: bool,
    pub cwd: Option<String>,
    pub env_vars: Vec<(String, String)>,
    pub timeout: String,
    pub token: Option<String>,
    pub command: Vec<String>,
}

/// Arguments of `spawn`.
#[derive(Debug, Clone)]
pub struct SpawnArgs {
    pub json: bool,
    pub kind: SpawnKind,
    pub where_to: SpawnWhere,
    pub cwd: Option<String>,
    pub name: Option<String>,
    pub wait: String,
    pub token: Option<String>,
    pub command: Vec<String>,
}

/// The commands whose arguments follow a declared flag grammar.
#[derive(Debug, Clone, Copy, PartialEq, Eq, Structural)]
pub enum ArgsKind {
    Send,
    Run,
    Interrupt,
    Exec,
    Spawn,
}

/// Arguments read by a command's flag grammar.
#[derive(Debug, Clone)]
pub enum CommandArgs {
    Send(SendArgs),
    Run(RunArgs),
    Interrupt(InterruptArgs),
    Exec(ExecArgs),
    Spawn(SpawnArgs),
}

/// What `spawn` asks the host to open.
#[derive(Debug, Clone)]
pub struct SpawnPlan {
    pub kind: SpawnKind,
    pub where_to: SpawnWhere,
    /// For a terminal: the directory to open it in.
    pub path: String,
    /// For a command: the program and its arguments.
    pub command: Vec<String>,
    pub cwd: Option<String>,
}

/// A command pane that asks the user to approve a permission request.
#[derive(Debug, Clone)]
pub struct PromptPlan {
    pub request_id: String,
    pub token: String,
    pub pane_id: PaneId,
    /// When the request was made, in milliseconds since the epoch.
    pub created_at_ms: u128,
    /// The program to run, and its arguments.
    pub program: String,
    pub args: Vec<String>,
    /// The context entry that names the request.
    pub context_key: String,
}

/// What the plugin needs from the host before it can go on.
#[derive(Debug, Clone)]
#[allow(inconsistent_fields)]
pub enum HostRequest {
    /// The session's environment variable that holds the token.
    SessionEnv,
    /// A JSON payload, parsed.
    ParseJson { payload: String },
    /// A command's arguments, read by its flag grammar.
    ParseArgs { kind: ArgsKind, args: Vec<String> },
    /// A pane's scrollback.
    Scrollback { pane_id: PaneId },
    /// The process ids of terminal panes.
    PanePids { pane_ids: Vec<PaneId> },
    /// Open the approval prompt of a permission request.
    OpenPrompt { plan: PromptPlan },
    /// Open a pane for `spawn`.
    OpenPane { plan: SpawnPlan },
    /// A fresh random name, to make a token from.
    RandomName,
}

/// The host's answer to an `OpenPrompt` request.
#[derive(Debug, Clone)]
pub struct PromptReply {
    /// The prompt that was asked for.
    pub plan: PromptPlan,
    /// The pane the host opened for it, if it opened one.
    pub opened: Option<PaneId>,
}

/// What the host has reported for the event at hand.
#[derive(Debug)]
pub struct HostFacts {
    /// The monotonic clock.
    pub now: Nanos,
    /// The wall clock, in milliseconds since the Unix epoch.
    pub unix_ms: u128,
    /// The session's token variable, once asked for: `Some(None)` when it is
    /// not set.
    pub session_token: Option<Option<String>>,
    /// The plugin process's own origin pane variable.
    pub origin_env: Option<String>,
    /// A fresh random name, once asked for.
    pub random_name: Option<String>,
    pub json: Option<Result<JsonValue, String>>,
    pub args: Option<Result<CommandArgs, String>>,
    pub scrollbacks: Vec<(PaneId, Result<PaneContents, String>)>,
    pub pids: Option<Vec<(PaneId, Option<i32>)>>,
    pub prompt: Option<PromptReply>,
    pub opened: Option<Option<PaneId>>,
}

/// Something for the host to do.
#[derive(Debug)]
pub enum Effect {
    /// Answer on a CLI pipe, then release it if `unblock`.
    Respond {
        pipe_id: String,
        json_only: bool,
        human: Option<String>,
        payload: Payload,
        unblock: bool,
    },
    /// Hold a CLI pipe open until it is answered.
    BlockPipe { pipe_id: String },
    /// Call back on the timer.
    ScheduleTimer,
    WriteChars { pane_id: PaneId, text: String },
    WriteBytes { pane_id: PaneId, bytes: Vec<u8> },
    SendSigint { pane_id: PaneId },
    SendSigkill { pane_id: PaneId },
    /// Run a command in the background; its result comes back with
    /// `request_id` in its context. With `cwd_env`, in that directory and
    /// with those variables.
    RunCommand {
        command: Vec<String>,
        cwd_env: Option<(String, Vec<(String, String)>)>,
        context_key: String,
        request_id: String,
    },
    RenamePane { pane_id: PaneId, name: String },
    CloseTerminalPane { id: u32 },
    /// Run the command that waited for an approved permission request.
    ContinueCommand { request_id: String },
}

/// `b` is `a` with more effects after it.
pub open spec fn extends(a: Seq<Effect>, b: Seq<Effect>) -> bool {
    a.len() <= b.len() && forall|i: int| 0 <= i < a.len() ==> #[trigger] b[i] == a[i]
}

/// `e` answers `pipe` with an error of kind `code`, and releases it.
pub open spec fn answers_error(e: Effect, pipe: Seq<char>, code: ErrorCode) -> bool {
    e matches Effect::Respond { pipe_id, payload: Payload::Error(x), unblock, .. } && pipe_id@ == pipe
        && x.code == code && unblock
}

/// `e` answers `pipe` with the lines of `pane` that a wait matched, and
/// releases it.
pub open spec fn answers_match(e: Effect, pipe: Seq<char>, pane: PaneId, sample: Seq<Seq<char>>) -> bool {
    e matches Effect::Respond { pipe_id, payload: Payload::WaitMatched { pane_id, lines }, unblock, .. }
        && pipe_id@ == pipe && pane_id == pane && strs(lines@) == sample && unblock
}

/// Something in `fx` answers `pipe` with an error of kind `code`.
pub open spec fn error_answered(fx: Seq<Effect>, pipe: Seq<char>, code: ErrorCode) -> bool {
    exists|i: int| 0 <= i < fx.len() && answers_error(#[trigger] fx[i], pipe, code)
}

/// Something in `fx` answers `pipe` with the matched lines of `pane`.
pub open spec fn match_answered(fx: Seq<Effect>, pipe: Seq<char>, pane: PaneId, sample: Seq<Seq<char>>) -> bool {
    exists|i: int| 0 <= i < fx.len() && answers_match(#[trigger] fx[i], pipe, pane, sample)
}

/// Something in `fx` holds the pipe `pipe` open until it is answered.
pub open spec fn blocks(fx: Seq<Effect>, pipe: Seq<char>) -> bool {
    exists|i: int| 0 <= i < fx.len() && holds_pipe(#[trigger] fx[i], pipe)
}

/// Nothing that `f1` adds to `f0` asks for a timer call.
pub open spec fn no_timer_added(f0: Seq<Effect>, f1: Seq<Effect>) -> bool {
    forall|i: int| f0.len() <= i < f1.len() ==> !(#[trigger] f1[i] is ScheduleTimer)
}

/// `e` types `text` into `pane`.
pub open spec fn writes_text(e: Effect, pane: PaneId, text: Seq<char>) -> bool {
    e matches Effect::WriteChars { pane_id, text: t } && pane_id == pane && t@ == text
}

/// `e` holds the pipe `pipe` open.
pub open spec fn holds_pipe(e: Effect, pipe: Seq<char>) -> bool {
    e matches Effect::BlockPipe { pipe_id } && pipe_id@ == pipe
}

pub proof fn lemma_extends_trans(a: Seq<Effect>, b: Seq<Effect>, c: Seq<Effect>)
    requires
        extends(a, b),
        extends(b, c),
    ensures
        extends(a, c),
{
    assert forall|i: int| 0 <= i < a.len() implies #[trigger] c[i] == a[i] by {
        assert(c[i] == b[i]);
    }
}

/// What the host reports to the plugin.
#[derive(Debug, Clone)]
pub enum Event {
    PaneUpdate(PaneManifest),
    /// The tabs changed: each tab's position, and whether it is active.
    TabUpdate { tabs: Vec<(usize, bool)> },
    /// A background command ended.
    RunCommandResult {
        exit_code: Option<i32>,
        stdout: Vec<u8>,
        stderr: Vec<u8>,
        context: Vec<(String, String)>,
    },
    /// A command pane's command ended.
    CommandPaneExited { terminal_pane_id: u32, exit_code: Option<i32>, context: Vec<(String, String)> },
    Timer,
    /// The user answered the plugin's permission request.
    PermissionResult { granted: bool },
    PaneClosed(PaneId),
    /// A command that waited for an approved permission request is to go on,
    /// as an earlier `ContinueCommand` asked.
    Continue { request_id: String },
}

/// What handling a message or an event comes to: something is needed from
/// the host first (ask, then hand the same message again with the answer),
/// or the effects to carry out.
pub enum Step {
    Need(HostRequest),
    Done(Vec<Effect>),
}

/// A result, or what is needed first.
pub enum Flow<T> {
    Ready(T),
    Need(HostRequest),
}

} // verus!
