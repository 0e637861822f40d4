//! The plugin's entry points: configuration, pipe messages and host events,
//! and how a command is dispatched, answered, or put aside until a
//! permission request is answered.
use super::commands::listing::panes_outcome;
use super::commands::marks::{command_names, mark_outcome, since_outcome, token_outcome};
use super::commands::pane_io::{interrupt_outcome, run_outcome, send_outcome};
use super::commands::permit::permit_outcome;
use super::commands::process::{exec_outcome, spawn_outcome};
use super::commands::search::{grep_outcome, tail_outcome, wait_outcome};
use super::commands::{human_text, human_view};

use super::jobs::{exec_result_outcome, job_deadline, spawn_answered, spawn_done, tick_result};
use super::permissions::{arg_lookup, arg_value, message_origin, prompt_exit_outcome};
use super::pane::env_token;
use super::state::{focus_choice, focus_refreshed};
use super::{Job, QuillPlugin};
use crate::error::{ApiError, ApiResult, ErrorCode, ErrorMeta};
use crate::host::{
    extends, lemma_extends_trans, ArgsKind, CommandArgs, Effect, Event, Flow, HostFacts,
    HostRequest, Step,
};
use crate::parsing::{
    argv_of, json_argv, parse_argv, parse_bool, parse_json_payload_to_argv, truthy,
};
use crate::response::{CommandOutcome, Payload};
use crate::table::{has_key, insert, lookup, remove};
use crate::text::{chars_of, eq_str, join, string_of, strs, trim, trim_chars};
use crate::types::{PaneId, PendingPermissionCommand, PipeCommand, PipeMessage};
use crate::util::copy_strings;
use vstd::prelude::*;

verus! {

/// The command text of a pipe message: its payload, trimmed, unless blank;
/// else its name, unless blank or the plugin's own; else its `cmd`
/// argument.
pub open spec fn payload_text(m: PipeMessage) -> Option<Seq<char>> {
    match m.payload {
        Some(p) if trim(p@).len() > 0 => Some(trim(p@)),
        _ => if trim(m.name@).len() > 0 && m.name@ != "zellij-quill"@ {
            Some(m.name@)
        } else {
            match arg_lookup(m.args@, "cmd"@) {
                Some(c) => Some(c@),
                None => None,
            }
        },
    }
}

/// Whether a command text is JSON: it starts with `{` or `[`.
pub open spec fn is_json_text(p: Seq<char>) -> bool {
    p.len() > 0 && (p[0] == '{' || p[0] == '[')
}

/// The words of the command text `p`: `None` while a JSON text waits for
/// the host to parse it, `Some(None)` when it cannot be read.
pub open spec fn command_argv(p: Seq<char>, facts: HostFacts) -> Option<Option<Seq<Seq<char>>>> {
    if is_json_text(p) {
        match facts.json {
            None => None,
            Some(Err(_)) => Some(None),
            Some(Ok(v)) => Some(json_argv(v)),
        }
    } else {
        Some(argv_of(p))
    }
}

/// Reads the command of a pipe message: its text, as JSON or as a quoted
/// argument list; the first argument is the command.
pub fn parse_pipe_command(pipe_message: &PipeMessage, facts: &HostFacts) -> (r: Flow<
    ApiResult<PipeCommand>,
>)
    ensures
        match payload_text(*pipe_message) {
            None => r matches Flow::Ready(Err(e)) && e.code == ErrorCode::InvalidRequest,
            Some(p) => {
                match command_argv(p, *facts) {
                    None => r matches Flow::Need(HostRequest::ParseJson { payload }) && payload@ == p,
                    Some(None) => r matches Flow::Ready(Err(e)) && e.code == if is_json_text(p) {
                        ErrorCode::InvalidJson
                    } else {
                        ErrorCode::InvalidArgs
                    },
                    Some(Some(a)) => if a.len() == 0 {
                        r matches Flow::Ready(Err(e)) && e.code == ErrorCode::InvalidRequest
                    } else {
                        r matches Flow::Ready(Ok(c)) && c.cmd@ == a[0] && strs(c.args@) == a.drop_first()
                    },
                }
            },
        },
{
    let text: String = match &pipe_message.payload {
        Some(p) => {
            let c = chars_of(p.as_str());
            let t = trim_chars(&c);
            if t.len() > 0 {
                string_of(&t)
            } else {
                match name_or_cmd(pipe_message) {
                    Some(s) => s,
                    None => {
                        return Flow::Ready(
                            Err(ApiError::with_text(ErrorCode::InvalidRequest, "No pipe payload/command found")),
                        );
                    },
                }
            }
        },
        None => match name_or_cmd(pipe_message) {
            Some(s) => s,
            None => {
                return Flow::Ready(
                    Err(ApiError::with_text(ErrorCode::InvalidRequest, "No pipe payload/command found")),
                );
            },
        },
    };
    let tc = chars_of(text.as_str());
    let json = tc.len() > 0 && (tc[0] == '{' || tc[0] == '[');
    let argv = if json {
        match &facts.json {
            None => {
                return Flow::Need(HostRequest::ParseJson { payload: text });
            },
            Some(Err(m)) => {
                let mut msg = String::from_str("Failed to parse JSON payload: ");
                msg.append(m.as_str());
                return Flow::Ready(Err(ApiError::new(ErrorCode::InvalidJson, msg)));
            },
            Some(Ok(v)) => match parse_json_payload_to_argv(v) {
                Ok(a) => a,
                Err(e) => {
                    return Flow::Ready(Err(e));
                },
            },
        }
    } else {
        match parse_argv(text.as_str()) {
            Ok(a) => a,
            Err(e) => {
                return Flow::Ready(Err(e));
            },
        }
    };
    if argv.len() == 0 {
        return Flow::Ready(Err(ApiError::with_text(ErrorCode::InvalidRequest, "Command payload is empty")));
    }
    let cmd = argv[0].clone();
    let args = copy_strings(argv.as_slice(), 1, argv.len());
    assert(strs(args@) =~= strs(argv@).drop_first());
    Flow::Ready(Ok(PipeCommand { cmd, args }))
}

fn name_or_cmd(m: &PipeMessage) -> (r: Option<String>)
    ensures
        r matches Some(s) ==> s@ == if trim(m.name@).len() > 0 && m.name@ != "zellij-quill"@ {
            m.name@
        } else {
            arg_lookup(m.args@, "cmd"@)->0@
        },
        r is None <==> !(trim(m.name@).len() > 0 && m.name@ != "zellij-quill"@) && arg_lookup(
            m.args@,
            "cmd"@,
        ) is None,
{
    let n = chars_of(m.name.as_str());
    let t = trim_chars(&n);
    if t.len() > 0 && !eq_str(&n, "zellij-quill") {
        return Some(m.name.clone());
    }
    arg_value(&m.args, "cmd")
}

/// The commands the plugin answers.
#[derive(Debug, Clone, Copy, PartialEq, Eq, Structural)]
pub enum CommandName {
    Panes,
    Send,
    Run,
    Tail,
    Grep,
    Wait,
    Exec,
    Spawn,
    Interrupt,
    Mark,
    Since,
    Token,
    Permit,
    Help,
    Unknown,
}

/// The command a name stands for; `read` is `tail`.
pub open spec fn command_of(c: Seq<char>) -> CommandName {
    if c == "panes"@ {
        CommandName::Panes
    } else if c == "send"@ {
        CommandName::Send
    } else if c == "run"@ {
        CommandName::Run
    } else if c == "tail"@ || c == "read"@ {
        CommandName::Tail
    } else if c == "grep"@ {
        CommandName::Grep
    } else if c == "wait"@ {
        CommandName::Wait
    } else if c == "exec"@ {
        CommandName::Exec
    } else if c == "spawn"@ {
        CommandName::Spawn
    } else if c == "interrupt"@ {
        CommandName::Interrupt
    } else if c == "mark"@ {
        CommandName::Mark
    } else if c == "since"@ {
        CommandName::Since
    } else if c == "token"@ {
        CommandName::Token
    } else if c == "permit"@ {
        CommandName::Permit
    } else if c == "help"@ {
        CommandName::Help
    } else {
        CommandName::Unknown
    }
}

/// The flag grammar a command's arguments follow, if they follow one.
pub open spec fn args_kind_of(c: CommandName) -> Option<ArgsKind> {
    match c {
        CommandName::Send => Some(ArgsKind::Send),
        CommandName::Run => Some(ArgsKind::Run),
        CommandName::Interrupt => Some(ArgsKind::Interrupt),
        CommandName::Exec => Some(ArgsKind::Exec),
        CommandName::Spawn => Some(ArgsKind::Spawn),
        _ => None,
    }
}

pub fn command_name(cmd: &str) -> (r: CommandName)
    ensures
        r == command_of(cmd@),
{
    let c = chars_of(cmd);
    if eq_str(&c, "panes") {
        CommandName::Panes
    } else if eq_str(&c, "send") {
        CommandName::Send
    } else if eq_str(&c, "run") {
        CommandName::Run
    } else if eq_str(&c, "tail") || eq_str(&c, "read") {
        CommandName::Tail
    } else if eq_str(&c, "grep") {
        CommandName::Grep
    } else if eq_str(&c, "wait") {
        CommandName::Wait
    } else if eq_str(&c, "exec") {
        CommandName::Exec
    } else if eq_str(&c, "spawn") {
        CommandName::Spawn
    } else if eq_str(&c, "interrupt") {
        CommandName::Interrupt
    } else if eq_str(&c, "mark") {
        CommandName::Mark
    } else if eq_str(&c, "since") {
        CommandName::Since
    } else if eq_str(&c, "token") {
        CommandName::Token
    } else if eq_str(&c, "permit") {
        CommandName::Permit
    } else if eq_str(&c, "help") {
        CommandName::Help
    } else {
        CommandName::Unknown
    }
}

fn need_args(kind: ArgsKind, args: &Vec<String>) -> (r: Flow<ApiResult<CommandOutcome>>)
    ensures
        r matches Flow::Need(HostRequest::ParseArgs { kind: k, args: a }) && k == kind && strs(a@)
            == strs(args@),
{
    let a = copy_strings(args.as_slice(), 0, args.len());
    assert(args@.subrange(0, args@.len() as int) =~= args@);
    Flow::Need(HostRequest::ParseArgs { kind, args: a })
}

fn invalid_args(m: &String) -> (r: Flow<ApiResult<CommandOutcome>>)
    ensures
        r matches Flow::Ready(Err(e)) && e.code == ErrorCode::InvalidArgs && e.message@ == m@,
{
    Flow::Ready(Err(ApiError::new(ErrorCode::InvalidArgs, m.clone())))
}

impl QuillPlugin {
    /// Reads the configuration: whether tokens are required (off unless
    /// `require_token` is truthy), whether pane permissions are enforced (on
    /// unless `enable_pane_permissions` is given and not truthy), and the
    /// configured token.
    pub fn load(&mut self, configuration: &Vec<(String, String)>)
        requires
            old(self).wf(),
        ensures
            final(self).wf(),
            final(self).require_token == match arg_lookup(configuration@, "require_token"@) {
                Some(v) => truthy(v@),
                None => false,
            },
            final(self).enforce_pane_permissions == match arg_lookup(
                configuration@,
                "enable_pane_permissions"@,
            ) {
                Some(v) => truthy(v@),
                None => true,
            },
            final(self).configured_token == arg_lookup(configuration@, "token"@),
            final(self).jobs == old(self).jobs,
            final(self).token_pane_permissions == old(self).token_pane_permissions,
            focus_refreshed(*old(self), *final(self)),
    {
        let r = arg_value(configuration, "require_token");
        self.require_token = match &r {
            Some(v) => parse_bool(Some(v.as_str())),
            None => false,
        };
        let e = arg_value(configuration, "enable_pane_permissions");
        self.enforce_pane_permissions = match &e {
            Some(v) => parse_bool(Some(v.as_str())),
            None => true,
        };
        self.configured_token = arg_value(configuration, "token");
        self.refresh_focus_from_manifest();
    }

    /// Runs a command: refused outright when the plugin's permissions were
    /// denied, and for a command it does not know.
    #[verifier::rlimit(60)]
    #[verifier::spinoff_prover]
    pub fn dispatch_command(
        &mut self,
        parsed: &PipeCommand,
        pipe_id: Option<&str>,
        facts: &HostFacts,
        fx: &mut Vec<Effect>,
    ) -> (r: Flow<ApiResult<CommandOutcome>>)
        requires
            old(self).wf(),
        ensures
            final(self).wf(),
            extends(old(fx)@, final(fx)@),
            final(self).pending_permission_commands == old(self).pending_permission_commands,
            final(self).current_pipe_origin_pane_id == old(self).current_pipe_origin_pane_id,
            old(self).permissions_denied ==> *final(self) == *old(self) && final(fx)@ == old(fx)@ && (r matches Flow::Ready(
                Err(e),
            ) && e.code == ErrorCode::PermissionStatus),
            !old(self).permissions_denied && command_of(parsed.cmd@) == CommandName::Unknown ==> (r matches Flow::Ready(
                Err(e),
            ) && e.code == ErrorCode::UnknownCommand && final(fx)@ == old(fx)@),
            !old(self).permissions_denied && command_of(parsed.cmd@) == CommandName::Help ==> (r matches Flow::Ready(
                Ok(CommandOutcome::Immediate { payload: Payload::Help { .. }, json_only, .. }),
            ) && !json_only && final(fx)@ == old(fx)@),
            !old(self).permissions_denied && args_kind_of(command_of(parsed.cmd@)) is Some && facts.args is None
                ==> (r matches Flow::Need(HostRequest::ParseArgs { kind, args }) && Some(kind)
                == args_kind_of(command_of(parsed.cmd@)) && strs(args@) == strs(parsed.args@)),
            dispatch_outcome(*old(self), *final(self), *parsed, pipe_id, *facts, old(fx)@, final(fx)@, r),
    {
        if self.permissions_denied {
            return Flow::Ready(
                Err(
                    ApiError::with_text(ErrorCode::PermissionStatus, "Plugin permissions were denied").hint(
                        "Allow requested plugin permissions in Zellij and reload the plugin.",
                    ),
                ),
            );
        }
        let args = &parsed.args;
        match command_name(parsed.cmd.as_str()) {
            CommandName::Panes => match self.cmd_panes(args, facts) {
                Flow::Need(n) => Flow::Need(n),
                Flow::Ready(x) => Flow::Ready(x),
            },
            CommandName::Send => match &facts.args {
                Some(Ok(CommandArgs::Send(a))) => self.cmd_send(a, facts, fx),
                Some(Err(m)) => invalid_args(m),
                _ => need_args(ArgsKind::Send, args),
            },
            CommandName::Run => match &facts.args {
                Some(Ok(CommandArgs::Run(a))) => self.cmd_run(a, pipe_id, facts, fx),
                Some(Err(m)) => invalid_args(m),
                _ => need_args(ArgsKind::Run, args),
            },
            CommandName::Tail => self.cmd_tail(args, facts, fx),
            CommandName::Grep => self.cmd_grep(args, facts, fx),
            CommandName::Wait => self.cmd_wait(args, pipe_id, facts, fx),
            CommandName::Exec => match &facts.args {
                Some(Ok(CommandArgs::Exec(a))) => self.cmd_exec(a, pipe_id, facts, fx),
                Some(Err(m)) => invalid_args(m),
                _ => need_args(ArgsKind::Exec, args),
            },
            CommandName::Spawn => match &facts.args {
                Some(Ok(CommandArgs::Spawn(a))) => self.cmd_spawn(a, pipe_id, facts, fx),
                Some(Err(m)) => invalid_args(m),
                _ => need_args(ArgsKind::Spawn, args),
            },
            CommandName::Interrupt => match &facts.args {
                Some(Ok(CommandArgs::Interrupt(a))) => self.cmd_interrupt(a, facts, fx),
                Some(Err(m)) => invalid_args(m),
                _ => need_args(ArgsKind::Interrupt, args),
            },
            CommandName::Mark => self.cmd_mark(args, facts, fx),
            CommandName::Since => self.cmd_since(args, facts, fx),
            CommandName::Token => self.cmd_token(args, facts),
            CommandName::Permit => Flow::Ready(self.cmd_permit(args)),
            CommandName::Help => Flow::Ready(Ok(self.help_response(false))),
            CommandName::Unknown => {
                let mut m = String::from_str("Unknown command: ");
                m.append(parsed.cmd.as_str());
                Flow::Ready(
                    Err(
                        ApiError::new(ErrorCode::UnknownCommand, m).hint(
                            "Use `help` for available commands.",
                        ),
                    ),
                )
            },
        }
    }
}

/// What a command does, by its name, as each command's own contract
/// states it. Commands that take typed arguments have the host read them
/// first; the host's refusal of them is an `INVALID_ARGS` error. When the
/// plugin's permissions were denied, every command is refused.
pub open spec fn dispatch_outcome(
    before: QuillPlugin,
    after: QuillPlugin,
    parsed: PipeCommand,
    pipe_id: Option<&str>,
    facts: HostFacts,
    f0: Seq<Effect>,
    f1: Seq<Effect>,
    r: Flow<ApiResult<CommandOutcome>>,
) -> bool {
    if before.permissions_denied {
        after == before && f1 == f0 && (r matches Flow::Ready(Err(e)) && e.code == ErrorCode::PermissionStatus
            && e.message@ == "Plugin permissions were denied"@)
    } else {
        match command_of(parsed.cmd@) {
            CommandName::Panes => after == before && f1 == f0 && panes_outcome(before, parsed.args, facts, r),
            CommandName::Send => match facts.args {
                Some(Ok(CommandArgs::Send(a))) => send_outcome(before, after, a, facts, f0, f1, r),
                Some(Err(m)) => args_refused(before, after, f0, f1, m, r),
                _ => args_needed(before, after, f0, f1, ArgsKind::Send, parsed.args, r),
            },
            CommandName::Run => match facts.args {
                Some(Ok(CommandArgs::Run(a))) => run_outcome(before, after, a, pipe_id, facts, f0, f1, r),
                Some(Err(m)) => args_refused(before, after, f0, f1, m, r),
                _ => args_needed(before, after, f0, f1, ArgsKind::Run, parsed.args, r),
            },
            CommandName::Tail => tail_outcome(before, after, parsed.args, facts, f0, f1, r),
            CommandName::Grep => grep_outcome(before, after, parsed.args, facts, f0, f1, r),
            CommandName::Wait => wait_outcome(before, after, parsed.args, pipe_id, facts, f0, f1, r),
            CommandName::Exec => match facts.args {
                Some(Ok(CommandArgs::Exec(a))) => exec_outcome(before, after, a, pipe_id, facts, f0, f1, r),
                Some(Err(m)) => args_refused(before, after, f0, f1, m, r),
                _ => args_needed(before, after, f0, f1, ArgsKind::Exec, parsed.args, r),
            },
            CommandName::Spawn => match facts.args {
                Some(Ok(CommandArgs::Spawn(a))) => spawn_outcome(before, after, a, pipe_id, facts, f0, f1, r),
                Some(Err(m)) => args_refused(before, after, f0, f1, m, r),
                _ => args_needed(before, after, f0, f1, ArgsKind::Spawn, parsed.args, r),
            },
            CommandName::Interrupt => match facts.args {
                Some(Ok(CommandArgs::Interrupt(a))) => interrupt_outcome(before, after, a, facts, f0, f1, r),
                Some(Err(m)) => args_refused(before, after, f0, f1, m, r),
                _ => args_needed(before, after, f0, f1, ArgsKind::Interrupt, parsed.args, r),
            },
            CommandName::Mark => mark_outcome(before, after, parsed.args, facts, f0, f1, r),
            CommandName::Since => since_outcome(before, after, parsed.args, facts, f0, f1, r),
            CommandName::Token => f1 == f0 && token_outcome(before, after, parsed.args, facts, r),
            CommandName::Permit => after == before && f1 == f0 && (r matches Flow::Ready(x) && permit_outcome(
                before,
                parsed.args,
                x,
            )),
            CommandName::Help => after == before && f1 == f0 && (r matches Flow::Ready(
                Ok(CommandOutcome::Immediate { json_only: j, human: h, payload: Payload::Help { commands } }),
            ) && !j && strs(commands@) == command_names() && human_view(h) == human_text(
                false,
                "commands: "@ + join(command_names(), ", "@),
            )),
            CommandName::Unknown => after == before && f1 == f0 && (r matches Flow::Ready(Err(e)) && e.code
                == ErrorCode::UnknownCommand && e.message@ == "Unknown command: "@ + parsed.cmd@),
        }
    }
}

/// The host could not read a command's arguments: nothing changes, and
/// the command is refused with what the host said.
pub open spec fn args_refused(
    before: QuillPlugin,
    after: QuillPlugin,
    f0: Seq<Effect>,
    f1: Seq<Effect>,
    message: String,
    r: Flow<ApiResult<CommandOutcome>>,
) -> bool {
    after == before && f1 == f0 && (r matches Flow::Ready(Err(e)) && e.code == ErrorCode::InvalidArgs
        && e.message@ == message@)
}

/// A command's arguments are not read yet: nothing changes, and the host
/// is asked to read them.
pub open spec fn args_needed(
    before: QuillPlugin,
    after: QuillPlugin,
    f0: Seq<Effect>,
    f1: Seq<Effect>,
    kind: ArgsKind,
    args: Vec<String>,
    r: Flow<ApiResult<CommandOutcome>>,
) -> bool {
    after == before && f1 == f0 && (r matches Flow::Need(HostRequest::ParseArgs { kind: k, args: a })
        && k == kind && strs(a@) == strs(args@))
}

/// How a command's outcome `d` is delivered, from the state `mid` and the
/// effects `fm` it left to those of `after` and `f1`. An immediate answer is
/// sent on the pipe, which is released when `unblock`; so is an error,
/// unless it names an approval that is waited for and there is a pipe to
/// hold: then the command is kept, under that request, to run once the
/// approval comes, and its pipe is held. A job's outcome sends nothing now,
/// and a request to the host is passed on.
pub open spec fn delivered(
    mid: QuillPlugin,
    after: QuillPlugin,
    parsed: PipeCommand,
    pipe_id: Option<&str>,
    unblock: bool,
    fm: Seq<Effect>,
    f1: Seq<Effect>,
    d: Flow<ApiResult<CommandOutcome>>,
    r: Flow<()>,
) -> bool {
    match d {
        Flow::Need(n) => r == Flow::<()>::Need(n) && after == mid && f1 == fm,
        Flow::Ready(Ok(CommandOutcome::Async)) => r is Ready && after == mid && f1 == fm,
        Flow::Ready(Ok(CommandOutcome::Immediate { json_only, human, payload })) => r is Ready && after == mid
            && match pipe_id {
            Some(p) => f1.len() == fm.len() + 1 && f1.take(fm.len() as int) == fm && (f1.last() matches Effect::Respond {
                pipe_id: q,
                json_only: j,
                human: h,
                payload: pl,
                unblock: u,
            } && q@ == p@ && j == json_only && h == human && pl == payload && u == unblock),
            None => f1 == fm,
        },
        Flow::Ready(Err(e)) => r is Ready && if pipe_id is Some && awaited_request(e) is Some {
            let id = awaited_request(e)->0;
            &&& after == (QuillPlugin { pending_permission_commands: after.pending_permission_commands, ..mid })
            &&& lookup(after.pending_permission_commands@, id) matches Some(c) && c.pipe_id@ == pipe_id->0@
                && c.parsed.cmd@ == parsed.cmd@ && strs(c.parsed.args@) == strs(parsed.args@)
                && c.origin_pane_id == mid.current_pipe_origin_pane_id
            &&& forall|k: Seq<char>|
                k != id ==> #[trigger] lookup(after.pending_permission_commands@, k) == lookup(
                    mid.pending_permission_commands@,
                    k,
                )
            &&& f1.len() == fm.len() + 1 && f1.take(fm.len() as int) == fm
            &&& f1.last() matches Effect::BlockPipe { pipe_id: q } && q@ == pipe_id->0@
        } else {
            &&& after == mid
            &&& match pipe_id {
                Some(p) => f1.len() == fm.len() + 1 && f1.take(fm.len() as int) == fm && (f1.last() matches Effect::Respond {
                    pipe_id: q,
                    json_only: j,
                    human: h,
                    payload: Payload::Error(x),
                    unblock: u,
                } && q@ == p@ && !j && h is None && x == e && u == unblock),
                None => f1 == fm,
            }
        },
    }
}

/// `s`, taken as coming from the pane `origin`.
pub open spec fn with_origin(s: QuillPlugin, origin: Option<PaneId>) -> QuillPlugin {
    QuillPlugin { current_pipe_origin_pane_id: origin, ..s }
}

/// Running a command: it does what `dispatch_outcome` says, and that
/// outcome is delivered as `delivered` says.
pub open spec fn command_run(
    before: QuillPlugin,
    after: QuillPlugin,
    parsed: PipeCommand,
    pipe_id: Option<&str>,
    unblock: bool,
    facts: HostFacts,
    f0: Seq<Effect>,
    f1: Seq<Effect>,
    r: Flow<()>,
) -> bool {
    exists|mid: QuillPlugin, fm: Seq<Effect>, d: Flow<ApiResult<CommandOutcome>>|
        #[trigger] dispatch_outcome(before, mid, parsed, pipe_id, facts, f0, fm, d) && delivered(
            mid,
            after,
            parsed,
            pipe_id,
            unblock,
            fm,
            f1,
            d,
            r,
        )
}

/// Continuing the command that waited for the approved request `id`: it
/// runs as if it came again from its pane, on its pipe, which its answer
/// releases, and once it ran it is forgotten. With no such command nothing
/// happens.
pub open spec fn continued(
    before: QuillPlugin,
    after: QuillPlugin,
    id: Seq<char>,
    facts: HostFacts,
    f0: Seq<Effect>,
    f1: Seq<Effect>,
    r: Flow<()>,
) -> bool {
    match lookup(before.pending_permission_commands@, id) {
        None => after == before && f1 == f0 && r is Ready,
        Some(c) => exists|pc: PipeCommand, p: Option<&str>, fin: QuillPlugin|
            #[trigger] command_run(with_origin(before, c.origin_pane_id), fin, pc, p, true, facts, f0, f1, r)
                && pc.cmd@ == c.parsed.cmd@ && strs(pc.args@) == strs(c.parsed.args@) && pipe_view(p) == Some(
                c.pipe_id@,
            ) && match r {
                Flow::Need(_) => after == with_origin(fin, before.current_pipe_origin_pane_id),
                Flow::Ready(_) => {
                    &&& after == (QuillPlugin {
                        pending_permission_commands: after.pending_permission_commands,
                        ..with_origin(fin, before.current_pipe_origin_pane_id)
                    })
                    &&& lookup(after.pending_permission_commands@, id) is None
                    &&& forall|k: Seq<char>|
                        k != id ==> #[trigger] lookup(after.pending_permission_commands@, k) == lookup(
                            fin.pending_permission_commands@,
                            k,
                        )
                },
            },
    }
}

/// The position of the first active tab.
pub open spec fn active_tab_of(tabs: Seq<(usize, bool)>) -> Option<usize>
    decreases tabs.len(),
{
    if tabs.len() == 0 {
        None
    } else if tabs[0].1 {
        Some(tabs[0].0)
    } else {
        active_tab_of(tabs.drop_first())
    }
}

fn active_tab(tabs: &Vec<(usize, bool)>) -> (r: Option<usize>)
    ensures
        r == active_tab_of(tabs@),
{
    let mut i: usize = 0;
    assert(tabs@.skip(0) =~= tabs@);
    while i < tabs.len()
        invariant
            i <= tabs@.len(),
            active_tab_of(tabs@) == active_tab_of(tabs@.skip(i as int)),
        decreases tabs@.len() - i,
    {
        assert(tabs@.skip(i as int)[0] == tabs@[i as int]);
        if tabs[i].1 {
            return Some(tabs[i].0);
        }
        assert(tabs@.skip(i as int).drop_first() =~= tabs@.skip(i + 1));
        i = i + 1;
    }
    None
}

/// The pipe of a message, as text.
pub open spec fn message_pipe(m: PipeMessage) -> Option<Seq<char>> {
    match m.pipe_id {
        Some(p) => Some(p@),
        None => None,
    }
}

/// The pipe a request came through, as text.
pub open spec fn pipe_view(pipe_id: Option<&str>) -> Option<Seq<char>> {
    match pipe_id {
        Some(p) => Some(p@),
        None => None,
    }
}

/// `f1` is `f0` followed, when there is a pipe, by one answer on it: an
/// error of kind `code`, which releases the pipe when `unblock`.
pub open spec fn error_reply(
    f0: Seq<Effect>,
    f1: Seq<Effect>,
    pipe: Option<Seq<char>>,
    code: ErrorCode,
    unblock: bool,
) -> bool {
    match pipe {
        Some(p) => f1.len() == f0.len() + 1 && f1.take(f0.len() as int) == f0 && (f1.last() matches Effect::Respond {
            pipe_id: q,
            payload: Payload::Error(e),
            unblock: u,
            ..
        } && q@ == p && e.code == code && u == unblock),
        None => f1 == f0,
    }
}

/// `f1` is `f0` followed, when there is a pipe, by the list of commands as
/// its answer, for people to read.
pub open spec fn help_reply(f0: Seq<Effect>, f1: Seq<Effect>, pipe: Option<Seq<char>>, unblock: bool) -> bool {
    match pipe {
        Some(p) => f1.len() == f0.len() + 1 && f1.take(f0.len() as int) == f0 && (f1.last() matches Effect::Respond {
            pipe_id: q,
            json_only: j,
            payload: Payload::Help { .. },
            unblock: u,
            ..
        } && q@ == p && !j && u == unblock),
        None => f1 == f0,
    }
}

/// The request a refusal waits on: the request id of a
/// `PERMISSION_REQUIRED` error.
pub open spec fn awaited_request(e: ApiError) -> Option<Seq<char>> {
    if e.code != ErrorCode::PermissionRequired {
        None
    } else {
        match e.meta {
            Some(ErrorMeta::Permission { request_id, .. }) => Some(request_id@),
            _ => None,
        }
    }
}

fn copy_command(c: &PipeCommand) -> (r: PipeCommand)
    ensures
        r.cmd@ == c.cmd@,
        strs(r.args@) == strs(c.args@),
{
    let args = copy_strings(c.args.as_slice(), 0, c.args.len());
    assert(c.args@.subrange(0, c.args@.len() as int) =~= c.args@);
    PipeCommand { cmd: c.cmd.clone(), args }
}

impl QuillPlugin {
    /// The request a refusal waits on.
    pub fn permission_request_id_from_error(error: &ApiError) -> (r: Option<String>)
        ensures
            match awaited_request(*error) {
                Some(id) => r matches Some(s) && s@ == id,
                None => r is None,
            },
    {
        if error.code != ErrorCode::PermissionRequired {
            return None;
        }
        match &error.meta {
            Some(ErrorMeta::Permission { request_id, .. }) => Some(request_id.clone()),
            _ => None,
        }
    }

    /// Puts a command aside when it was refused for want of a permission the
    /// user is being asked for: the pipe stays open, and the command waits
    /// under the request's id. Says whether it did.
    pub fn defer_until_permission_approved(
        &mut self,
        parsed: &PipeCommand,
        pipe_id: Option<&str>,
        error: &ApiError,
        fx: &mut Vec<Effect>,
    ) -> (r: bool)
        requires
            old(self).wf(),
        ensures
            final(self).wf(),
            r == (pipe_id is Some && awaited_request(*error) is Some),
            !r ==> *final(self) == *old(self) && final(fx)@ == old(fx)@,
            r ==> {
                let id = awaited_request(*error)->0;
                &&& *final(self) == (QuillPlugin {
                    pending_permission_commands: final(self).pending_permission_commands,
                    ..*old(self)
                })
                &&& lookup(final(self).pending_permission_commands@, id) matches Some(c)
                    && c.pipe_id@ == pipe_id->0@ && c.parsed.cmd@ == parsed.cmd@ && strs(
                    c.parsed.args@,
                ) == strs(parsed.args@) && c.origin_pane_id == old(self).current_pipe_origin_pane_id
                &&& forall|k: Seq<char>|
                    k != id ==> #[trigger] lookup(final(self).pending_permission_commands@, k)
                        == lookup(old(self).pending_permission_commands@, k)
                &&& final(fx)@.len() == old(fx)@.len() + 1
                &&& extends(old(fx)@, final(fx)@)
                &&& final(fx)@.last() matches Effect::BlockPipe { pipe_id: q } && q@ == pipe_id->0@
            },
    {
        let pipe = match pipe_id {
            Some(p) => p,
            None => {
                return false;
            },
        };
        let request_id = match Self::permission_request_id_from_error(error) {
            Some(id) => id,
            None => {
                return false;
            },
        };
        self.block_pipe(pipe, fx);
        let command = PendingPermissionCommand {
            pipe_id: String::from_str(pipe),
            parsed: copy_command(parsed),
            origin_pane_id: self.current_pipe_origin_pane_id,
        };
        insert(&mut self.pending_permission_commands, request_id, command);
        true
    }

    /// Runs a command and answers its pipe: at once with its answer or
    /// error, later from a job, or, when it awaits a permission the user is
    /// asked for, once the user answers. `unblock_immediate` releases the
    /// pipe after an immediate answer.
    #[verifier::spinoff_prover]
    pub fn run_parsed_command(
        &mut self,
        parsed: &PipeCommand,
        pipe_id: Option<&str>,
        unblock_immediate: bool,
        facts: &HostFacts,
        fx: &mut Vec<Effect>,
    ) -> (r: Flow<()>)
        requires
            old(self).wf(),
        ensures
            final(self).wf(),
            extends(old(fx)@, final(fx)@),
            final(self).current_pipe_origin_pane_id == old(self).current_pipe_origin_pane_id,
            r is Need ==> final(self).pending_permission_commands == old(self).pending_permission_commands,
            old(self).permissions_denied ==> *final(self) == *old(self) && r is Ready && error_reply(
                old(fx)@,
                final(fx)@,
                pipe_view(pipe_id),
                ErrorCode::PermissionStatus,
                unblock_immediate,
            ),
            !old(self).permissions_denied && command_of(parsed.cmd@) == CommandName::Unknown ==> r is Ready
                && error_reply(
                old(fx)@,
                final(fx)@,
                pipe_view(pipe_id),
                ErrorCode::UnknownCommand,
                unblock_immediate,
            ),
            !old(self).permissions_denied && command_of(parsed.cmd@) == CommandName::Help ==> r is Ready && help_reply(
                old(fx)@,
                final(fx)@,
                pipe_view(pipe_id),
                unblock_immediate,
            ),
            !old(self).permissions_denied && args_kind_of(command_of(parsed.cmd@)) is Some && facts.args is None
                ==> (r matches Flow::Need(HostRequest::ParseArgs { kind, args }) && Some(kind)
                == args_kind_of(command_of(parsed.cmd@)) && strs(args@) == strs(parsed.args@)),
            command_run(*old(self), *final(self), *parsed, pipe_id, unblock_immediate, *facts, old(fx)@, final(fx)@, r),
    {
        let outcome = self.dispatch_command(parsed, pipe_id, facts, fx);
        let ghost mid = *self;
        let ghost fm = fx@;
        let ghost d = outcome;
        assert(dispatch_outcome(*old(self), mid, *parsed, pipe_id, *facts, old(fx)@, fm, d));
        match outcome {
            Flow::Need(n) => Flow::Need(n),
            Flow::Ready(Ok(CommandOutcome::Immediate { json_only, human, payload })) => {
                let ghost f0 = fx@;
                self.send_response(pipe_id, json_only, human, payload, unblock_immediate, fx);
                proof {
                    assert(extends(f0, fx@));
                    lemma_extends_trans(old(fx)@, f0, fx@);
                }
                Flow::Ready(())
            },
            Flow::Ready(Ok(CommandOutcome::Async)) => Flow::Ready(()),
            Flow::Ready(Err(e)) => {
                let ghost f0 = fx@;
                if self.defer_until_permission_approved(parsed, pipe_id, &e, fx) {
                    proof {
                        assert(extends(f0, fx@));
                        lemma_extends_trans(old(fx)@, f0, fx@);
                        assert(fx@.take(fm.len() as int) =~= fm);
                    }
                    return Flow::Ready(());
                }
                self.send_error_with_unblock(pipe_id, false, e, unblock_immediate, fx);
                proof {
                    assert(extends(f0, fx@));
                    lemma_extends_trans(old(fx)@, f0, fx@);
                }
                Flow::Ready(())
            },
        }
    }

    /// Runs the command that waited for an approved request, from the pane
    /// it came from, and releases its pipe after the answer. The command is
    /// forgotten once it ran.
    pub fn continue_pending_permission_command(
        &mut self,
        request_id: &String,
        facts: &HostFacts,
        fx: &mut Vec<Effect>,
    ) -> (r: Flow<()>)
        requires
            old(self).wf(),
        ensures
            final(self).wf(),
            extends(old(fx)@, final(fx)@),
            final(self).current_pipe_origin_pane_id == old(self).current_pipe_origin_pane_id,
            lookup(old(self).pending_permission_commands@, request_id@) is None ==> *final(self)
                == *old(self) && final(fx)@ == old(fx)@ && r is Ready,
            r is Ready ==> lookup(final(self).pending_permission_commands@, request_id@) is None,
            r is Need ==> lookup(final(self).pending_permission_commands@, request_id@) == lookup(
                old(self).pending_permission_commands@,
                request_id@,
            ),
            continued(*old(self), *final(self), request_id@, *facts, old(fx)@, final(fx)@, r),
    {
        let pending = match crate::table::position(&self.pending_permission_commands, request_id) {
            None => {
                return Flow::Ready(());
            },
            Some(i) => {
                let c = &self.pending_permission_commands[i].1;
                PendingPermissionCommand {
                    pipe_id: c.pipe_id.clone(),
                    parsed: copy_command(&c.parsed),
                    origin_pane_id: c.origin_pane_id,
                }
            },
        };
        let previous_origin = self.current_pipe_origin_pane_id;
        self.current_pipe_origin_pane_id = pending.origin_pane_id;
        let ghost before = self.pending_permission_commands@;
        let ghost started = *self;
        let pipe: Option<&str> = Some(pending.pipe_id.as_str());
        let r = self.run_parsed_command(&pending.parsed, pipe, true, facts, fx);
        let ghost fin = *self;
        proof {
            let c = lookup(old(self).pending_permission_commands@, request_id@)->0;
            assert(started == with_origin(*old(self), c.origin_pane_id));
            assert(command_run(started, fin, pending.parsed, pipe, true, *facts, old(fx)@, fx@, r));
            assert(pending.parsed.cmd@ == c.parsed.cmd@);
            assert(strs(pending.parsed.args@) == strs(c.parsed.args@));
            assert(pipe_view(pipe) == Some(c.pipe_id@));
        }
        self.current_pipe_origin_pane_id = previous_origin;
        match r {
            Flow::Need(n) => {
                assert(*self == with_origin(fin, old(self).current_pipe_origin_pane_id));
                Flow::Need(n)
            },
            Flow::Ready(()) => {
                remove(&mut self.pending_permission_commands, request_id);
                proof {
                    let c = lookup(old(self).pending_permission_commands@, request_id@)->0;
                    assert(*self == (QuillPlugin {
                        pending_permission_commands: self.pending_permission_commands,
                        ..with_origin(fin, old(self).current_pipe_origin_pane_id)
                    }));
                    assert forall|k: Seq<char>| k != request_id@ implies #[trigger] lookup(
                        self.pending_permission_commands@,
                        k,
                    ) == lookup(fin.pending_permission_commands@, k) by {}
                    assert(command_run(with_origin(*old(self), c.origin_pane_id), fin, pending.parsed, pipe, true, *facts, old(fx)@, fx@, Flow::Ready(())));
                }
                Flow::Ready(())
            },
        }
    }
}

impl QuillPlugin {
    /// Handles a pipe message: reads its command and runs it, remembering
    /// for the time being the pane it came from.
    pub fn pipe(&mut self, pipe_message: &PipeMessage, facts: &HostFacts) -> (r: Step)
        requires
            old(self).wf(),
        ensures
            final(self).wf(),
            final(self).current_pipe_origin_pane_id is None,
            match payload_text(*pipe_message) {
                None => r matches Step::Done(fx) && error_reply(
                    Seq::empty(),
                    fx@,
                    message_pipe(*pipe_message),
                    ErrorCode::InvalidRequest,
                    false,
                ),
                Some(text) => match command_argv(text, *facts) {
                    None => r matches Step::Need(HostRequest::ParseJson { payload }) && payload@ == text,
                    Some(None) => r matches Step::Done(fx) && (error_reply(
                        Seq::empty(),
                        fx@,
                        message_pipe(*pipe_message),
                        ErrorCode::InvalidJson,
                        false,
                    ) || error_reply(
                        Seq::empty(),
                        fx@,
                        message_pipe(*pipe_message),
                        ErrorCode::InvalidArgs,
                        false,
                    )),
                    Some(Some(argv)) => if argv.len() == 0 {
                        r matches Step::Done(fx) && error_reply(
                            Seq::empty(),
                            fx@,
                            message_pipe(*pipe_message),
                            ErrorCode::InvalidRequest,
                            false,
                        )
                    } else if old(self).permissions_denied {
                        &&& *final(self) == (QuillPlugin { current_pipe_origin_pane_id: None, ..*old(self) })
                        &&& r matches Step::Done(fx) && error_reply(
                            Seq::empty(),
                            fx@,
                            message_pipe(*pipe_message),
                            ErrorCode::PermissionStatus,
                            false,
                        )
                    } else if command_of(argv[0]) == CommandName::Unknown {
                        r matches Step::Done(fx) && error_reply(
                            Seq::empty(),
                            fx@,
                            message_pipe(*pipe_message),
                            ErrorCode::UnknownCommand,
                            false,
                        )
                    } else if command_of(argv[0]) == CommandName::Help {
                        r matches Step::Done(fx) && help_reply(Seq::empty(), fx@, message_pipe(*pipe_message), false)
                    } else if args_kind_of(command_of(argv[0])) is Some && facts.args is None {
                        r matches Step::Need(HostRequest::ParseArgs { kind, args }) && Some(kind)
                            == args_kind_of(command_of(argv[0])) && strs(args@) == argv.drop_first()
                    } else {
                        exists|c: PipeCommand, p: Option<&str>, fin: QuillPlugin, f1: Seq<Effect>, out: Flow<()>|
                            #[trigger] command_run(
                                with_origin(*old(self), message_origin(*pipe_message, *facts)),
                                fin,
                                c,
                                p,
                                false,
                                *facts,
                                Seq::empty(),
                                f1,
                                out,
                            ) && c.cmd@ == argv[0] && strs(c.args@) == argv.drop_first() && pipe_view(p)
                                == message_pipe(*pipe_message) && *final(self) == with_origin(fin, None) && match out {
                                Flow::Need(n) => r == Step::Need(n),
                                Flow::Ready(_) => r matches Step::Done(fx) && fx@ == f1,
                            }
                    },
                },
            },
    {
        let mut fx: Vec<Effect> = Vec::new();
        self.capture_pipe_origin_pane_id(pipe_message, facts);
        let pipe_id: Option<&str> = match &pipe_message.pipe_id {
            Some(p) => Some(p.as_str()),
            None => None,
        };
        assert(pipe_view(pipe_id) == message_pipe(*pipe_message));
        assert(fx@ == Seq::<Effect>::empty());
        let parsed = match parse_pipe_command(pipe_message, facts) {
            Flow::Need(n) => {
                self.current_pipe_origin_pane_id = None;
                return Step::Need(n);
            },
            Flow::Ready(Err(e)) => {
                self.send_error(pipe_id, false, e, &mut fx);
                self.current_pipe_origin_pane_id = None;
                return Step::Done(fx);
            },
            Flow::Ready(Ok(p)) => p,
        };
        let ghost captured = *self;
        let r = self.run_parsed_command(&parsed, pipe_id, false, facts, &mut fx);
        let ghost fin = *self;
        let ghost f1 = fx@;
        self.current_pipe_origin_pane_id = None;
        assert(captured == with_origin(*old(self), message_origin(*pipe_message, *facts)));
        assert(command_run(captured, fin, parsed, pipe_id, false, *facts, Seq::empty(), f1, r));
        match r {
            Flow::Need(n) => Step::Need(n),
            Flow::Ready(()) => Step::Done(fx),
        }
    }

    /// Handles an event of the host.
    pub fn update(&mut self, event: Event, facts: &HostFacts) -> (r: Step)
        requires
            old(self).wf(),
        ensures
            final(self).wf(),
            event matches Event::PaneUpdate(m) ==> (r matches Step::Done(fx) && final(self).pane_manifest == Some(m)
                && (forall|k: Seq<char>| #[trigger] has_key(final(self).jobs@, k) ==> has_key(old(self).jobs@, k))
                && (forall|k: Seq<char>|
                #[trigger] lookup(old(self).jobs@, k) matches Some(Job::Spawn(j)) && spawn_done(j, Some(m))
                    ==> !has_key(final(self).jobs@, k)) && (forall|k: Seq<char>|
                #[trigger] lookup(old(self).jobs@, k) matches Some(Job::Spawn(j)) ==> (spawn_done(j, Some(m))
                    ==> spawn_answered(fx@, j, Some(m), *final(self))))),
            event matches Event::TabUpdate { tabs } ==> (r matches Step::Done(fx) && fx@.len() == 0 && match old(
                self,
            ).pane_manifest {
                Some(m) => match focus_choice(m, active_tab_of(tabs@)) {
                    Some((t, p)) => final(self).focused_tab_index == Some(t) && final(self).focused_pane_id == Some(p),
                    None => final(self).focused_tab_index == active_tab_of(tabs@) && final(self).focused_pane_id
                        == old(self).focused_pane_id,
                },
                None => final(self).focused_tab_index == active_tab_of(tabs@) && final(self).focused_pane_id
                    == old(self).focused_pane_id,
            }),
            event matches Event::RunCommandResult { exit_code, stdout, stderr, context } ==> (r matches Step::Done(fx)
                && exec_result_outcome(
                *old(self),
                *final(self),
                exit_code,
                stdout@,
                stderr@,
                context@,
                Seq::empty(),
                fx@,
            )),
            event matches Event::CommandPaneExited { terminal_pane_id, exit_code, context } ==> (r matches Step::Done(fx)
                && prompt_exit_outcome(
                *old(self),
                *final(self),
                terminal_pane_id,
                exit_code,
                context@,
                Seq::empty(),
                fx@,
            )),
            event is Timer ==> (r matches Step::Done(fx) ==> tick_result(
                *old(self),
                *final(self),
                facts.now,
                facts.scrollbacks@,
                fx@,
            )),
            event is Timer ==> (r is Need ==> *final(self) == *old(self)),
            event is Timer && r is Done ==> forall|k: Seq<char>|
                #[trigger] lookup(old(self).jobs@, k) matches Some(j) && job_deadline(j) <= facts.now
                    ==> !has_key(final(self).jobs@, k),
            event matches Event::PermissionResult { granted } ==> (!granted ==> final(self).permissions_denied
                && !final(self).permissions_granted && !final(self).session_env_permission_granted && (r matches Step::Done(
                fx,
            ) && fx@.len() == 0)),
            event matches Event::PermissionResult { granted } ==> (granted ==> !final(self).permissions_denied
                && final(self).permissions_granted && final(self).session_env_permission_granted),
            event matches Event::PermissionResult { granted } ==> (granted ==> match facts.session_token {
                None => r == Step::Need(HostRequest::SessionEnv),
                Some(v) => (r matches Step::Done(fx) && fx@.len() == 0) && final(self).token_from_session_env == (
                if env_token(v) is Some {
                    env_token(v)
                } else {
                    old(self).token_from_session_env
                }) && focus_refreshed(*old(self), *final(self)),
            }),
            event matches Event::PaneClosed(p) ==> (final(self).recent_terminal_panes@
                == super::state::without(old(self).recent_terminal_panes@, p) && (r matches Step::Done(fx)
                && fx@.len() == 0)),
            event matches Event::Continue { request_id } ==> (lookup(
                old(self).pending_permission_commands@,
                request_id@,
            ) is None ==> *final(self) == *old(self) && (r matches Step::Done(fx) && fx@.len() == 0)),
            event matches Event::Continue { request_id } ==> (r is Done ==> lookup(
                final(self).pending_permission_commands@,
                request_id@,
            ) is None),
            event matches Event::Continue { request_id } ==> (match r {
                Step::Need(n) => exists|f1: Seq<Effect>, out: Flow<()>|
                    #[trigger] continued(*old(self), *final(self), request_id@, *facts, Seq::empty(), f1, out) && out
                        == Flow::<()>::Need(n),
                Step::Done(fx) => exists|out: Flow<()>|
                    #[trigger] continued(*old(self), *final(self), request_id@, *facts, Seq::empty(), fx@, out)
                        && out is Ready,
            }),
    {
        let mut fx: Vec<Effect> = Vec::new();
        match event {
            Event::PaneUpdate(m) => {
                self.on_pane_update(m, &mut fx);
            },
            Event::TabUpdate { tabs } => {
                self.focused_tab_index = active_tab(&tabs);
                self.refresh_focus_from_manifest();
            },
            Event::RunCommandResult { exit_code, stdout, stderr, context } => {
                self.on_run_command_result(exit_code, &stdout, &stderr, &context, &mut fx);
            },
            Event::CommandPaneExited { terminal_pane_id, exit_code, context } => {
                self.on_command_pane_exited(terminal_pane_id, exit_code, &context, &mut fx);
            },
            Event::Timer => {
                match self.poll_jobs(facts, &mut fx) {
                    Flow::Need(n) => {
                        return Step::Need(n);
                    },
                    Flow::Ready(()) => {},
                }
            },
            Event::PermissionResult { granted } => {
                if granted {
                    self.permissions_granted = true;
                    self.permissions_denied = false;
                    self.session_env_permission_granted = true;
                    match self.session_env_token(facts) {
                        Flow::Need(n) => {
                            return Step::Need(n);
                        },
                        Flow::Ready(_) => {},
                    }
                    self.refresh_focus_from_manifest();
                } else {
                    self.permissions_granted = false;
                    self.permissions_denied = true;
                    self.session_env_permission_granted = false;
                }
            },
            Event::PaneClosed(p) => {
                self.forget_recent_pane(p);
            },
            Event::Continue { request_id } => {
                let ghost f0 = fx@;
                let c = self.continue_pending_permission_command(&request_id, facts, &mut fx);
                assert(f0 == Seq::<Effect>::empty());
                match c {
                    Flow::Need(n) => {
                        return Step::Need(n);
                    },
                    Flow::Ready(()) => {
                        assert(c is Ready);
                        assert(continued(*old(self), *self, request_id@, *facts, Seq::empty(), fx@, c));
                        let ghost fv = fx@;
                        let out = Step::Done(fx);
                        assert(out matches Step::Done(f) && f@ == fv);
                        return out;
                    },
                }
            },
        }
        Step::Done(fx)
    }
}

} // verus!
