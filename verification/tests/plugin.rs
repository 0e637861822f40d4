use zellij_quill::error::ErrorCode;
use zellij_quill::host::{
    CommandArgs, Effect, Event, ExecArgs, HostFacts, HostRequest, InterruptArgs, PromptReply,
    RunArgs, SendArgs, SpawnArgs, Step,
};
use zellij_quill::plugin::QuillPlugin;
use zellij_quill::response::{Payload, TokenSource};
use zellij_quill::types::{
    PaneContents, PaneId, PaneInfo, PaneManifest, PipeMessage, SpawnKind, SpawnWhere, TabPanes,
};

fn s(v: &str) -> String {
    v.to_string()
}

fn facts() -> HostFacts {
    HostFacts {
        now: 1_000,
        unix_ms: 1_700_000_000_000,
        session_token: None,
        origin_env: None,
        random_name: None,
        json: None,
        args: None,
        scrollbacks: Vec::new(),
        pids: None,
        prompt: None,
        opened: None,
    }
}

/// What the fake host answers with.
struct Host {
    lines: Vec<(PaneId, Vec<String>, usize, usize)>,
    session_token: Option<String>,
    prompt_pane: Option<PaneId>,
    opened: Option<PaneId>,
    args: Option<CommandArgs>,
}

fn host() -> Host {
    Host { lines: Vec::new(), session_token: None, prompt_pane: None, opened: None, args: None }
}

fn fill(f: &mut HostFacts, r: HostRequest, h: &Host) {
    match r {
        HostRequest::SessionEnv => f.session_token = Some(h.session_token.clone()),
        HostRequest::Scrollback { pane_id } => {
            let found = h.lines.iter().find(|(p, _, _, _)| *p == pane_id);
            let c = match found {
                Some((_, all, above, viewport)) => Ok(PaneContents {
                    lines_above_viewport: all[..*above].to_vec(),
                    viewport: all[*above..*above + *viewport].to_vec(),
                    lines_below_viewport: all[*above + *viewport..].to_vec(),
                }),
                None => Err(s("no such pane")),
            };
            f.scrollbacks.push((pane_id, c));
        },
        HostRequest::PanePids { pane_ids } => {
            f.pids = Some(
                pane_ids
                    .iter()
                    .map(|p| match p {
                        PaneId::Terminal(id) => (*p, Some(1000 + *id as i32)),
                        PaneId::Plugin(_) => (*p, None),
                    })
                    .collect(),
            )
        },
        HostRequest::OpenPrompt { plan } => f.prompt = Some(PromptReply { plan, opened: h.prompt_pane }),
        HostRequest::OpenPane { .. } => f.opened = Some(h.opened),
        HostRequest::RandomName => f.random_name = Some(s("Brave-Otter")),
        HostRequest::ParseArgs { .. } => f.args = Some(Ok(h.args.clone().unwrap())),
        HostRequest::ParseJson { .. } => panic!("unexpected JSON request"),
    }
}

fn message(payload: &str) -> PipeMessage {
    PipeMessage { pipe_id: Some(s("pipe-1")), name: s("zellij-quill"), payload: Some(s(payload)), args: Vec::new() }
}

fn pipe_with(p: &mut QuillPlugin, m: &PipeMessage, h: &Host, base: HostFacts) -> Vec<Effect> {
    let mut f = base;
    for _ in 0..20 {
        match p.pipe(m, &f) {
            Step::Done(fx) => return fx,
            Step::Need(r) => fill(&mut f, r, h),
        }
    }
    panic!("the plugin kept asking")
}

fn pipe(p: &mut QuillPlugin, payload: &str, h: &Host) -> Vec<Effect> {
    pipe_with(p, &message(payload), h, facts())
}

fn event_at(p: &mut QuillPlugin, e: Event, h: &Host, now: u128) -> Vec<Effect> {
    let mut f = facts();
    f.now = now;
    for _ in 0..20 {
        match p.update(e.clone(), &f) {
            Step::Done(fx) => return fx,
            Step::Need(r) => fill(&mut f, r, h),
        }
    }
    panic!("the plugin kept asking")
}

fn pane(id: u32, title: &str, focused: bool, plugin: bool) -> PaneInfo {
    PaneInfo { id, is_plugin: plugin, is_focused: focused, is_floating: false, is_suppressed: false, title: s(title) }
}

fn manifest() -> PaneManifest {
    PaneManifest {
        tabs: vec![
            TabPanes { position: 1, panes: vec![pane(7, "logs", false, false)] },
            TabPanes {
                position: 0,
                panes: vec![pane(3, "build", true, false), pane(2, "status-bar", false, true), pane(1, "shell", false, false)],
            },
        ],
    }
}

/// A plugin with a manifest, pane permissions off.
fn open_plugin() -> QuillPlugin {
    let mut p = QuillPlugin::new();
    p.load(&vec![(s("enable_pane_permissions"), s("false"))]);
    event_at(&mut p, Event::PaneUpdate(manifest()), &host(), 0);
    p
}

fn build_lines() -> Host {
    let mut h = host();
    let lines: Vec<String> = (1..=10).map(|i| format!("line {i}")).collect();
    h.lines.push((PaneId::Terminal(3), lines, 4, 3));
    h
}

fn only_response(fx: &[Effect]) -> (&Option<String>, &Payload, bool) {
    let responses: Vec<&Effect> = fx.iter().filter(|e| matches!(e, Effect::Respond { .. })).collect();
    assert_eq!(responses.len(), 1, "effects: {fx:?}");
    match responses[0] {
        Effect::Respond { human, payload, unblock, .. } => (human, payload, *unblock),
        _ => unreachable!(),
    }
}

fn error_code(fx: &[Effect]) -> ErrorCode {
    match only_response(fx).1 {
        Payload::Error(e) => e.code,
        other => panic!("not an error: {other:?}"),
    }
}

#[test]
fn help_lists_every_command() {
    let mut p = QuillPlugin::new();
    let fx = pipe(&mut p, "help", &host());
    let (human, payload, unblock) = only_response(&fx);
    assert!(!unblock);
    match payload {
        Payload::Help { commands } => assert_eq!(commands.len(), 15),
        other => panic!("{other:?}"),
    }
    assert_eq!(
        human.as_deref(),
        Some("commands: panes, send, run, tail, read, grep, wait, exec, spawn, interrupt, mark, since, token, permit, help")
    );
}

#[test]
fn unknown_command_is_refused() {
    let mut p = QuillPlugin::new();
    let fx = pipe(&mut p, "frobnicate --now", &host());
    assert_eq!(error_code(&fx), ErrorCode::UnknownCommand);
    match only_response(&fx).1 {
        Payload::Error(e) => assert_eq!(e.message, "Unknown command: frobnicate"),
        other => panic!("{other:?}"),
    }
}

#[test]
fn message_without_command_is_invalid() {
    let mut p = QuillPlugin::new();
    let m = PipeMessage { pipe_id: Some(s("pipe-1")), name: s("zellij-quill"), payload: Some(s("   ")), args: Vec::new() };
    assert_eq!(error_code(&pipe_with(&mut p, &m, &host(), facts())), ErrorCode::InvalidRequest);
}

#[test]
fn command_from_the_cmd_argument() {
    let mut p = QuillPlugin::new();
    let m = PipeMessage { pipe_id: Some(s("pipe-1")), name: s(""), payload: None, args: vec![(s("cmd"), s("help"))] };
    let fx = pipe_with(&mut p, &m, &host(), facts());
    assert!(matches!(only_response(&fx).1, Payload::Help { .. }));
}

#[test]
fn json_payload_is_parsed_by_the_host() {
    let mut p = QuillPlugin::new();
    let m = message("{\"cmd\":\"help\"}");
    let f = facts();
    match p.pipe(&m, &f) {
        Step::Need(HostRequest::ParseJson { payload }) => assert_eq!(payload, "{\"cmd\":\"help\"}"),
        _ => panic!("expected a JSON request"),
    }
    let mut f = facts();
    f.json = Some(Err(s("expected value")));
    match p.pipe(&m, &f) {
        Step::Done(fx) => assert_eq!(error_code(&fx), ErrorCode::InvalidJson),
        _ => panic!("expected an answer"),
    }
}

#[test]
fn denied_plugin_permissions_refuse_every_command() {
    let mut p = QuillPlugin::new();
    event_at(&mut p, Event::PermissionResult { granted: false }, &host(), 0);
    assert_eq!(error_code(&pipe(&mut p, "help", &host())), ErrorCode::PermissionStatus);
}

#[test]
fn tail_returns_the_last_lines() {
    let mut p = open_plugin();
    let fx = pipe(&mut p, "tail --pane build -n 2", &build_lines());
    let (human, payload, _) = only_response(&fx);
    match payload {
        Payload::Tail { pane_id, lines, truncated_since } => {
            assert_eq!(*pane_id, PaneId::Terminal(3));
            assert_eq!(lines, &vec![s("line 9"), s("line 10")]);
            assert!(!truncated_since);
        },
        other => panic!("{other:?}"),
    }
    assert_eq!(human.as_deref(), Some("line 9\nline 10"));
}

#[test]
fn tail_reads_the_top_and_the_viewport() {
    let mut p = open_plugin();
    let fx = pipe(&mut p, "read --pane build --from=top --lines 3 --json", &build_lines());
    let (human, payload, _) = only_response(&fx);
    assert!(human.is_none());
    match payload {
        Payload::Tail { lines, .. } => assert_eq!(lines, &vec![s("line 1"), s("line 2"), s("line 3")]),
        other => panic!("{other:?}"),
    }
    let fx = pipe(&mut p, "tail --pane build --from viewport", &build_lines());
    match only_response(&fx).1 {
        Payload::Tail { lines, .. } => assert_eq!(lines, &vec![s("line 5"), s("line 6"), s("line 7")]),
        other => panic!("{other:?}"),
    }
}

#[test]
fn tail_flag_errors() {
    let mut p = open_plugin();
    assert_eq!(error_code(&pipe(&mut p, "tail --pane build --bogus", &build_lines())), ErrorCode::InvalidArgs);
    assert_eq!(error_code(&pipe(&mut p, "tail --pane", &build_lines())), ErrorCode::InvalidArgs);
    assert_eq!(error_code(&pipe(&mut p, "tail -n x --pane build", &build_lines())), ErrorCode::InvalidArgs);
    assert_eq!(error_code(&pipe(&mut p, "tail --from middle --pane build", &build_lines())), ErrorCode::InvalidArgs);
    assert_eq!(error_code(&pipe(&mut p, "tail", &build_lines())), ErrorCode::InvalidArgs);
    assert_eq!(error_code(&pipe(&mut p, "tail --pane nowhere", &build_lines())), ErrorCode::PaneNotFound);
    assert_eq!(error_code(&pipe(&mut p, "tail --pane build --since mark-0-0", &build_lines())), ErrorCode::InvalidMark);
}

#[test]
fn pane_names_must_be_unique_terminals() {
    let mut p = QuillPlugin::new();
    p.load(&vec![(s("enable_pane_permissions"), s("no"))]);
    let m = PaneManifest {
        tabs: vec![TabPanes { position: 0, panes: vec![pane(1, "twin", true, false), pane(2, "twin", false, false)] }],
    };
    event_at(&mut p, Event::PaneUpdate(m), &host(), 0);
    assert_eq!(error_code(&pipe(&mut p, "tail --pane twin", &host())), ErrorCode::AmbiguousPaneName);
    let mut q = QuillPlugin::new();
    assert_eq!(error_code(&pipe(&mut q, "tail --pane twin", &host())), ErrorCode::NoPaneState);
}

#[test]
fn scrollback_errors_are_reported() {
    let mut p = open_plugin();
    assert_eq!(error_code(&pipe(&mut p, "tail --pane shell", &host())), ErrorCode::ScrollbackError);
}

#[test]
fn grep_finds_numbered_matches_in_the_last_lines() {
    let mut p = open_plugin();
    let fx = pipe(&mut p, "grep -n --last 5 -C 1 \"line [69]\" --pane build", &build_lines());
    let (human, payload, _) = only_response(&fx);
    match payload {
        Payload::Grep { pattern, matches, .. } => {
            assert_eq!(pattern, "line [69]");
            assert_eq!(matches.len(), 2);
            assert_eq!(matches[0].line_number, 6);
            assert!(matches[0].before.is_empty());
            assert_eq!(matches[0].after, vec![s("line 7")]);
            assert_eq!(matches[1].line_number, 9);
            assert_eq!(matches[1].before, vec![s("line 8")]);
            assert_eq!(matches[1].after, vec![s("line 10")]);
        },
        other => panic!("{other:?}"),
    }
    assert_eq!(human.as_deref(), Some("6:line 6\n9:line 9"));
}

#[test]
fn grep_pattern_errors() {
    let mut p = open_plugin();
    assert_eq!(error_code(&pipe(&mut p, "grep --pane build", &build_lines())), ErrorCode::InvalidArgs);
    assert_eq!(error_code(&pipe(&mut p, "grep a b --pane build", &build_lines())), ErrorCode::InvalidArgs);
    assert_eq!(error_code(&pipe(&mut p, "grep \"(\" --pane build", &build_lines())), ErrorCode::InvalidRegex);
    let fx = pipe(&mut p, "grep -F \"(\" --pane build", &build_lines());
    assert!(matches!(only_response(&fx).1, Payload::Grep { .. }));
}

#[test]
fn mark_then_since_counts_new_lines() {
    let mut p = open_plugin();
    let fx = pipe(&mut p, "mark --pane build", &build_lines());
    let token = match only_response(&fx).1 {
        Payload::Mark { token, line_count, created_at_ms, .. } => {
            assert_eq!(*line_count, 10);
            assert_eq!(*created_at_ms, 1_700_000_000_000);
            assert_eq!(token, "mark-1700000000000-1");
            token.clone()
        },
        other => panic!("{other:?}"),
    };
    let mut more = host();
    let lines: Vec<String> = (1..=13).map(|i| format!("line {i}")).collect();
    more.lines.push((PaneId::Terminal(3), lines, 10, 3));
    let fx = pipe(&mut p, &format!("since {token}"), &more);
    let (human, payload, _) = only_response(&fx);
    match payload {
        Payload::Since { available_since, current_line_count, line_count_at_mark, truncated, .. } => {
            assert_eq!(*available_since, 3);
            assert_eq!(*current_line_count, 13);
            assert_eq!(*line_count_at_mark, 10);
            assert!(!truncated);
        },
        other => panic!("{other:?}"),
    }
    assert_eq!(human.as_deref(), Some(format!("3 lines since {token}").as_str()));
    let fx = pipe(&mut p, &format!("tail --pane build --since {token}"), &more);
    match only_response(&fx).1 {
        Payload::Tail { lines, .. } => assert_eq!(lines, &vec![s("line 11"), s("line 12"), s("line 13")]),
        other => panic!("{other:?}"),
    }
    assert_eq!(error_code(&pipe(&mut p, "since", &more)), ErrorCode::InvalidArgs);
    assert_eq!(error_code(&pipe(&mut p, "since unknown", &more)), ErrorCode::InvalidMark);
    assert_eq!(error_code(&pipe(&mut p, "since a b", &more)), ErrorCode::InvalidArgs);
}

#[test]
fn wait_answers_at_once_when_the_pane_matches() {
    let mut p = open_plugin();
    let fx = pipe(&mut p, "wait --pane build --regex \"line 1.\"", &build_lines());
    match only_response(&fx).1 {
        Payload::WaitMatched { lines, .. } => assert_eq!(lines, &vec![s("line 10")]),
        other => panic!("{other:?}"),
    }
    let fx = pipe(&mut p, "wait --pane build --last 3 --mode all line", &build_lines());
    match only_response(&fx).1 {
        Payload::WaitMatched { lines, .. } => assert_eq!(lines.len(), 3),
        other => panic!("{other:?}"),
    }
}

#[test]
fn wait_times_out_from_a_job() {
    let mut p = open_plugin();
    let fx = pipe(&mut p, "wait --pane build --timeout 1 ready", &build_lines());
    assert!(fx.iter().any(|e| matches!(e, Effect::BlockPipe { .. })));
    assert!(matches!(fx.last(), Some(Effect::ScheduleTimer)));
    assert!(!fx.iter().any(|e| matches!(e, Effect::Respond { .. })));
    let fx = event_at(&mut p, Event::Timer, &build_lines(), 500_000_000);
    assert!(!fx.iter().any(|e| matches!(e, Effect::Respond { .. })));
    let fx = event_at(&mut p, Event::Timer, &build_lines(), 2_000_000_000);
    let (human, payload, unblock) = only_response(&fx);
    assert!(unblock);
    assert_eq!(human.as_deref(), Some("wait timed out"));
    match payload {
        Payload::Error(e) => assert_eq!(e.code, ErrorCode::Timeout),
        other => panic!("{other:?}"),
    }
    assert!(p.jobs.is_empty());
}

#[test]
fn wait_needs_a_pipe_to_wait_on() {
    let mut p = open_plugin();
    let m = PipeMessage { pipe_id: None, name: s("zellij-quill"), payload: Some(s("wait --pane build ready")), args: Vec::new() };
    let fx = pipe_with(&mut p, &m, &build_lines(), facts());
    assert!(fx.is_empty());
    assert!(p.jobs.is_empty());
}

#[test]
fn token_is_made_once_and_remembered() {
    let mut p = QuillPlugin::new();
    let fx = pipe(&mut p, "token", &host());
    let token = match only_response(&fx).1 {
        Payload::Token { token, created, source, export_command } => {
            assert!(*created);
            assert_eq!(*source, TokenSource::Generated);
            assert_eq!(token, "brave-otter-1700000000000");
            assert_eq!(export_command, "export ZELLIJ_QUILL_TOKEN='brave-otter-1700000000000'");
            token.clone()
        },
        other => panic!("{other:?}"),
    };
    let fx = pipe(&mut p, "token --json", &host());
    match only_response(&fx).1 {
        Payload::Token { token: again, created, .. } => {
            assert_eq!(again, &token);
            assert!(!created);
        },
        other => panic!("{other:?}"),
    }
    assert_eq!(error_code(&pipe(&mut p, "token --now", &host())), ErrorCode::InvalidArgs);
}

#[test]
fn token_from_the_session_environment() {
    let mut p = QuillPlugin::new();
    event_at(&mut p, Event::PermissionResult { granted: true }, &host(), 0);
    let mut h = host();
    h.session_token = Some(s("it's-mine"));
    let fx = pipe(&mut p, "token", &h);
    match only_response(&fx).1 {
        Payload::Token { token, source, export_command, .. } => {
            assert_eq!(token, "it's-mine");
            assert_eq!(*source, TokenSource::SessionEnv);
            assert_eq!(export_command, "export ZELLIJ_QUILL_TOKEN='it'\"'\"'s-mine'");
        },
        other => panic!("{other:?}"),
    }
}

#[test]
fn required_tokens_are_checked() {
    let mut p = QuillPlugin::new();
    p.load(&vec![(s("require_token"), s("yes")), (s("token"), s("secret")), (s("enable_pane_permissions"), s("off"))]);
    event_at(&mut p, Event::PaneUpdate(manifest()), &host(), 0);
    assert_eq!(error_code(&pipe(&mut p, "tail --pane build", &build_lines())), ErrorCode::Unauthorized);
    assert_eq!(error_code(&pipe(&mut p, "tail --pane build --token wrong", &build_lines())), ErrorCode::Unauthorized);
    let fx = pipe(&mut p, "tail --pane build --token secret", &build_lines());
    assert!(matches!(only_response(&fx).1, Payload::Tail { .. }));
}

#[test]
fn pane_access_waits_for_approval_then_runs() {
    let mut p = QuillPlugin::new();
    p.load(&Vec::new());
    assert!(p.enforce_pane_permissions);
    event_at(&mut p, Event::PaneUpdate(manifest()), &host(), 0);
    let mut h = build_lines();
    h.prompt_pane = Some(PaneId::Terminal(40));
    let m = PipeMessage {
        pipe_id: Some(s("pipe-7")),
        name: s("zellij-quill"),
        payload: Some(s("tail --pane build -n 1 --token agent")),
        args: vec![(s("ZELLIJ_PANE_ID"), s("7"))],
    };
    let fx = pipe_with(&mut p, &m, &h, facts());
    assert!(!fx.iter().any(|e| matches!(e, Effect::Respond { .. })));
    assert!(fx.iter().any(|e| matches!(e, Effect::BlockPipe { pipe_id } if pipe_id == "pipe-7")));
    assert!(fx.iter().any(|e| matches!(e, Effect::RenamePane { pane_id: PaneId::Terminal(40), name } if name == "quill-approval")));
    assert!(fx.iter().any(|e| matches!(e, Effect::WriteChars { pane_id: PaneId::Terminal(7), text }
        if text == "\n[quill permission]\nAccess to id:3 requested for token `agent`.\nApprove in the quill permission prompt.\n")));
    assert_eq!(p.pending_permission_requests.len(), 1);
    let request_id = p.pending_permission_requests[0].0.clone();
    assert!(request_id.starts_with("perm-1700000000000-"));
    let fx = event_at(
        &mut p,
        Event::CommandPaneExited {
            terminal_pane_id: 40,
            exit_code: Some(0),
            context: vec![(s("zellij_quill_permission_request_id"), request_id.clone())],
        },
        &h,
        0,
    );
    assert!(matches!(fx.last(), Some(Effect::CloseTerminalPane { id: 40 })));
    assert!(fx.iter().any(|e| matches!(e, Effect::WriteChars { pane_id: PaneId::Terminal(7), text }
        if text == "\n[quill permission]\nApproved token `agent` for id:3.\n")));
    assert!(fx.iter().any(|e| matches!(e, Effect::ContinueCommand { request_id: r } if r == &request_id)));
    assert!(p.pending_permission_requests.is_empty());
    let fx = event_at(&mut p, Event::Continue { request_id }, &h, 0);
    let (_, payload, unblock) = only_response(&fx);
    assert!(unblock);
    match payload {
        Payload::Tail { lines, .. } => assert_eq!(lines, &vec![s("line 10")]),
        other => panic!("{other:?}"),
    }
    let fx = pipe(&mut p, "tail --pane build -n 1 --token agent", &h);
    assert!(matches!(only_response(&fx).1, Payload::Tail { .. }));
}

#[test]
fn denied_approval_answers_the_waiting_command() {
    let mut p = QuillPlugin::new();
    p.load(&Vec::new());
    event_at(&mut p, Event::PaneUpdate(manifest()), &host(), 0);
    let mut h = build_lines();
    h.prompt_pane = Some(PaneId::Terminal(41));
    let m = PipeMessage {
        pipe_id: Some(s("pipe-1")),
        name: s("zellij-quill"),
        payload: Some(s("tail --pane build --token agent")),
        args: vec![(s("pane_id"), s("terminal_5"))],
    };
    pipe_with(&mut p, &m, &h, facts());
    let fx = event_at(
        &mut p,
        Event::CommandPaneExited { terminal_pane_id: 41, exit_code: Some(1), context: Vec::new() },
        &h,
        0,
    );
    let (_, payload, unblock) = only_response(&fx);
    assert!(unblock);
    match payload {
        Payload::Error(e) => assert_eq!(e.code, ErrorCode::PermissionDenied),
        other => panic!("{other:?}"),
    }
    assert!(fx.iter().any(|e| matches!(e, Effect::WriteChars { pane_id: PaneId::Terminal(5), text }
        if text == "\n[quill permission]\nDenied token `agent` for id:3.\n")));
    assert!(matches!(fx.last(), Some(Effect::CloseTerminalPane { id: 41 })));
    assert!(p.pending_permission_commands.is_empty());
    assert!(p.pending_permission_requests.is_empty());
}

#[test]
fn approval_prompt_that_cannot_open_is_reported() {
    let mut p = QuillPlugin::new();
    p.load(&Vec::new());
    event_at(&mut p, Event::PaneUpdate(manifest()), &host(), 0);
    let m = PipeMessage {
        pipe_id: Some(s("pipe-2")),
        name: s("zellij-quill"),
        payload: Some(s("tail --pane build --token agent")),
        args: vec![(s("ZELLIJ_PANE_ID"), s("id:9"))],
    };
    let fx = pipe_with(&mut p, &m, &build_lines(), facts());
    assert_eq!(error_code(&fx), ErrorCode::PermissionUnavailable);
    assert!(fx.iter().any(|e| matches!(e, Effect::WriteChars { pane_id: PaneId::Terminal(9), text }
        if text == "\n[quill permission]\nAccess to id:3 requested for token `agent`.\nCould not open the quill approval prompt pane.\n")));
    assert!(p.pending_permission_requests.is_empty());
    assert_eq!(error_code(&pipe(&mut p, "tail --pane build", &build_lines())), ErrorCode::Unauthorized);
}

#[test]
fn permit_lists_pending_requests_and_refuses_grants() {
    let mut p = QuillPlugin::new();
    p.load(&Vec::new());
    event_at(&mut p, Event::PaneUpdate(manifest()), &host(), 0);
    let mut h = build_lines();
    h.prompt_pane = Some(PaneId::Terminal(42));
    pipe(&mut p, "tail --pane build --token agent", &h);
    let fx = pipe(&mut p, "permit", &h);
    let (human, payload, _) = only_response(&fx);
    match payload {
        Payload::Permit { pending } => {
            assert_eq!(pending.len(), 1);
            assert_eq!(pending[0].token, "agent");
            assert_eq!(pending[0].pane_id, PaneId::Terminal(3));
        },
        other => panic!("{other:?}"),
    }
    assert_eq!(human.as_deref(), Some("pending permission requests: 1 (approve in quill UI)"));
    assert_eq!(error_code(&pipe(&mut p, "permit --grant", &h)), ErrorCode::PermitDisabled);
}

#[test]
fn panes_lists_sorted_rows_with_pids() {
    let mut p = open_plugin();
    let fx = pipe(&mut p, "panes --tab all --all", &host());
    let (human, payload, _) = only_response(&fx);
    match payload {
        Payload::Panes { focused_tab, panes } => {
            assert_eq!(*focused_tab, 0);
            let ids: Vec<(usize, u32)> = panes.iter().map(|r| (r.tab, r.id)).collect();
            assert_eq!(ids, vec![(0, 1), (0, 2), (0, 3), (1, 7)]);
            assert_eq!(panes[0].pid, Some(1001));
            assert_eq!(panes[1].pid, None);
        },
        other => panic!("{other:?}"),
    }
    let text = human.clone().unwrap();
    assert_eq!(text.lines().next(), Some("pane_id\ttab\tfocused\tkind\ttitle"));
    assert_eq!(text.lines().nth(1), Some("id:1\t0\tfalse\tterminal\tshell"));
    let fx = pipe(&mut p, "panes --columns id,title --match-title ^b", &host());
    assert_eq!(only_response(&fx).0.as_deref(), Some("id\ttitle\n3\tbuild"));
    assert_eq!(error_code(&pipe(&mut p, "panes --match-title (", &host())), ErrorCode::InvalidRegex);
    assert_eq!(error_code(&pipe(&mut p, "panes --tab x", &host())), ErrorCode::InvalidArgs);
}

#[test]
fn send_writes_text_keys_and_bytes() {
    let mut p = open_plugin();
    let mut h = host();
    h.args = Some(CommandArgs::Send(SendArgs {
        json: false,
        pane: Some(s("build")),
        no_newline: false,
        enter: true,
        keys: Some(s("<Tab>")),
        raw_bytes: Some(s("41")),
        token: None,
        text: vec![s("echo"), s("hi")],
    }));
    let fx = pipe(&mut p, "send --pane build --enter --keys <Tab> --raw-bytes 41 echo hi", &h);
    assert!(fx.iter().any(|e| matches!(e, Effect::WriteBytes { pane_id: PaneId::Terminal(3), bytes }
        if bytes == b"echo hi\n\tA\n")));
    assert_eq!(only_response(&fx).0.as_deref(), Some("sent to id:3"));
    h.args = Some(CommandArgs::Send(SendArgs {
        json: true,
        pane: Some(s("build")),
        no_newline: false,
        enter: false,
        keys: Some(s(" <c-C> ")),
        raw_bytes: None,
        token: None,
        text: Vec::new(),
    }));
    let fx = pipe(&mut p, "send", &h);
    assert!(fx.iter().any(|e| matches!(e, Effect::SendSigint { pane_id: PaneId::Terminal(3) })));
    assert!(!fx.iter().any(|e| matches!(e, Effect::WriteBytes { .. })));
}

#[test]
fn interrupt_sends_the_asked_signal() {
    let mut p = open_plugin();
    let mut h = host();
    h.args = Some(CommandArgs::Interrupt(InterruptArgs {
        json: false,
        pane: Some(s("build")),
        sigint: false,
        sigkill: true,
        token: None,
    }));
    let fx = pipe(&mut p, "interrupt", &h);
    assert!(fx.iter().any(|e| matches!(e, Effect::SendSigkill { pane_id: PaneId::Terminal(3) })));
    assert_eq!(only_response(&fx).0.as_deref(), Some("sent SIGKILL to id:3"));
}

#[test]
fn run_types_the_command_line() {
    let mut p = open_plugin();
    let mut h = build_lines();
    h.args = Some(CommandArgs::Run(RunArgs {
        json: false,
        pane: Some(s("build")),
        no_enter: false,
        wait: None,
        timeout: None,
        token: None,
        since: None,
        command: vec![s("make"), s("test")],
    }));
    let fx = pipe(&mut p, "run", &h);
    assert!(fx.iter().any(|e| matches!(e, Effect::WriteChars { pane_id: PaneId::Terminal(3), text } if text == "make test\n")));
    assert_eq!(only_response(&fx).0.as_deref(), Some("ran in id:3"));
    h.args = Some(CommandArgs::Run(RunArgs {
        json: false,
        pane: Some(s("build")),
        no_enter: true,
        wait: Some(s("done")),
        timeout: Some(s("5")),
        token: None,
        since: None,
        command: vec![s("make")],
    }));
    let fx = pipe(&mut p, "run", &h);
    assert!(matches!(fx.last(), Some(Effect::ScheduleTimer)));
    assert_eq!(p.jobs.len(), 1);
}

#[test]
fn exec_answers_with_the_command_output() {
    let mut p = QuillPlugin::new();
    let mut h = host();
    h.args = Some(CommandArgs::Exec(ExecArgs {
        json: true,
        cwd: None,
        env_vars: vec![(s("A"), s("1"))],
        timeout: s("60"),
        token: None,
        command: vec![s("ls"), s("-l")],
    }));
    let fx = pipe(&mut p, "exec", &h);
    let request_id = fx
        .iter()
        .find_map(|e| match e {
            Effect::RunCommand { command, cwd_env, request_id, .. } => {
                assert_eq!(command, &vec![s("ls"), s("-l")]);
                assert_eq!(cwd_env, &Some((s("."), vec![(s("A"), s("1"))])));
                Some(request_id.clone())
            },
            _ => None,
        })
        .unwrap();
    assert_eq!(request_id, "req-1700000000000-1");
    let fx = event_at(
        &mut p,
        Event::RunCommandResult {
            exit_code: Some(0),
            stdout: b"total 0\n".to_vec(),
            stderr: vec![0xff],
            context: vec![(s("zellij_quill_request_id"), request_id.clone())],
        },
        &h,
        0,
    );
    let (human, payload, unblock) = only_response(&fx);
    assert!(unblock);
    assert_eq!(human.as_deref(), Some("exec completed"));
    match payload {
        Payload::ExecDone { stdout, stderr, exit_code, .. } => {
            assert_eq!(stdout, "total 0\n");
            assert_eq!(stderr, "\u{fffd}");
            assert_eq!(*exit_code, Some(0));
        },
        other => panic!("{other:?}"),
    }
    assert!(p.jobs.is_empty());
    assert!(p.exec_jobs_by_request_id.is_empty());
}

#[test]
fn spawn_grants_the_creating_token() {
    let mut p = QuillPlugin::new();
    p.load(&vec![(s("enable_pane_permissions"), s("true"))]);
    event_at(&mut p, Event::PaneUpdate(manifest()), &host(), 0);
    let mut h = host();
    h.opened = Some(PaneId::Terminal(50));
    h.prompt_pane = Some(PaneId::Terminal(51));
    h.args = Some(CommandArgs::Spawn(SpawnArgs {
        json: false,
        kind: SpawnKind::Terminal,
        where_to: SpawnWhere::Floating,
        cwd: None,
        name: Some(s("worker")),
        wait: s("0"),
        token: Some(s("agent")),
        command: Vec::new(),
    }));
    let m = PipeMessage {
        pipe_id: Some(s("pipe-9")),
        name: s("zellij-quill"),
        payload: Some(s("spawn")),
        args: vec![(s("ZELLIJ_PANE_ID"), s("terminal_3"))],
    };
    let fx = pipe_with(&mut p, &m, &h, facts());
    assert!(!fx.iter().any(|e| matches!(e, Effect::Respond { .. })));
    let request_id = p.pending_permission_requests[0].0.clone();
    event_at(
        &mut p,
        Event::CommandPaneExited { terminal_pane_id: 51, exit_code: Some(0), context: Vec::new() },
        &h,
        0,
    );
    let fx = event_at(&mut p, Event::Continue { request_id }, &h, 0);
    assert!(fx.iter().any(|e| matches!(e, Effect::RenamePane { pane_id: PaneId::Terminal(50), name } if name == "worker")));
    assert_eq!(only_response(&fx).0.as_deref(), Some("spawned id:50"));
    let mut h2 = host();
    h2.args = Some(CommandArgs::Spawn(SpawnArgs {
        json: false,
        kind: SpawnKind::Terminal,
        where_to: SpawnWhere::Background,
        cwd: None,
        name: None,
        wait: s("0"),
        token: Some(s("agent")),
        command: Vec::new(),
    }));
    let fx = pipe_with(&mut p, &m, &h2, facts());
    assert_eq!(error_code(&fx), ErrorCode::InvalidArgs);
}

#[test]
fn spawned_pane_is_awaited() {
    let mut p = open_plugin();
    let mut h = host();
    h.opened = Some(PaneId::Terminal(60));
    h.args = Some(CommandArgs::Spawn(SpawnArgs {
        json: false,
        kind: SpawnKind::Command,
        where_to: SpawnWhere::Tiled,
        cwd: Some(s("/tmp")),
        name: None,
        wait: s("2"),
        token: None,
        command: vec![s("htop")],
    }));
    let fx = pipe(&mut p, "spawn", &h);
    assert!(matches!(fx.last(), Some(Effect::ScheduleTimer)));
    let mut m = manifest();
    m.tabs[0].panes.push(pane(60, "htop", false, false));
    let fx = event_at(&mut p, Event::PaneUpdate(m), &host(), 0);
    let (human, payload, unblock) = only_response(&fx);
    assert!(unblock);
    assert_eq!(human.as_deref(), Some("spawn completed"));
    assert!(matches!(payload, Payload::Spawned { pane_id: Some(PaneId::Terminal(60)), waited: true }));
    assert!(p.jobs.is_empty());
}

#[test]
fn closed_panes_leave_the_recent_list() {
    let mut p = open_plugin();
    assert_eq!(p.recent_terminal_panes[0], PaneId::Terminal(3));
    assert!(p.recent_terminal_panes.contains(&PaneId::Terminal(7)));
    event_at(&mut p, Event::PaneClosed(PaneId::Terminal(7)), &host(), 0);
    assert!(!p.recent_terminal_panes.contains(&PaneId::Terminal(7)));
    event_at(&mut p, Event::TabUpdate { tabs: vec![(0, false), (1, true)] }, &host(), 0);
    assert_eq!(p.focused_tab_index, Some(0));
    let mut m = manifest();
    m.tabs[0].panes[0].is_focused = true;
    event_at(&mut p, Event::PaneUpdate(m), &host(), 0);
    event_at(&mut p, Event::TabUpdate { tabs: vec![(0, false), (1, true)] }, &host(), 0);
    assert_eq!(p.focused_tab_index, Some(1));
    assert_eq!(p.focused_pane_id, Some(PaneId::Terminal(7)));
    assert_eq!(p.recent_terminal_panes[0], PaneId::Terminal(7));
}

#[test]
fn wait_job_answers_when_the_pane_matches_later() {
    let mut p = open_plugin();
    let fx = pipe(&mut p, "wait --pane build --timeout 10 --interval 0.5 \"line 12\"", &build_lines());
    assert!(!fx.iter().any(|e| matches!(e, Effect::Respond { .. })));
    assert_eq!(p.jobs.len(), 1);
    let mut more = host();
    let lines: Vec<String> = (1..=12).map(|i| format!("line {i}")).collect();
    more.lines.push((PaneId::Terminal(3), lines, 9, 3));
    let fx = event_at(&mut p, Event::Timer, &more, 1_000 + 600_000_000);
    let (human, payload, unblock) = only_response(&fx);
    assert!(unblock);
    assert_eq!(human.as_deref(), Some("match found"));
    match payload {
        Payload::WaitMatched { pane_id, lines } => {
            assert_eq!(*pane_id, PaneId::Terminal(3));
            assert_eq!(lines, &vec![s("line 12")]);
        },
        other => panic!("{other:?}"),
    }
    assert!(p.jobs.is_empty());
}

#[test]
fn flag_errors_name_the_flag_or_the_command() {
    let mut p = open_plugin();
    let message = |fx: &[Effect]| match only_response(fx).1 {
        Payload::Error(e) => e.message.clone(),
        other => panic!("{other:?}"),
    };
    assert_eq!(message(&pipe(&mut p, "tail --pane build --bogus", &build_lines())), "Unknown flag for tail/read: --bogus");
    assert_eq!(message(&pipe(&mut p, "tail --pane", &build_lines())), "Missing value for --pane");
    assert_eq!(message(&pipe(&mut p, "grep a b --pane build", &build_lines())), "grep takes a single pattern argument");
    assert_eq!(message(&pipe(&mut p, "since a b", &build_lines())), "since accepts at most one token");
}

#[test]
fn pane_lookup_errors_say_what_went_wrong() {
    let message = |fx: &[Effect]| match only_response(fx).1 {
        Payload::Error(e) => (e.code, e.message.clone()),
        other => panic!("{other:?}"),
    };
    let mut fresh = QuillPlugin::new();
    assert_eq!(
        message(&pipe(&mut fresh, "tail --pane build", &host())),
        (ErrorCode::NoPaneState, s("Pane state is not available yet"))
    );
    let mut p = open_plugin();
    assert_eq!(
        message(&pipe(&mut p, "tail --pane \" nowhere \"", &host())),
        (ErrorCode::PaneNotFound, s("No terminal pane named `nowhere`"))
    );
    assert_eq!(
        message(&pipe(&mut p, "tail --pane \"  \"", &host())),
        (ErrorCode::InvalidArgs, s("Pane name cannot be empty"))
    );
    let mut q = QuillPlugin::new();
    q.load(&vec![(s("enable_pane_permissions"), s("0"))]);
    let m = PaneManifest {
        tabs: vec![TabPanes { position: 0, panes: vec![pane(1, "twin", true, false), pane(2, "twin", false, false)] }],
    };
    event_at(&mut q, Event::PaneUpdate(m), &host(), 0);
    assert_eq!(
        message(&pipe(&mut q, "tail --pane twin", &host())),
        (ErrorCode::AmbiguousPaneName, s("More than one terminal pane is named `twin`"))
    );
}

#[test]
fn a_second_mark_keeps_the_first() {
    let mut p = open_plugin();
    pipe(&mut p, "mark --pane build", &build_lines());
    pipe(&mut p, "mark --pane build", &build_lines());
    assert_eq!(p.marks.len(), 2);
    assert_eq!(p.marks[0].0, "mark-1700000000000-1");
    assert_eq!(p.marks[1].0, "mark-1700000000000-2");
    let fx = pipe(&mut p, "since mark-1700000000000-1", &build_lines());
    assert!(matches!(only_response(&fx).1, Payload::Since { .. }));
}

#[test]
fn run_wait_without_a_pipe_writes_nothing() {
    let mut p = open_plugin();
    let mut h = build_lines();
    h.args = Some(CommandArgs::Run(RunArgs {
        json: false,
        pane: Some(s("build")),
        no_enter: false,
        wait: Some(s("ready")),
        timeout: None,
        token: None,
        since: None,
        command: vec![s("make")],
    }));
    let m = PipeMessage { pipe_id: None, name: s("zellij-quill"), payload: Some(s("run")), args: Vec::new() };
    let fx = pipe_with(&mut p, &m, &h, facts());
    assert!(!fx.iter().any(|e| matches!(e, Effect::WriteChars { .. })));
    assert!(p.jobs.is_empty());
}
