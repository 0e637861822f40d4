//! Scrollback marks, tokens and help: `mark`, `since`, `token`, `help`.
use super::super::pane::{env_token, pane_lines_of, resolve_message, resolved, scrollback_for};
use super::super::permissions::{access_frame, lemma_approval_asked_same, opt_view};
use super::super::state::bumped;
use super::super::{QuillPlugin, SESSION_TOKEN_ENV_VAR};
use super::{access_granted, access_refused, human_text, human_view, kept, left_alone};
use crate::error::{ApiError, ApiResult, ErrorCode};
use crate::flags::{
    flags_read, last_value, read_flags, scan_error_code, scan_message_fits, switch_at, text_at,
    FlagDef, Positionals, ValueKind,
};
use crate::host::{extends, Effect, Flow, HostFacts, HostRequest};
use crate::response::{CommandOutcome, Payload, TokenSource};
use crate::table::{has_key, insert, lookup, position};
use crate::text::{
    ascii_lower, ascii_lower_chars, chars_of, dec, decimal, is_digit, join, join_strings,
    lemma_dec_digits, replace_char, replace_chars, string_of, strs,
};
use crate::types::ScrollbackMark;
use vstd::prelude::*;

verus! {

/// The flags of `mark`.
pub open spec fn mark_defs() -> Seq<FlagDef> {
    seq![
        FlagDef { long: "--json", short: None, kind: ValueKind::Switch },
        FlagDef { long: "--pane", short: None, kind: ValueKind::Text },
        FlagDef { long: "--token", short: None, kind: ValueKind::Text },
    ]
}

fn mark_flags() -> (r: Vec<FlagDef>)
    ensures
        r@ == mark_defs(),
{
    let mut v: Vec<FlagDef> = Vec::new();
    v.push(FlagDef { long: "--json", short: None, kind: ValueKind::Switch });
    v.push(FlagDef { long: "--pane", short: None, kind: ValueKind::Text });
    v.push(FlagDef { long: "--token", short: None, kind: ValueKind::Text });
    assert(v@ =~= mark_defs());
    v
}

/// The flags of `since`; a positional mark token fills `--token`'s slot.
pub open spec fn since_defs() -> Seq<FlagDef> {
    seq![
        FlagDef { long: "--json", short: None, kind: ValueKind::Switch },
        FlagDef { long: "--token", short: None, kind: ValueKind::Text },
        FlagDef { long: "--auth-token", short: None, kind: ValueKind::Text },
    ]
}

fn since_flags() -> (r: Vec<FlagDef>)
    ensures
        r@ == since_defs(),
{
    let mut v: Vec<FlagDef> = Vec::new();
    v.push(FlagDef { long: "--json", short: None, kind: ValueKind::Switch });
    v.push(FlagDef { long: "--token", short: None, kind: ValueKind::Text });
    v.push(FlagDef { long: "--auth-token", short: None, kind: ValueKind::Text });
    assert(v@ =~= since_defs());
    v
}

/// The flags of `token` and `permit`: `--json` alone.
pub open spec fn json_defs() -> Seq<FlagDef> {
    seq![FlagDef { long: "--json", short: None, kind: ValueKind::Switch }]
}

pub fn json_flags() -> (r: Vec<FlagDef>)
    ensures
        r@ == json_defs(),
{
    let mut v: Vec<FlagDef> = Vec::new();
    v.push(FlagDef { long: "--json", short: None, kind: ValueKind::Switch });
    assert(v@ =~= json_defs());
    v
}

/// A text quoted for a POSIX shell: in single quotes, each single quote
/// written as `'"'"'`.
pub open spec fn single_quoted(v: Seq<char>) -> Seq<char> {
    "'"@ + replace_char(v, '\'', "'\"'\"'"@) + "'"@
}

pub fn shell_single_quote(value: &str) -> (r: String)
    ensures
        r@ == single_quoted(value@),
{
    let c = chars_of(value);
    let body = replace_chars(&c, '\'', "'\"'\"'");
    let mut s = String::from_str("'");
    let b = string_of(&body);
    s.append(b.as_str());
    s.append("'");
    s
}

/// What `since` reports of a mark: the lines after it that are still
/// there, and whether the pane now has fewer lines than it had.
pub open spec fn since_report(line_count_at_mark: nat, current: nat) -> (nat, bool) {
    let kept = if line_count_at_mark <= current {
        line_count_at_mark
    } else {
        current
    };
    ((current - kept) as nat, line_count_at_mark > current)
}

/// `since` counts no more lines than the pane has, and none when the pane
/// has fewer lines than at the mark.
pub proof fn since_counts_within_the_pane(line_count_at_mark: nat, current: nat)
    ensures
        since_report(line_count_at_mark, current).0 <= current,
        since_report(line_count_at_mark, current).1 ==> since_report(line_count_at_mark, current).0 == 0,
        !since_report(line_count_at_mark, current).1 ==> since_report(line_count_at_mark, current).0
            + line_count_at_mark == current,
{
}

/// A token `token` made is remembered: the next `token` reports it again,
/// unless the session's environment has one of its own.
pub proof fn token_is_remembered(s: QuillPlugin, facts: HostFacts, t: String)
    requires
        s.token_from_session_env == Some(t),
        s.session_env_permission_granted ==> (facts.session_token matches Some(v) && env_token(v) is None),
    ensures
        known_token(s, facts) matches Some(Some((x, _))) && x == t@,
{
}

/// The command names `help` lists.
pub open spec fn command_names() -> Seq<Seq<char>> {
    seq![
        "panes"@,
        "send"@,
        "run"@,
        "tail"@,
        "read"@,
        "grep"@,
        "wait"@,
        "exec"@,
        "spawn"@,
        "interrupt"@,
        "mark"@,
        "since"@,
        "token"@,
        "permit"@,
        "help"@,
    ]
}

/// A mark of a pane keeps the line count it was made with: `since` on the
/// pane finds it.
pub proof fn mark_then_since(s: QuillPlugin, token: Seq<char>, m: ScrollbackMark)
    requires
        lookup(s.marks@, token) == Some(m),
    ensures
        super::super::pane::since_count(s, token, m.pane_id) == Some(m.line_count),
{
}

/// Every mark's token was made by the mark counter: `mark-`, a time in
/// milliseconds, `-` and a number from one up to the counter.
pub open spec fn mark_tokens_issued(s: QuillPlugin) -> bool {
    forall|k: Seq<char>|
        #[trigger] has_key(s.marks@, k) ==> exists|ms: nat, n: nat|
            1 <= n <= s.next_mark_id && k == "mark-"@ + dec(ms) + "-"@ + dec(n)
}

/// Two mark tokens that read the same were made with the same number.
pub proof fn lemma_mark_token_number(a: nat, n: nat, b: nat, m: nat)
    requires
        "mark-"@ + dec(a) + "-"@ + dec(n) == "mark-"@ + dec(b) + "-"@ + dec(m),
    ensures
        n == m,
{
    reveal_strlit("mark-");
    reveal_strlit("-");
    lemma_dec_digits(a);
    lemma_dec_digits(b);
    lemma_dec_digits(n);
    lemma_dec_digits(m);
    let x = "mark-"@ + dec(a) + "-"@;
    let y = "mark-"@ + dec(b) + "-"@;
    let w = x + dec(n);
    assert(w =~= y + dec(m));
    if x.len() == y.len() {
        assert(dec(n) =~= w.subrange(x.len() as int, w.len() as int));
        assert(dec(m) =~= w.subrange(x.len() as int, w.len() as int));
    } else if x.len() < y.len() {
        let i = x.len() - 1;
        assert(w[i] == x[i]);
        assert(x[i] == '-');
        assert(w[i] == y[i]);
        assert(y[i] == dec(b)[i - 5]);
        assert(is_digit(dec(b)[i - 5]));
    } else {
        let i = y.len() - 1;
        assert(w[i] == y[i]);
        assert(y[i] == '-');
        assert(w[i] == x[i]);
        assert(x[i] == dec(a)[i - 5]);
        assert(is_digit(dec(a)[i - 5]));
    }
}

/// A mark made under the counter's next number takes a token no mark had,
/// and every token is still one the counter made.
pub proof fn lemma_mark_token_fresh(s: QuillPlugin, f: QuillPlugin, ms: nat, token: Seq<char>)
    requires
        mark_tokens_issued(s),
        s.next_mark_id < u64::MAX,
        f.next_mark_id == s.next_mark_id + 1,
        token == "mark-"@ + dec(ms) + "-"@ + dec(f.next_mark_id as nat),
        forall|k: Seq<char>| #[trigger] has_key(f.marks@, k) == (k == token || has_key(s.marks@, k)),
    ensures
        !has_key(s.marks@, token),
        mark_tokens_issued(f),
{
    if has_key(s.marks@, token) {
        let (a, n) = choose|a: nat, n: nat| 1 <= n <= s.next_mark_id && token == "mark-"@ + dec(a) + "-"@ + dec(n);
        lemma_mark_token_number(a, n, ms, f.next_mark_id as nat);
    }
    assert forall|k: Seq<char>| #[trigger] has_key(f.marks@, k) implies exists|a: nat, n: nat|
        1 <= n <= f.next_mark_id && k == "mark-"@ + dec(a) + "-"@ + dec(n) by {
        if k == token {
            assert(1 <= f.next_mark_id as nat <= f.next_mark_id && k == "mark-"@ + dec(ms) + "-"@ + dec(f.next_mark_id as nat));
        } else {
            assert(has_key(s.marks@, k));
            let (a, n) = choose|a: nat, n: nat| 1 <= n <= s.next_mark_id && k == "mark-"@ + dec(a) + "-"@ + dec(n);
            assert(1 <= n <= f.next_mark_id && k == "mark-"@ + dec(a) + "-"@ + dec(n));
        }
    }
}

/// What `mark` does: remembers how many lines a pane has now, under a new
/// token, and changes nothing else.
pub open spec fn mark_outcome(
    before: QuillPlugin,
    after: QuillPlugin,
    args: Vec<String>,
    facts: HostFacts,
    f0: Seq<Effect>,
    f1: Seq<Effect>,
    r: Flow<ApiResult<CommandOutcome>>,
) -> bool {
    &&& after.pending_permission_commands == before.pending_permission_commands
    &&& after.current_pipe_origin_pane_id == before.current_pipe_origin_pane_id
    &&& extends(f0, f1)
    &&& after.token_pane_permissions == before.token_pane_permissions
    &&& after.jobs == before.jobs
    &&& !(r matches Flow::Ready(Ok(_))) ==> after.marks == before.marks
    &&& match flags_read(args@, mark_defs(), Positionals::Forbidden) {
        Err(e) => r matches Flow::Ready(Err(x)) && x.code == scan_error_code(e)
            && scan_message_fits(e, x.message@, "mark"@, ""@) && left_alone(before, after, facts, f0, f1),
        Ok(raw) => match last_value(raw, 1) {
            None => r matches Flow::Ready(Err(x)) && x.code == ErrorCode::InvalidArgs && x.message@
            == "mark requires --pane <name>"@ && left_alone(before, after, facts, f0, f1),
            Some(name) => match resolved(before, name) {
                Err(c) => r matches Flow::Ready(Err(x)) && x.code == c
                    && x.message@ == resolve_message(name, c) && left_alone(before, after, facts, f0, f1),
                Ok(p) => if !access_granted(before, facts, last_value(raw, 2), p) {
                    access_refused(before, after, facts, last_value(raw, 2), p, f0, f1, r)
                } else {
                    match scrollback_for(facts.scrollbacks@, p) {
                        None => r matches Flow::Need(HostRequest::Scrollback { pane_id })
                            && pane_id == p && left_alone(before, after, facts, f0, f1),
                        Some(Err(_)) => r matches Flow::Ready(Err(x)) && x.code
                            == ErrorCode::ScrollbackError && left_alone(before, after, facts, f0, f1),
                        Some(Ok(c)) => {
                            let n = pane_lines_of(c, true).len();
                            let json_only = last_value(raw, 0) is Some;
                            r matches Flow::Ready(
                                Ok(
                                    CommandOutcome::Immediate {
                                        json_only: j,
                                        human: h,
                                        payload: Payload::Mark {
                                            token,
                                            pane_id,
                                            line_count,
                                            created_at_ms,
                                        },
                                    },
                                ),
                            ) && j == json_only && pane_id == p && line_count == n && f1 == f0
                                && kept(
                                before,
                                QuillPlugin { marks: before.marks, next_mark_id: before.next_mark_id, ..after },
                                facts,
                            ) && (forall|k: Seq<char>|
                                k != token@ ==> #[trigger] lookup(after.marks@, k) == lookup(before.marks@, k))
                                && (forall|k: Seq<char>|
                                #[trigger] has_key(after.marks@, k) == (k == token@ || has_key(before.marks@, k)))
                                && (!has_key(before.marks@, token@) ==> after.marks@ == before.marks@.push(
                                (token, ScrollbackMark { token, pane_id: p, line_count: n as usize, created_at_ms }),
                            )) && (mark_tokens_issued(before) && before.next_mark_id < u64::MAX ==> !has_key(
                                before.marks@,
                                token@,
                            ) && mark_tokens_issued(after))
                                && human_view(h) == human_text(json_only, token@)
                                && after.next_mark_id == bumped(before.next_mark_id)
                                && token@ == "mark-"@ + dec(facts.unix_ms as nat) + "-"@ + dec(
                                    after.next_mark_id as nat,
                                ) && created_at_ms == facts.unix_ms && lookup(after.marks@, token@) == Some(
                                ScrollbackMark {
                                    token,
                                    pane_id: p,
                                    line_count: n as usize,
                                    created_at_ms,
                                },
                            )
                        },
                    }
                },
            },
        },
    }
}

/// The token `mark` answers with names the mark afterwards: `since` and
/// `tail --since` on the marked pane count from the line count it reported,
/// and every earlier mark is still there.
pub proof fn mark_is_found_again(
    before: QuillPlugin,
    after: QuillPlugin,
    args: Vec<String>,
    facts: HostFacts,
    f0: Seq<Effect>,
    f1: Seq<Effect>,
    r: Flow<ApiResult<CommandOutcome>>,
)
    requires
        mark_outcome(before, after, args, facts, f0, f1, r),
        r matches Flow::Ready(Ok(CommandOutcome::Immediate { payload: Payload::Mark { .. }, .. })),
    ensures
        r matches Flow::Ready(Ok(CommandOutcome::Immediate { payload: Payload::Mark { token, pane_id, line_count, .. }, .. }))
            && super::super::pane::since_count(after, token@, pane_id) == Some(line_count),
        forall|k: Seq<char>| #[trigger] has_key(before.marks@, k) ==> has_key(after.marks@, k),
{
}

/// What `since` does: how many lines a pane gained after a mark.
pub open spec fn since_outcome(
    before: QuillPlugin,
    after: QuillPlugin,
    args: Vec<String>,
    facts: HostFacts,
    f0: Seq<Effect>,
    f1: Seq<Effect>,
    r: Flow<ApiResult<CommandOutcome>>,
) -> bool {
    &&& access_frame(before, after)
    &&& extends(f0, f1)
    &&& match flags_read(args@, since_defs(), Positionals::Any(1)) {
        Err(e) => r matches Flow::Ready(Err(x)) && x.code == scan_error_code(e)
            && scan_message_fits(e, x.message@, "since"@, "since accepts at most one token"@),
        Ok(raw) => match last_value(raw, 1) {
            None => r matches Flow::Ready(Err(x)) && x.code == ErrorCode::InvalidArgs && x.message@
            == "since requires a token"@,
            Some(t) => match lookup(before.marks@, t) {
                None => r matches Flow::Ready(Err(x)) && x.code == ErrorCode::InvalidMark
                    && x.message@ == "Unknown mark token"@,
                Some(m) => if !access_granted(
                    before,
                    facts,
                    last_value(raw, 2),
                    m.pane_id,
                ) {
                    access_refused(before, after, facts, last_value(raw, 2), m.pane_id, f0, f1, r)
                } else {
                    match scrollback_for(facts.scrollbacks@, m.pane_id) {
                        None => r matches Flow::Need(HostRequest::Scrollback { pane_id })
                            && pane_id == m.pane_id,
                        Some(Err(_)) => r matches Flow::Ready(Err(x)) && x.code
                            == ErrorCode::ScrollbackError,
                        Some(Ok(c)) => {
                            let current = pane_lines_of(c, true).len();
                            let (available, truncated) = since_report(
                                m.line_count as nat,
                                current,
                            );
                            let json_only = last_value(raw, 0) is Some;
                            r matches Flow::Ready(
                                Ok(
                                    CommandOutcome::Immediate {
                                        json_only: j,
                                        human: h,
                                        payload: Payload::Since {
                                            token,
                                            pane_id,
                                            line_count_at_mark,
                                            current_line_count,
                                            available_since,
                                            truncated: tr,
                                        },
                                    },
                                ),
                            ) && j == json_only && token == m.token && pane_id == m.pane_id
                                && line_count_at_mark == m.line_count && current_line_count
                                == current && available_since == available && tr
                                == truncated && human_view(h) == human_text(
                                json_only,
                                dec(available) + " lines since "@ + m.token@,
                            )
                        },
                    }
                },
            },
        },
    }
}

impl QuillPlugin {
    /// `mark`: remembers how many lines a pane has now, under a fresh token.
    #[verifier::rlimit(50)]
    #[verifier::spinoff_prover]
    pub fn cmd_mark(&mut self, args: &Vec<String>, facts: &HostFacts, fx: &mut Vec<Effect>) -> (r: Flow<
        ApiResult<CommandOutcome>,
    >)
        requires
            old(self).wf(),
        ensures
            final(self).wf(),
            mark_outcome(
                *old(self),
                *final(self),
                *args,
                *facts,
                old(fx)@,
                final(fx)@,
                r,
            ),
    {
        let defs = mark_flags();
        let hits = match read_flags(args, &defs, Positionals::Forbidden, "mark", "") {
            Ok(h) => h,
            Err(e) => {
                return Flow::Ready(Err(e));
            },
        };
        let ghost raw = flags_read(args@, defs@, Positionals::Forbidden)->Ok_0;
        let json_only = switch_at(&hits, 0, Ghost(raw));
        let pane = text_at(&hits, 1, Ghost(defs@), Ghost(raw));
        let token = text_at(&hits, 2, Ghost(defs@), Ghost(raw));
        let pane_name = match pane {
            Some(p) => p,
            None => {
                return Flow::Ready(
                    Err(ApiError::with_text(ErrorCode::InvalidArgs, "mark requires --pane <name>")),
                );
            },
        };
        let pane_id = match self.resolve_pane_name(pane_name.as_str()) {
            Ok(p) => p,
            Err(e) => {
                return Flow::Ready(Err(e));
            },
        };
        let tok: Option<&str> = match &token {
            Some(t) => Some(t.as_str()),
            None => None,
        };
        assert(opt_view(tok) == last_value(raw, 2));
        let ghost access_from = *self;
        let ghost access_fx = fx@;
        let access = self.ensure_token_can_access_pane(tok, pane_id, facts, fx);
        let ghost access_result = access;
        match access {
            Flow::Need(n) => {
                proof {
                    lemma_approval_asked_same(access_from, *self, *facts, opt_view(tok), pane_id, access_fx, fx@, access_result, Flow::<ApiResult<CommandOutcome>>::Need(n));
                }
                return Flow::Need(n);
            },
            Flow::Ready(Err(e)) => {
                proof {
                    lemma_approval_asked_same(access_from, *self, *facts, opt_view(tok), pane_id, access_fx, fx@, access_result, Flow::<ApiResult<CommandOutcome>>::Ready(Err(e)));
                }
                return Flow::Ready(Err(e));
            },
            Flow::Ready(Ok(_)) => {},
        }
        let pl = match self.read_pane_lines(pane_id, true, facts) {
            Flow::Need(n) => {
                return Flow::Need(n);
            },
            Flow::Ready(Err(e)) => {
                return Flow::Ready(Err(e));
            },
            Flow::Ready(Ok(l)) => l,
        };
        let ghost mid = *self;
        assert(kept(*old(self), mid, *facts));
        let mark_token = self.next_mark_token(facts.unix_ms);
        let created_at_ms = facts.unix_ms;
        let line_count = pl.all.len();
        let mark = ScrollbackMark {
            token: mark_token.clone(),
            pane_id,
            line_count,
            created_at_ms,
        };
        insert(&mut self.marks, mark_token.clone(), mark);
        proof {
            assert(QuillPlugin { marks: old(self).marks, next_mark_id: old(self).next_mark_id, ..*self } == mid);
            if mark_tokens_issued(*old(self)) && old(self).next_mark_id < u64::MAX {
                lemma_mark_token_fresh(*old(self), *self, facts.unix_ms as nat, mark_token@);
            }
        }
        let human = if json_only {
            None
        } else {
            Some(mark_token.clone())
        };
        Flow::Ready(
            Ok(
                CommandOutcome::Immediate {
                    json_only,
                    human,
                    payload: Payload::Mark { token: mark_token, pane_id, line_count, created_at_ms },
                },
            ),
        )
    }

    /// `since`: how many lines a pane gained since a mark.
    #[verifier::rlimit(50)]
    #[verifier::spinoff_prover]
    pub fn cmd_since(&mut self, args: &Vec<String>, facts: &HostFacts, fx: &mut Vec<Effect>) -> (r: Flow<
        ApiResult<CommandOutcome>,
    >)
        requires
            old(self).wf(),
        ensures
            since_outcome(
                *old(self),
                *final(self),
                *args,
                *facts,
                old(fx)@,
                final(fx)@,
                r,
            ),
    {
        let defs = since_flags();
        let hits = match read_flags(
            args,
            &defs,
            Positionals::Any(1),
            "since",
            "since accepts at most one token",
        ) {
            Ok(h) => h,
            Err(e) => {
                return Flow::Ready(Err(e));
            },
        };
        let ghost raw = flags_read(args@, defs@, Positionals::Any(1))->Ok_0;
        let json_only = switch_at(&hits, 0, Ghost(raw));
        let mark_token = text_at(&hits, 1, Ghost(defs@), Ghost(raw));
        let auth = text_at(&hits, 2, Ghost(defs@), Ghost(raw));
        let t = match mark_token {
            Some(t) => t,
            None => {
                return Flow::Ready(
                    Err(ApiError::with_text(ErrorCode::InvalidArgs, "since requires a token")),
                );
            },
        };
        let mark = match position(&self.marks, &t) {
            Some(i) => {
                let m = &self.marks[i].1;
                ScrollbackMark {
                    token: m.token.clone(),
                    pane_id: m.pane_id,
                    line_count: m.line_count,
                    created_at_ms: m.created_at_ms,
                }
            },
            None => {
                return Flow::Ready(
                    Err(
                        ApiError::with_text(ErrorCode::InvalidMark, "Unknown mark token").hint(
                            "Create one with `mark --pane ...` and pass it to --since.",
                        ),
                    ),
                );
            },
        };
        let tok: Option<&str> = match &auth {
            Some(t) => Some(t.as_str()),
            None => None,
        };
        assert(opt_view(tok) == last_value(raw, 2));
        let ghost access_from = *self;
        let ghost access_fx = fx@;
        let access = self.ensure_token_can_access_pane(tok, mark.pane_id, facts, fx);
        let ghost access_result = access;
        match access {
            Flow::Need(n) => {
                proof {
                    lemma_approval_asked_same(access_from, *self, *facts, opt_view(tok), mark.pane_id, access_fx, fx@, access_result, Flow::<ApiResult<CommandOutcome>>::Need(n));
                }
                return Flow::Need(n);
            },
            Flow::Ready(Err(e)) => {
                proof {
                    lemma_approval_asked_same(access_from, *self, *facts, opt_view(tok), mark.pane_id, access_fx, fx@, access_result, Flow::<ApiResult<CommandOutcome>>::Ready(Err(e)));
                }
                return Flow::Ready(Err(e));
            },
            Flow::Ready(Ok(_)) => {},
        }
        let pl = match self.read_pane_lines(mark.pane_id, true, facts) {
            Flow::Need(n) => {
                return Flow::Need(n);
            },
            Flow::Ready(Err(e)) => {
                return Flow::Ready(Err(e));
            },
            Flow::Ready(Ok(l)) => l,
        };
        let current = pl.all.len();
        let truncated = mark.line_count > current;
        let kept = if mark.line_count <= current {
            mark.line_count
        } else {
            current
        };
        let available = current - kept;
        let human = if json_only {
            None
        } else {
            let mut s = decimal(available as u128);
            s.append(" lines since ");
            s.append(mark.token.as_str());
            Some(s)
        };
        Flow::Ready(
            Ok(
                CommandOutcome::Immediate {
                    json_only,
                    human,
                    payload: Payload::Since {
                        token: mark.token,
                        pane_id: mark.pane_id,
                        line_count_at_mark: mark.line_count,
                        current_line_count: current,
                        available_since: available,
                        truncated,
                    },
                },
            ),
        )
    }

    /// `help`: the commands there are.
    pub fn help_response(&self, json_only: bool) -> (r: CommandOutcome)
        ensures
            r matches CommandOutcome::Immediate {
                json_only: j,
                human: h,
                payload: Payload::Help { commands },
            } && j == json_only && strs(commands@) == command_names() && human_view(h)
                == human_text(json_only, "commands: "@ + join(command_names(), ", "@)),
    {
        let mut commands: Vec<String> = Vec::new();
        commands.push(String::from_str("panes"));
        commands.push(String::from_str("send"));
        commands.push(String::from_str("run"));
        commands.push(String::from_str("tail"));
        commands.push(String::from_str("read"));
        commands.push(String::from_str("grep"));
        commands.push(String::from_str("wait"));
        commands.push(String::from_str("exec"));
        commands.push(String::from_str("spawn"));
        commands.push(String::from_str("interrupt"));
        commands.push(String::from_str("mark"));
        commands.push(String::from_str("since"));
        commands.push(String::from_str("token"));
        commands.push(String::from_str("permit"));
        commands.push(String::from_str("help"));
        assert(strs(commands@) =~= command_names());
        let human = if json_only {
            None
        } else {
            let mut s = String::from_str("commands: ");
            let j = join_strings(&commands, ", ");
            s.append(j.as_str());
            Some(s)
        };
        CommandOutcome::Immediate { json_only, human, payload: Payload::Help { commands } }
    }
}

/// The token `token` reports before it would make one: the session's (or,
/// when the plugin may not read the session's environment, the one read
/// before) and where it came from; `None` when the environment has to be
/// read first, `Some(None)` when a token has to be made.
pub open spec fn known_token(s: QuillPlugin, facts: HostFacts) -> Option<Option<(Seq<char>, TokenSource)>> {
    let first = if !s.session_env_permission_granted {
        Some(s.token_from_session_env)
    } else {
        match facts.session_token {
            None => None,
            Some(v) => Some(env_token(v)),
        }
    };
    match first {
        None => None,
        Some(Some(t)) => Some(Some((t@, TokenSource::SessionEnv))),
        Some(None) => match s.token_from_session_env {
            Some(t) => Some(Some((t@, TokenSource::PluginCache))),
            None => Some(None),
        },
    }
}

/// What `token` does: reports the access token, making one when there is none.
pub open spec fn token_outcome(
    before: QuillPlugin,
    after: QuillPlugin,
    args: Vec<String>,
    facts: HostFacts,
    r: Flow<ApiResult<CommandOutcome>>,
) -> bool {
    &&& after == (QuillPlugin {
        token_from_session_env: after.token_from_session_env,
        ..before
    })
    &&& match flags_read(args@, json_defs(), Positionals::Forbidden) {
        Err(e) => r matches Flow::Ready(Err(x)) && x.code == scan_error_code(e)
            && scan_message_fits(e, x.message@, "token"@, ""@) && after == before,
        Ok(raw) => match known_token(before, facts) {
            None => r matches Flow::Need(HostRequest::SessionEnv) && after == before,
            Some(None) if facts.random_name is None => r matches Flow::Need(HostRequest::RandomName)
                && after == before,
            Some(k) => {
                let json_only = last_value(raw, 0) is Some;
                r matches Flow::Ready(
                    Ok(
                        CommandOutcome::Immediate {
                            json_only: j,
                            human: h,
                            payload: Payload::Token { token, created, source, export_command },
                        },
                    ),
                ) && j == json_only && human_view(h) == human_text(json_only, token@)
                    && export_command@ == "export "@ + SESSION_TOKEN_ENV_VAR@ + "="@
                    + single_quoted(token@) && match k {
                    Some((t, src)) => token@ == t && !created && source == src,
                    None => created && source == TokenSource::Generated && token@ == ascii_lower(facts.random_name->0@) + "-"@ + dec(facts.unix_ms as nat)
                        && after.token_from_session_env == Some(token),
                }
            },
        },
    }
}

impl QuillPlugin {
    /// `token`: the access token to use, made (from a random name and the
    /// time) and remembered when there is none yet.
    #[verifier::rlimit(50)]
    #[verifier::spinoff_prover]
    pub fn cmd_token(&mut self, args: &Vec<String>, facts: &HostFacts) -> (r: Flow<
        ApiResult<CommandOutcome>,
    >)
        requires
            old(self).wf(),
        ensures
            final(self).wf(),
            token_outcome(
                *old(self),
                *final(self),
                *args,
                *facts,
                r,
            ),
    {
        let defs = json_flags();
        let hits = match read_flags(args, &defs, Positionals::Forbidden, "token", "") {
            Ok(h) => h,
            Err(e) => {
                return Flow::Ready(Err(e));
            },
        };
        let ghost raw = flags_read(args@, defs@, Positionals::Forbidden)->Ok_0;
        let json_only = switch_at(&hits, 0, Ghost(raw));
        let env = match self.session_env_token(facts) {
            Flow::Need(n) => {
                return Flow::Need(n);
            },
            Flow::Ready(t) => t,
        };
        let (token, created, source) = match env {
            Some(t) => (t, false, TokenSource::SessionEnv),
            None => match &self.token_from_session_env {
                Some(t) => (t.clone(), false, TokenSource::PluginCache),
                None => {
                    let random = match &facts.random_name {
                        Some(n) => n,
                        None => {
                            return Flow::Need(HostRequest::RandomName);
                        },
                    };
                    let name = chars_of(random.as_str());
                    let lowered = ascii_lower_chars(&name);
                    let mut t = string_of(&lowered);
                    t.append("-");
                    let ms = decimal(facts.unix_ms);
                    t.append(ms.as_str());
                    self.token_from_session_env = Some(t.clone());
                    (t, true, TokenSource::Generated)
                },
            },
        };
        let mut export_command = String::from_str("export ");
        export_command.append(SESSION_TOKEN_ENV_VAR);
        export_command.append("=");
        let quoted = shell_single_quote(token.as_str());
        export_command.append(quoted.as_str());
        let human = if json_only {
            None
        } else {
            Some(token.clone())
        };
        Flow::Ready(
            Ok(
                CommandOutcome::Immediate {
                    json_only,
                    human,
                    payload: Payload::Token { token, created, source, export_command },
                },
            ),
        )
    }
}

} // verus!
