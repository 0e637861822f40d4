//! Access tokens, pane permissions and the approval prompt.
use super::{
    lemma_one_request_added, lemma_one_request_removed, QuillPlugin, ORIGIN_PANE_ENV_VAR, PERMISSION_REQUEST_CONTEXT_KEY, SESSION_TOKEN_ENV_VAR,
};
use super::pane::{clone_opt, env_token};
use super::state::{bump_counter, bumped, stamped_id};
use crate::error::{ApiError, ApiResult, ErrorCode, ErrorMeta};
use crate::host::{
    answers_error, error_answered, extends, lemma_extends_trans, Effect, Flow, HostFacts,
    HostRequest, PromptPlan,
};
use crate::response::Payload;
use crate::table::{insert, lookup, position, remove};
use crate::text::{
    chars_of, dec, eq_str, parse_unsigned, parse_unsigned_chars, strip_prefix, strip_prefix_chars,
    trim, trim_chars,
};
use crate::types::{pane_id_text, pane_id_to_string, PaneId, PanePermissionRequest, PipeMessage};
use vstd::prelude::*;

verus! {

/// The value of the first pair with the given name.
pub open spec fn arg_lookup(args: Seq<(String, String)>, key: Seq<char>) -> Option<String>
    decreases args.len(),
{
    if args.len() == 0 {
        None
    } else if args[0].0@ == key {
        Some(args[0].1)
    } else {
        arg_lookup(args.drop_first(), key)
    }
}

/// The value of the first pair with the given name.
pub fn arg_value(args: &Vec<(String, String)>, key: &str) -> (r: Option<String>)
    ensures
        r == arg_lookup(args@, key@),
{
    let mut i: usize = 0;
    assert(args@.skip(0) =~= args@);
    while i < args.len()
        invariant
            i <= args@.len(),
            arg_lookup(args@, key@) == arg_lookup(args@.skip(i as int), key@),
        decreases args@.len() - i,
    {
        assert(args@.skip(i as int)[0] == args@[i as int]);
        let k = chars_of(args[i].0.as_str());
        if eq_str(&k, key) {
            return Some(args[i].1.clone());
        }
        assert(args@.skip(i as int).drop_first() =~= args@.skip(i + 1));
        i = i + 1;
    }
    None
}

/// The pane a request says it comes from: `id:N`, `terminal_N` or a bare
/// number for a terminal, `plugin_N` for a plugin.
pub open spec fn origin_pane_of(value: Seq<char>) -> Option<PaneId> {
    let v = trim(value);
    if v.len() == 0 {
        None
    } else if strip_prefix(v, "id:"@) is Some {
        match parse_unsigned(trim(strip_prefix(v, "id:"@)->0), u32::MAX as nat) {
            Some(n) => Some(PaneId::Terminal(n as u32)),
            None => None,
        }
    } else if strip_prefix(v, "terminal_"@) is Some {
        match parse_unsigned(trim(strip_prefix(v, "terminal_"@)->0), u32::MAX as nat) {
            Some(n) => Some(PaneId::Terminal(n as u32)),
            None => None,
        }
    } else if strip_prefix(v, "plugin_"@) is Some {
        match parse_unsigned(trim(strip_prefix(v, "plugin_"@)->0), u32::MAX as nat) {
            Some(n) => Some(PaneId::Plugin(n as u32)),
            None => None,
        }
    } else {
        match parse_unsigned(v, u32::MAX as nat) {
            Some(n) => Some(PaneId::Terminal(n as u32)),
            None => None,
        }
    }
}

fn parse_u32_trimmed(s: &[char]) -> (r: Option<u32>)
    ensures
        r == match parse_unsigned(trim(s@), u32::MAX as nat) {
            Some(n) => Some(n as u32),
            None => None::<u32>,
        },
{
    let t = trim_chars(s);
    match parse_unsigned_chars(&t, u32::MAX as usize) {
        Some(n) => Some(n as u32),
        None => None,
    }
}

/// Reads the pane a request says it comes from.
pub fn parse_origin_pane_id(value: &str) -> (r: Option<PaneId>)
    ensures
        r == origin_pane_of(value@),
{
    let c = chars_of(value);
    let v = trim_chars(&c);
    if v.len() == 0 {
        return None;
    }
    match strip_prefix_chars(&v, "id:") {
        Some(rest) => {
            return match parse_u32_trimmed(&rest) {
                Some(n) => Some(PaneId::Terminal(n)),
                None => None,
            };
        },
        None => {},
    }
    match strip_prefix_chars(&v, "terminal_") {
        Some(rest) => {
            return match parse_u32_trimmed(&rest) {
                Some(n) => Some(PaneId::Terminal(n)),
                None => None,
            };
        },
        None => {},
    }
    match strip_prefix_chars(&v, "plugin_") {
        Some(rest) => {
            return match parse_u32_trimmed(&rest) {
                Some(n) => Some(PaneId::Plugin(n)),
                None => None,
            };
        },
        None => {},
    }
    assert(trim(v@) == v@) by {
        crate::text::lemma_trim_idempotent(c@);
    }
    match parse_u32_trimmed(&v) {
        Some(n) => Some(PaneId::Terminal(n)),
        None => None,
    }
}

/// A terminal pane's name, as the plugin writes it (`id:N`), reads back as
/// that pane when a request gives it as its origin.
pub proof fn origin_reads_terminal_names(n: u32)
    ensures
        origin_pane_of(pane_id_text(PaneId::Terminal(n))) == Some(PaneId::Terminal(n)),
{
    reveal_strlit("id:");
    let d = dec(n as nat);
    let v = "id:"@ + d;
    crate::text::lemma_dec_digits(n as nat);
    assert(crate::text::is_digit(d.last()));
    assert(v.last() == d.last());
    crate::text::lemma_trim_unchanged(v);
    assert(v.take(3) =~= "id:"@);
    assert(v.skip(3) =~= d);
    assert(crate::text::is_digit(d[0]));
    crate::text::lemma_trim_unchanged(d);
    crate::text::decimal_round_trip(n as nat, u32::MAX as nat);
}

/// The text written to the requesting pane: a header line, then the message.
pub open spec fn dialog_text(message: Seq<char>) -> Seq<char> {
    "\n[quill permission]\n"@ + message + "\n"@
}

/// A pending request is for this token and pane.
pub open spec fn request_is_for(r: PanePermissionRequest, token: Seq<char>, pane_id: PaneId) -> bool {
    r.token@ == token && r.pane_id == pane_id
}

/// Where the plugin looks for an access token: the configured one; else,
/// when it may read the session's environment, the token set there or the one
/// read before; else the one read before. `None` when the environment has to
/// be read first.
pub open spec fn expected_auth(s: QuillPlugin, facts: HostFacts) -> Option<Option<String>> {
    match s.configured_token {
        Some(t) => Some(Some(t)),
        None => if !s.session_env_permission_granted {
            Some(s.token_from_session_env)
        } else {
            match facts.session_token {
                None => None,
                Some(v) => Some(
                    if env_token(v) is Some {
                        env_token(v)
                    } else {
                        s.token_from_session_env
                    },
                ),
            }
        },
    }
}

/// The plugin after it looked for the token: a token found in the session's
/// environment is remembered.
pub open spec fn after_auth_lookup(s: QuillPlugin, facts: HostFacts) -> QuillPlugin {
    if s.configured_token is None && s.session_env_permission_granted {
        match facts.session_token {
            Some(v) => if env_token(v) is Some {
                QuillPlugin { token_from_session_env: env_token(v), ..s }
            } else {
                s
            },
            None => s,
        }
    } else {
        s
    }
}

pub proof fn lemma_auth_lookup_stable(s: QuillPlugin, facts: HostFacts)
    ensures
        expected_auth(after_auth_lookup(s, facts), facts) == expected_auth(s, facts),
        after_auth_lookup(after_auth_lookup(s, facts), facts) == after_auth_lookup(s, facts),
        after_auth_lookup(s, facts).wf() == s.wf(),
{
}

/// The token a request acts with: the one it gives, unless blank, else the
/// expected one.
pub open spec fn actor_of(s: QuillPlugin, facts: HostFacts, provided: Option<Seq<char>>) -> Option<
    Option<Seq<char>>,
> {
    match provided {
        Some(p) if trim(p).len() > 0 => Some(Some(p)),
        _ => match expected_auth(s, facts) {
            Some(Some(t)) => Some(Some(t@)),
            Some(None) => Some(None),
            None => None,
        },
    }
}

pub open spec fn opt_view(o: Option<&str>) -> Option<Seq<char>> {
    match o {
        Some(s) => Some(s@),
        None => None,
    }
}

pub fn clone_request(r: &PanePermissionRequest) -> (c: PanePermissionRequest)
    ensures
        c == *r,
{
    PanePermissionRequest {
        request_id: r.request_id.clone(),
        token: r.token.clone(),
        pane_id: r.pane_id,
        origin_pane_id: r.origin_pane_id,
        created_at_ms: r.created_at_ms,
    }
}

/// The shell script of the approval prompt: it shows the token and the pane
/// and exits with success only on a yes.
pub const APPROVAL_SCRIPT: &'static str = "printf '\\n[quill permission]\\nToken: %s\\nPane: %s\\n\\nAllow this request? [y/N]: ' \"$1\" \"$2\"; read answer; case \"$answer\" in y|Y|yes|YES) exit 0;; *) exit 1;; esac";

impl QuillPlugin {
    /// Whether a token may access a pane.
    pub open spec fn allowed(&self, token: Seq<char>, pane_id: PaneId) -> bool {
        match lookup(self.token_pane_permissions@, token) {
            Some(v) => v@.contains(pane_id),
            None => false,
        }
    }

    /// Remembers the pane a request comes from, as its pipe arguments or the
    /// plugin's environment name it.
    pub fn capture_pipe_origin_pane_id(&mut self, pipe_message: &PipeMessage, facts: &HostFacts)
        ensures
            *final(self) == (QuillPlugin {
                current_pipe_origin_pane_id: final(self).current_pipe_origin_pane_id,
                ..*old(self)
            }),
            final(self).current_pipe_origin_pane_id == message_origin(*pipe_message, *facts),
    {
        let a = arg_value(&pipe_message.args, ORIGIN_PANE_ENV_VAR);
        let value = if a.is_some() {
            a
        } else {
            let b = arg_value(&pipe_message.args, "zellij_pane_id");
            if b.is_some() {
                b
            } else {
                let c = arg_value(&pipe_message.args, "pane_id");
                if c.is_some() {
                    c
                } else {
                    clone_opt(&facts.origin_env)
                }
            }
        };
        self.current_pipe_origin_pane_id = match value {
            Some(v) => parse_origin_pane_id(v.as_str()),
            None => None,
        };
    }

    /// Whether a token may access a pane.
    pub fn has_pane_permission(&self, token: &String, pane_id: PaneId) -> (r: bool)
        requires
            self.wf(),
        ensures
            r == self.allowed(token@, pane_id),
    {
        match position(&self.token_pane_permissions, token) {
            None => false,
            Some(i) => {
                let panes = &self.token_pane_permissions[i].1;
                let mut k: usize = 0;
                while k < panes.len()
                    invariant
                        k <= panes@.len(),
                        i < self.token_pane_permissions@.len(),
                        *panes == self.token_pane_permissions@[i as int].1,
                        lookup(self.token_pane_permissions@, token@) == Some(*panes),
                        forall|j: int| 0 <= j < k ==> panes@[j] != pane_id,
                    decreases panes@.len() - k,
                {
                    if panes[k] == pane_id {
                        assert(panes@.contains(pane_id)) by {
                            assert(panes@[k as int] == pane_id);
                        }
                        return true;
                    }
                    k = k + 1;
                }
                false
            },
        }
    }

    /// Lets a token access a pane from now on.
    pub fn grant_pane_permission(&mut self, token: &String, pane_id: PaneId)
        requires
            old(self).wf(),
        ensures
            final(self).wf(),
            final(self).allowed(token@, pane_id),
            forall|t: Seq<char>, p: PaneId|
                !(t == token@ && p == pane_id) ==> #[trigger] final(self).allowed(t, p) == old(self).allowed(t, p),
            *final(self) == (QuillPlugin {
                token_pane_permissions: final(self).token_pane_permissions,
                ..*old(self)
            }),
    {
        let mut panes: Vec<PaneId> = match position(&self.token_pane_permissions, token) {
            Some(i) => self.token_pane_permissions[i].1.clone(),
            None => Vec::new(),
        };
        let ghost before = panes@;
        assert(before == match lookup(old(self).token_pane_permissions@, token@) {
            Some(v) => v@,
            None => Seq::<PaneId>::empty(),
        });
        let mut k: usize = 0;
        while k < panes.len() && panes[k] != pane_id
            invariant
                k <= panes@.len(),
                forall|j: int| 0 <= j < k ==> panes@[j] != pane_id,
            decreases panes@.len() - k,
        {
            k = k + 1;
        }
        let found = k < panes.len();
        assert(found ==> panes@[k as int] == pane_id);
        if !found {
            panes.push(pane_id);
        }
        assert(panes@.contains(pane_id)) by {
            if found {
            } else {
                assert(panes@[panes@.len() - 1] == pane_id);
            }
        }
        assert(forall|p: PaneId| #[trigger] panes@.contains(p) <==> (before.contains(p) || p == pane_id)) by {
            assert forall|p: PaneId| #[trigger] panes@.contains(p) <==> (before.contains(p) || p == pane_id) by {
                if !found {
                    if panes@.contains(p) {
                        let j = choose|j: int| 0 <= j < panes@.len() && panes@[j] == p;
                        if j < before.len() {
                            assert(before[j] == p);
                        }
                    }
                    if before.contains(p) {
                        let j = choose|j: int| 0 <= j < before.len() && before[j] == p;
                        assert(panes@[j] == p);
                    }
                }
            }
        }
        insert(&mut self.token_pane_permissions, token.clone(), panes);
    }
}

impl QuillPlugin {
    /// The token requests are checked against.
    pub fn expected_auth_token(&mut self, facts: &HostFacts) -> (r: Flow<Option<String>>)
        ensures
            match expected_auth(*old(self), *facts) {
                None => r == Flow::<Option<String>>::Need(HostRequest::SessionEnv) && *final(self)
                    == *old(self),
                Some(t) => r == Flow::Ready(t) && *final(self) == after_auth_lookup(*old(self), *facts),
            },
    {
        if self.configured_token.is_some() {
            return Flow::Ready(clone_opt(&self.configured_token));
        }
        match self.session_env_token(facts) {
            Flow::Need(n) => Flow::Need(n),
            Flow::Ready(Some(t)) => Flow::Ready(Some(t)),
            Flow::Ready(None) => Flow::Ready(clone_opt(&self.token_from_session_env)),
        }
    }

    /// The token a request acts with.
    pub fn actor_token(&mut self, provided_token: Option<&str>, facts: &HostFacts) -> (r: Flow<
        Option<String>,
    >)
        ensures
            match actor_of(*old(self), *facts, opt_view(provided_token)) {
                None => r == Flow::<Option<String>>::Need(HostRequest::SessionEnv) && *final(self)
                    == *old(self),
                Some(t) => (r matches Flow::Ready(o) && match (o, t) {
                    (Some(a), Some(b)) => a@ == b,
                    (None, None) => true,
                    _ => false,
                }) && (*final(self) == *old(self) || *final(self) == after_auth_lookup(
                    *old(self),
                    *facts,
                )),
            },
    {
        match provided_token {
            Some(t) => {
                let c = chars_of(t);
                let tt = trim_chars(&c);
                if tt.len() > 0 {
                    return Flow::Ready(Some(String::from_str(t)));
                }
            },
            None => {},
        }
        self.expected_auth_token(facts)
    }

    /// Checks a request's token when tokens are required.
    pub fn validate_auth(&mut self, provided_token: Option<&str>, facts: &HostFacts) -> (r: Flow<
        ApiResult<()>,
    >)
        ensures
            !old(self).require_token ==> r == Flow::Ready(Ok::<(), ApiError>(())) && *final(self)
                == *old(self),
            old(self).require_token ==> match expected_auth(*old(self), *facts) {
                None => r == Flow::<ApiResult<()>>::Need(HostRequest::SessionEnv) && *final(self)
                    == *old(self),
                Some(None) => (r matches Flow::Ready(Err(e)) && e.code == ErrorCode::Unauthorized)
                    && *final(self) == after_auth_lookup(*old(self), *facts),
                Some(Some(t)) => (if provided_token matches Some(p) && p@ == t@ {
                    r == Flow::Ready(Ok::<(), ApiError>(()))
                } else {
                    r matches Flow::Ready(Err(e)) && e.code == ErrorCode::Unauthorized
                }) && *final(self) == after_auth_lookup(*old(self), *facts),
            },
    {
        if !self.require_token {
            return Flow::Ready(Ok(()));
        }
        let expected = match self.expected_auth_token(facts) {
            Flow::Need(n) => {
                return Flow::Need(n);
            },
            Flow::Ready(e) => e,
        };
        match expected {
            None => {
                let mut hint = String::from_str("Set plugin config `token=...`, export ");
                hint.append(SESSION_TOKEN_ENV_VAR);
                hint.append(", or run `token`.");
                Flow::Ready(
                    Err(
                        ApiError::with_text(
                            ErrorCode::Unauthorized,
                            "Token required but no configured token is available",
                        ).hint_string(hint),
                    ),
                )
            },
            Some(e) => {
                match provided_token {
                    Some(p) => {
                        let pc = chars_of(p);
                        if eq_str(&pc, e.as_str()) {
                            return Flow::Ready(Ok(()));
                        }
                    },
                    None => {},
                }
                Flow::Ready(
                    Err(ApiError::with_text(ErrorCode::Unauthorized, "Missing or invalid token")),
                )
            },
        }
    }

    /// The index of the first pending request of a token for a pane.
    pub fn pending_permission_request(&self, token: &String, pane_id: PaneId) -> (r: Option<usize>)
        ensures
            match r {
                Some(i) => i < self.pending_permission_requests@.len() && request_is_for(
                    self.pending_permission_requests@[i as int].1,
                    token@,
                    pane_id,
                ) && forall|j: int|
                    0 <= j < i ==> !request_is_for(
                        #[trigger] self.pending_permission_requests@[j].1,
                        token@,
                        pane_id,
                    ),
                None => forall|j: int|
                    0 <= j < self.pending_permission_requests@.len() ==> !request_is_for(
                        #[trigger] self.pending_permission_requests@[j].1,
                        token@,
                        pane_id,
                    ),
            },
    {
        let t = &self.pending_permission_requests;
        let mut i: usize = 0;
        while i < t.len()
            invariant
                i <= t@.len(),
                *t == self.pending_permission_requests,
                forall|j: int| 0 <= j < i ==> !request_is_for(#[trigger] t@[j].1, token@, pane_id),
            decreases t@.len() - i,
        {
            if t[i].1.token == *token && t[i].1.pane_id == pane_id {
                return Some(i);
            }
            i = i + 1;
        }
        None
    }

    /// Whether an approval prompt is open for the request.
    pub fn has_prompt_for_request(&self, request_id: &String) -> (r: bool)
        ensures
            r == exists|j: int|
                0 <= j < self.permission_prompt_panes@.len()
                    && (#[trigger] self.permission_prompt_panes@[j]).1@ == request_id@,
    {
        let t = &self.permission_prompt_panes;
        let mut i: usize = 0;
        while i < t.len()
            invariant
                i <= t@.len(),
                *t == self.permission_prompt_panes,
                forall|j: int| 0 <= j < i ==> (#[trigger] t@[j]).1@ != request_id@,
            decreases t@.len() - i,
        {
            if t[i].1 == *request_id {
                assert(t@[i as int].1@ == request_id@);
                return true;
            }
            i = i + 1;
        }
        false
    }

    /// Writes a permission message into the requesting pane, if it is known.
    pub fn write_permission_dialog(&self, origin_pane_id: Option<PaneId>, message: &str, fx: &mut Vec<Effect>)
        ensures
            match origin_pane_id {
                Some(p) => final(fx)@.len() == old(fx)@.len() + 1 && final(fx)@.take(
                    old(fx)@.len() as int,
                ) == old(fx)@ && (final(fx)@.last() matches Effect::WriteChars {
                    pane_id: q,
                    text: t,
                } && q == p && t@ == dialog_text(message@)),
                None => final(fx)@ == old(fx)@,
            },
    {
        match origin_pane_id {
            Some(p) => {
                let mut text = String::from_str("\n[quill permission]\n");
                text.append(message);
                text.append("\n");
                fx.push(Effect::WriteChars { pane_id: p, text });
                assert(fx@.take(old(fx)@.len() as int) =~= old(fx)@);
            },
            None => {},
        }
    }

    /// The error that a request awaits approval, with the request's details.
    pub fn permission_required_error(&self, request: &PanePermissionRequest) -> (e: ApiError)
        ensures
            e.code == ErrorCode::PermissionRequired,
            e.meta matches Some(ErrorMeta::Permission { request_id, token, pane_id, origin_pane_id })
                && request_id == request.request_id && token == request.token && pane_id
                == request.pane_id && origin_pane_id == request.origin_pane_id,
    {
        ApiError::with_text(
            ErrorCode::PermissionRequired,
            "Token is not allowed to access the requested pane",
        ).hint("Approve in the quill permission prompt, then retry the command.").meta(
            ErrorMeta::Permission {
                request_id: request.request_id.clone(),
                token: request.token.clone(),
                pane_id: request.pane_id,
                origin_pane_id: request.origin_pane_id,
            },
        )
    }
}

/// What checking a request's token gives: `None` when the session's
/// environment has to be read first, else whether the check passes.
pub open spec fn auth_check(s: QuillPlugin, facts: HostFacts, provided: Option<Seq<char>>) -> Option<
    bool,
> {
    if !s.require_token {
        Some(true)
    } else {
        match expected_auth(s, facts) {
            None => None,
            Some(None) => Some(false),
            Some(Some(t)) => Some(provided == Some(t@)),
        }
    }
}

/// The prompt that asks the user about a request: a shell that prints the
/// token and the pane and exits with success only on a yes.
pub open spec fn prompt_plan_of(r: PanePermissionRequest, plan: PromptPlan) -> bool {
    &&& plan.request_id == r.request_id
    &&& plan.token == r.token
    &&& plan.pane_id == r.pane_id
    &&& plan.created_at_ms == r.created_at_ms
    &&& plan.program@ == "sh"@
    &&& plan.args@.len() == 5
    &&& plan.args@[0]@ == "-c"@
    &&& plan.args@[1]@ == APPROVAL_SCRIPT@
    &&& plan.args@[2]@ == "quill-approve"@
    &&& plan.args@[3] == r.token
    &&& plan.args@[4]@ == pane_id_text(r.pane_id)
    &&& plan.context_key@ == PERMISSION_REQUEST_CONTEXT_KEY@
}

fn prompt_plan(r: &PanePermissionRequest) -> (plan: PromptPlan)
    ensures
        prompt_plan_of(*r, plan),
{
    let args = vec![
        String::from_str("-c"),
        String::from_str(APPROVAL_SCRIPT),
        String::from_str("quill-approve"),
        r.token.clone(),
        pane_id_to_string(r.pane_id),
    ];
    PromptPlan {
        request_id: r.request_id.clone(),
        token: r.token.clone(),
        pane_id: r.pane_id,
        created_at_ms: r.created_at_ms,
        program: String::from_str("sh"),
        args,
        context_key: String::from_str(PERMISSION_REQUEST_CONTEXT_KEY),
    }
}

/// Stores the request an approval prompt pane asks about, replacing what
/// was stored for the pane.
fn put_prompt_pane(t: &mut Vec<(u32, String)>, pane: u32, request_id: String)
    ensures
        exists|j: int|
            0 <= j < final(t)@.len() && (#[trigger] final(t)@[j]) == (pane, request_id),
        forall|j: int|
            0 <= j < old(t)@.len() && (#[trigger] old(t)@[j]).0 != pane ==> final(t)@.contains(
                old(t)@[j],
            ),
{
    let mut i: usize = 0;
    while i < t.len()
        invariant
            i <= t@.len(),
            *t == *old(t),
            forall|j: int| 0 <= j < i ==> (#[trigger] t@[j]).0 != pane,
        decreases t@.len() - i,
    {
        if t[i].0 == pane {
            let ghost before = t@;
            t.set(i, (pane, request_id));
            assert(t@[i as int] == (pane, request_id));
            assert forall|j: int|
                0 <= j < before.len() && (#[trigger] before[j]).0 != pane implies t@.contains(
                before[j],
            ) by {
                assert(t@[j] == before[j]);
            }
            return;
        }
        i = i + 1;
    }
    let ghost before = t@;
    t.push((pane, request_id));
    assert(t@[before.len() as int] == (pane, request_id));
    assert forall|j: int| 0 <= j < before.len() && (#[trigger] before[j]).0 != pane implies t@.contains(
        before[j],
    ) by {
        assert(t@[j] == before[j]);
    }
}

impl QuillPlugin {
    /// Checks the token and finds the one the request acts with, as access to
    /// a pane needs it: with pane permissions on, a request without any token
    /// is refused.
    pub fn resolve_actor_token_for_pane_access(
        &mut self,
        provided_token: Option<&str>,
        facts: &HostFacts,
        fx: &mut Vec<Effect>,
    ) -> (r: Flow<ApiResult<Option<String>>>)
        requires
            old(self).wf(),
        ensures
            access_frame(*old(self), *final(self)),
            *final(self) == *old(self) || *final(self) == after_auth_lookup(*old(self), *facts),
            extends(old(fx)@, final(fx)@),
            r is Need ==> *final(self) == *old(self) && r == Flow::<ApiResult<Option<String>>>::Need(
                HostRequest::SessionEnv,
            ),
            r matches Flow::Ready(Ok(_)) ==> final(fx)@ == old(fx)@,
            r is Need ==> final(fx)@ == old(fx)@,
            match auth_check(*old(self), *facts, opt_view(provided_token)) {
                None => r is Need,
                Some(false) => r matches Flow::Ready(Err(e)) && e.code == ErrorCode::Unauthorized,
                Some(true) => match actor_of(*old(self), *facts, opt_view(provided_token)) {
                    None => r is Need,
                    Some(None) => if old(self).enforce_pane_permissions {
                        r matches Flow::Ready(Err(e)) && e.code == ErrorCode::Unauthorized && e.message@
                            == "Pane permissions are enabled and require a token"@ && (e.hint matches Some(h)
                            && h@ == "Provide --token or set "@ + SESSION_TOKEN_ENV_VAR@ + " and retry."@)
                    } else {
                        r matches Flow::Ready(Ok(None))
                    },
                    Some(Some(t)) => r matches Flow::Ready(Ok(Some(x))) && x@ == t,
                },
            },
    {
        let v = self.validate_auth(provided_token, facts);
        match v {
            Flow::Need(n) => {
                return Flow::Need(n);
            },
            Flow::Ready(Err(e)) => {
                return Flow::Ready(Err(e));
            },
            Flow::Ready(Ok(())) => {},
        }
        proof {
            lemma_auth_lookup_stable(*old(self), *facts);
        }
        let ghost mid = *self;
        let a = self.actor_token(provided_token, facts);
        proof {
            lemma_auth_lookup_stable(mid, *facts);
            lemma_auth_lookup_stable(after_auth_lookup(*old(self), *facts), *facts);
        }
        let actor = match a {
            Flow::Need(n) => {
                return Flow::Need(n);
            },
            Flow::Ready(t) => t,
        };
        if !self.enforce_pane_permissions {
            return Flow::Ready(Ok(actor));
        }
        match actor {
            Some(t) => Flow::Ready(Ok(Some(t))),
            None => {
                let mut dialog = String::from_str("Pane access requires a token.\nSet ");
                dialog.append(SESSION_TOKEN_ENV_VAR);
                dialog.append(" or pass --token and retry.");
                self.write_permission_dialog(self.current_pipe_origin_pane_id, dialog.as_str(), fx);
                let mut hint = String::from_str("Provide --token or set ");
                hint.append(SESSION_TOKEN_ENV_VAR);
                hint.append(" and retry.");
                Flow::Ready(
                    Err(
                        ApiError::with_text(
                            ErrorCode::Unauthorized,
                            "Pane permissions are enabled and require a token",
                        ).hint_string(hint),
                    ),
                )
            },
        }
    }
}

/// The request a refusal names is pending in the plugin, for that token and
/// pane.
pub open spec fn names_pending(s: QuillPlugin, e: ApiError, token: Seq<char>, pane_id: PaneId) -> bool {
    e.meta matches Some(ErrorMeta::Permission { request_id, .. }) && lookup(
        s.pending_permission_requests@,
        request_id@,
    ) matches Some(q) && request_is_for(q, token, pane_id)
}

impl QuillPlugin {
    /// Lets the token through to the pane if it may access it; otherwise
    /// makes sure a request for it is pending with an approval prompt open,
    /// and refuses.
    #[verifier::spinoff_prover]
    pub fn ensure_specific_token_can_access_pane(
        &mut self,
        token: String,
        pane_id: PaneId,
        facts: &HostFacts,
        fx: &mut Vec<Effect>,
    ) -> (r: Flow<ApiResult<String>>)
        requires
            old(self).wf(),
        ensures
            access_frame(*old(self), *final(self)),
            extends(old(fx)@, final(fx)@),
            r is Need ==> final(fx)@ == old(fx)@,
            !old(self).enforce_pane_permissions || old(self).allowed(token@, pane_id) ==> r
                == Flow::Ready(Ok::<String, ApiError>(token)) && *final(self) == *old(self)
                && final(fx)@ == old(fx)@,
            old(self).enforce_pane_permissions && !old(self).allowed(token@, pane_id) ==> match r {
                Flow::Ready(Ok(_)) => false,
                Flow::Ready(Err(e)) => (e.code == ErrorCode::PermissionRequired && names_pending(
                    *final(self),
                    e,
                    token@,
                    pane_id,
                ) && approval_dialog_written(*final(self), final(fx)@, e)) || e.code
                    == ErrorCode::PermissionUnavailable,
                Flow::Need(n) => *final(self) == *old(self) && (n matches HostRequest::OpenPrompt {
                    plan,
                } && plan.token@ == token@ && plan.pane_id == pane_id),
            },
            old(self).enforce_pane_permissions && !old(self).allowed(token@, pane_id) ==> exists|
                q: PanePermissionRequest,
            |
                #[trigger] settled_request(*old(self), *facts, token@, pane_id, q) && approval_outcome(
                    *old(self),
                    *final(self),
                    *facts,
                    q,
                    old(fx)@,
                    final(fx)@,
                    r,
                ),
    {
        if !self.enforce_pane_permissions {
            return Flow::Ready(Ok(token));
        }
        if self.has_pane_permission(&token, pane_id) {
            return Flow::Ready(Ok(token));
        }
        let existing = self.pending_permission_request(&token, pane_id);
        let is_new = existing.is_none();
        let next = bump_counter(self.next_permission_request_id);
        let request = match existing {
            Some(i) => {
                proof {
                    crate::table::lemma_lookup_at(self.pending_permission_requests@, i as int);
                    let k = self.pending_permission_requests@[i as int].0@;
                    assert(lookup(self.pending_permission_requests@, k) matches Some(q) ==> q.request_id@ == k);
                    lemma_first_pending(self.pending_permission_requests@, token@, pane_id, i as int);
                }
                clone_request(&self.pending_permission_requests[i].1)
            },
            None => {
                let adopted = match &facts.prompt {
                    Some(reply) => if reply.plan.token == token && reply.plan.pane_id == pane_id {
                        Some((reply.plan.request_id.clone(), reply.plan.created_at_ms))
                    } else {
                        None
                    },
                    None => None,
                };
                let (id, created) = match adopted {
                    Some(a) => a,
                    None => {
                        let ms = facts.unix_ms;
                        (stamped_id("perm-", ms, next), ms)
                    },
                };
                PanePermissionRequest {
                    request_id: id,
                    token: token.clone(),
                    pane_id,
                    origin_pane_id: self.current_pipe_origin_pane_id,
                    created_at_ms: created,
                }
            },
        };
        assert(request_is_for(request, token@, pane_id));
        assert(!is_new ==> lookup(self.pending_permission_requests@, request.request_id@) == Some(
            request,
        ));
        proof {
            if is_new {
                lemma_first_pending(
                    self.pending_permission_requests@,
                    token@,
                    pane_id,
                    self.pending_permission_requests@.len() as int,
                );
            }
        }
        assert(settled_request(*old(self), *facts, token@, pane_id, request));
        let has_prompt = self.has_prompt_for_request(&request.request_id);
        let opened: Option<PaneId> = if has_prompt {
            None
        } else {
            match &facts.prompt {
                Some(reply) => if reply.plan.request_id == request.request_id {
                    reply.opened
                } else {
                    let out = Flow::Need(HostRequest::OpenPrompt { plan: prompt_plan(&request) });
                    assert(approval_outcome(*old(self), *self, *facts, request, old(fx)@, fx@, out));
                    return out;
                },
                None => {
                    let out = Flow::Need(HostRequest::OpenPrompt { plan: prompt_plan(&request) });
                    assert(approval_outcome(*old(self), *self, *facts, request, old(fx)@, fx@, out));
                    return out;
                },
            }
        };
        if is_new {
            self.next_permission_request_id = next;
            let ghost pending_before = self.pending_permission_requests@;
            let entry_value = clone_request(&request);
            let ghost entry = (request.request_id, entry_value);
            insert(&mut self.pending_permission_requests, request.request_id.clone(), entry_value);
            proof {
                assert forall|j: int| 0 <= j < pending_before.len() implies !((#[trigger] pending_before[j]).1.token@
                    == entry.1.token@ && pending_before[j].1.pane_id == entry.1.pane_id) by {
                    assert(!request_is_for(pending_before[j].1, token@, pane_id));
                }
                lemma_one_request_added(pending_before, self.pending_permission_requests@, entry);
            }
        }
        assert(lookup(self.pending_permission_requests@, request.request_id@) == Some(request));
        let ghost mut named_at: int = 0;
        let available = if has_prompt {
            true
        } else {
            match opened {
                Some(PaneId::Terminal(prompt_pane)) => {
                    put_prompt_pane(&mut self.permission_prompt_panes, prompt_pane, request.request_id.clone());
                    proof {
                        named_at = fx@.len() as int;
                    }
                    fx.push(
                        Effect::RenamePane {
                            pane_id: PaneId::Terminal(prompt_pane),
                            name: String::from_str("quill-approval"),
                        },
                    );
                    assert(fx@.take(old(fx)@.len() as int) =~= old(fx)@);
                    assert(names_prompt(fx@[named_at], prompt_pane));
                    true
                },
                _ => false,
            }
        };
        let pane_text = pane_id_to_string(request.pane_id);
        if !available {
            let ghost pending_before = self.pending_permission_requests@;
            remove(&mut self.pending_permission_requests, &request.request_id);
            proof {
                if self.pending_permission_requests@ != pending_before {
                    let i = choose|i: int|
                        0 <= i < pending_before.len() && self.pending_permission_requests@ == pending_before.remove(i);
                    lemma_one_request_removed(pending_before, i);
                }
            }
            let mut m = String::from_str("Access to ");
            m.append(pane_text.as_str());
            m.append(" requested for token `");
            m.append(request.token.as_str());
            m.append("`.\nCould not open the quill approval prompt pane.");
            let ghost f0 = fx@;
            self.write_permission_dialog(request.origin_pane_id, m.as_str(), fx);
            proof {
                lemma_extends_trans(old(fx)@, f0, fx@);
            }
            let out = Flow::Ready(
                Err(
                    ApiError::with_text(
                        ErrorCode::PermissionUnavailable,
                        "Unable to open quill approval prompt pane",
                    ).hint("Retry the command or disable pane permissions."),
                ),
            );
            assert(approval_outcome(*old(self), *self, *facts, request, old(fx)@, fx@, out));
            return out;
        }
        let mut m = String::from_str("Access to ");
        m.append(pane_text.as_str());
        m.append(" requested for token `");
        m.append(request.token.as_str());
        m.append("`.\nApprove in the quill permission prompt.");
        assert(m@ == access_request_text(request.pane_id, request.token@));
        let ghost f0 = fx@;
        self.write_permission_dialog(request.origin_pane_id, m.as_str(), fx);
        proof {
            lemma_extends_trans(old(fx)@, f0, fx@);
            if request.origin_pane_id is Some {
                assert(writes_dialog(fx@[f0.len() as int], request.origin_pane_id->0, access_request_text(request.pane_id, request.token@)));
            }
        }
        let e = self.permission_required_error(&request);
        let out = Flow::Ready(Err(e));
        proof {
            assert(lookup(self.pending_permission_requests@, request.request_id@) == Some(request));
            if request.origin_pane_id is Some {
                let o = request.origin_pane_id->0;
                assert(writes_dialog(fx@[f0.len() as int], o, access_request_text(request.pane_id, request.token@)));
            }
            if !has_prompt {
                if let Some(PaneId::Terminal(t)) = opened {
                    assert(fx@[named_at] == f0[named_at]);
                    assert(names_prompt(fx@[named_at], t));
                }
            }
        }
        assert(approval_outcome(*old(self), *self, *facts, request, old(fx)@, fx@, out));
        out
    }
}

/// How a request for access to a pane comes out, by the token check, the
/// token it acts with and the permissions: the token, a refusal, or what is
/// needed first.
pub open spec fn access_result(
    s: QuillPlugin,
    f: QuillPlugin,
    facts: HostFacts,
    provided: Option<Seq<char>>,
    pane_id: PaneId,
    r: Flow<ApiResult<Option<String>>>,
) -> bool {
    match auth_check(s, facts, provided) {
        None => r matches Flow::Need(HostRequest::SessionEnv),
        Some(false) => r matches Flow::Ready(Err(e)) && e.code == ErrorCode::Unauthorized,
        Some(true) => match actor_of(s, facts, provided) {
            None => r matches Flow::Need(HostRequest::SessionEnv),
            Some(None) => if s.enforce_pane_permissions {
                r matches Flow::Ready(Err(e)) && e.code == ErrorCode::Unauthorized
            } else {
                r matches Flow::Ready(Ok(None))
            },
            Some(Some(t)) => if !s.enforce_pane_permissions || s.allowed(t, pane_id) {
                r matches Flow::Ready(Ok(Some(x))) && x@ == t
            } else {
                match r {
                    Flow::Ready(Ok(_)) => false,
                    Flow::Ready(Err(e)) => (e.code == ErrorCode::PermissionRequired
                        && names_pending(f, e, t, pane_id)) || e.code
                        == ErrorCode::PermissionUnavailable,
                    Flow::Need(n) => n matches HostRequest::OpenPrompt { plan } && plan.token@ == t && plan.pane_id == pane_id,
                }
            },
        },
    }
}

/// The parts of the plugin a permission check leaves as they were.
pub open spec fn access_frame(s: QuillPlugin, f: QuillPlugin) -> bool {
    &&& f.wf()
    &&& f.token_pane_permissions == s.token_pane_permissions
    &&& f.require_token == s.require_token
    &&& f.enforce_pane_permissions == s.enforce_pane_permissions
    &&& f.configured_token == s.configured_token
    &&& f.current_pipe_origin_pane_id == s.current_pipe_origin_pane_id
    &&& f.pane_manifest == s.pane_manifest
    &&& f.marks == s.marks
    &&& f.jobs == s.jobs
    &&& f.exec_jobs_by_request_id == s.exec_jobs_by_request_id
    &&& f.recent_terminal_panes == s.recent_terminal_panes
    &&& f.focused_pane_id == s.focused_pane_id
    &&& f.focused_tab_index == s.focused_tab_index
    &&& f.pending_permission_commands == s.pending_permission_commands
    &&& f.permissions_denied == s.permissions_denied
    &&& f.session_env_permission_granted == s.session_env_permission_granted
    &&& f.next_job_id == s.next_job_id
    &&& f.next_request_id == s.next_request_id
    &&& f.next_mark_id == s.next_mark_id
}

/// The request an approval prompt pane asks about.
pub open spec fn prompt_of(t: Seq<(u32, String)>, pane: u32) -> Option<String>
    decreases t.len(),
{
    if t.len() == 0 {
        None
    } else if t[0].0 == pane {
        Some(t[0].1)
    } else {
        prompt_of(t.drop_first(), pane)
    }
}

fn prompt_request(t: &Vec<(u32, String)>, pane: u32) -> (r: Option<String>)
    ensures
        r == prompt_of(t@, pane),
{
    let mut i: usize = 0;
    assert(t@.skip(0) =~= t@);
    while i < t.len()
        invariant
            i <= t@.len(),
            prompt_of(t@, pane) == prompt_of(t@.skip(i as int), pane),
        decreases t@.len() - i,
    {
        assert(t@.skip(i as int)[0] == t@[i as int]);
        if t[i].0 == pane {
            return Some(t[i].1.clone());
        }
        assert(t@.skip(i as int).drop_first() =~= t@.skip(i + 1));
        i = i + 1;
    }
    None
}

/// Forgets an approval prompt pane.
fn forget_prompt_pane(t: &mut Vec<(u32, String)>, pane: u32)
    ensures
        forall|j: int| 0 <= j < final(t)@.len() ==> (#[trigger] final(t)@[j]).0 != pane,
        forall|e: (u32, String)| e.0 != pane && old(t)@.contains(e) ==> #[trigger] final(t)@.contains(e),
{
    let mut out: Vec<(u32, String)> = Vec::new();
    let mut i: usize = 0;
    while i < t.len()
        invariant
            i <= t@.len(),
            forall|j: int| 0 <= j < out@.len() ==> (#[trigger] out@[j]).0 != pane,
            forall|j: int| 0 <= j < i && (#[trigger] t@[j]).0 != pane ==> out@.contains(t@[j]),
        decreases t@.len() - i,
    {
        if t[i].0 != pane {
            let ghost before = out@;
            out.push((t[i].0, t[i].1.clone()));
            assert(out@[before.len() as int] == t@[i as int]);
            assert forall|j: int| 0 <= j < i && (#[trigger] t@[j]).0 != pane implies out@.contains(
                t@[j],
            ) by {
                let k = choose|k: int| 0 <= k < before.len() && before[k] == t@[j];
                assert(out@[k] == t@[j]);
            }
        }
        i = i + 1;
    }
    assert forall|e: (u32, String)| e.0 != pane && old(t)@.contains(e) implies #[trigger] out@.contains(e) by {
        let j = choose|j: int| 0 <= j < old(t)@.len() && old(t)@[j] == e;
    }
    *t = out;
}

impl QuillPlugin {
    /// Lets a request's token through to a pane, when tokens and pane
    /// permissions allow it.
    pub fn ensure_token_can_access_pane(
        &mut self,
        provided_token: Option<&str>,
        pane_id: PaneId,
        facts: &HostFacts,
        fx: &mut Vec<Effect>,
    ) -> (r: Flow<ApiResult<Option<String>>>)
        requires
            old(self).wf(),
        ensures
            access_frame(*old(self), *final(self)),
            extends(old(fx)@, final(fx)@),
            r is Need ==> *final(self) == *old(self) || *final(self) == after_auth_lookup(
                *old(self),
                *facts,
            ),
            access_result(*old(self), *final(self), *facts, opt_view(provided_token), pane_id, r),
            r matches Flow::Ready(Ok(_)) ==> final(fx)@ == old(fx)@ && (*final(self) == *old(self)
                || *final(self) == after_auth_lookup(*old(self), *facts)),
            r is Need ==> final(fx)@ == old(fx)@,
            r matches Flow::Ready(Err(e)) ==> (e.code == ErrorCode::PermissionRequired ==> approval_dialog_written(
                *final(self),
                final(fx)@,
                e,
            )),
            approval_asked(*old(self), *final(self), *facts, opt_view(provided_token), pane_id, old(fx)@, final(fx)@, r),
    {
        let t = match self.resolve_actor_token_for_pane_access(provided_token, facts, fx) {
            Flow::Need(n) => {
                return Flow::Need(n);
            },
            Flow::Ready(Err(e)) => {
                return Flow::Ready(Err(e));
            },
            Flow::Ready(Ok(None)) => {
                return Flow::Ready(Ok(None));
            },
            Flow::Ready(Ok(Some(t))) => t,
        };
        proof {
            lemma_auth_lookup_stable(*old(self), *facts);
        }
        let ghost mid = *self;
        let ghost f0 = fx@;
        let ghost tv = t@;
        let r = self.ensure_specific_token_can_access_pane(t, pane_id, facts, fx);
        proof {
            lemma_extends_trans(old(fx)@, f0, fx@);
        }
        let out = match r {
            Flow::Need(n) => Flow::Need(n),
            Flow::Ready(Ok(t)) => Flow::Ready(Ok(Some(t))),
            Flow::Ready(Err(e)) => Flow::Ready(Err(e)),
        };
        proof {
            if mid.enforce_pane_permissions && !mid.allowed(tv, pane_id) {
                let q = choose|q: PanePermissionRequest|
                    #[trigger] settled_request(mid, *facts, tv, pane_id, q) && approval_outcome(
                        mid,
                        *self,
                        *facts,
                        q,
                        f0,
                        fx@,
                        r,
                    );
                assert(settled_request(*old(self), *facts, tv, pane_id, q));
                lemma_approval_outcome_same(mid, *self, *facts, q, f0, fx@, r, out);
            }
        }
        out
    }

    /// Lets a request's token create panes from the pane the request comes
    /// from, when tokens and pane permissions allow it.
    pub fn ensure_token_can_create_from_origin(
        &mut self,
        provided_token: Option<&str>,
        facts: &HostFacts,
        fx: &mut Vec<Effect>,
    ) -> (r: Flow<ApiResult<Option<String>>>)
        requires
            old(self).wf(),
        ensures
            access_frame(*old(self), *final(self)),
            extends(old(fx)@, final(fx)@),
            r matches Flow::Ready(Ok(_)) ==> final(fx)@ == old(fx)@ && (*final(self) == *old(self)
                || *final(self) == after_auth_lookup(*old(self), *facts)),
            r is Need ==> final(fx)@ == old(fx)@,
            r is Need ==> *final(self) == *old(self) || *final(self) == after_auth_lookup(
                *old(self),
                *facts,
            ),
            r matches Flow::Ready(Err(e)) ==> (e.code == ErrorCode::PermissionRequired && old(
                self,
            ).current_pipe_origin_pane_id is Some ==> approval_dialog_written(*final(self), final(fx)@, e)),
            old(self).current_pipe_origin_pane_id matches Some(o) ==> approval_asked(
                *old(self),
                *final(self),
                *facts,
                opt_view(provided_token),
                o,
                old(fx)@,
                final(fx)@,
                r,
            ),
            match old(self).current_pipe_origin_pane_id {
                Some(o) => access_result(
                    *old(self),
                    *final(self),
                    *facts,
                    opt_view(provided_token),
                    o,
                    r,
                ),
                None => if old(self).enforce_pane_permissions && auth_check(
                    *old(self),
                    *facts,
                    opt_view(provided_token),
                ) == Some(true) && actor_of(*old(self), *facts, opt_view(provided_token)) is Some {
                    if actor_of(*old(self), *facts, opt_view(provided_token)) matches Some(Some(_)) {
                        r matches Flow::Ready(Err(e)) && e.code == ErrorCode::PermissionRequired && e.meta is None
                    } else {
                        r matches Flow::Ready(Err(e)) && e.code == ErrorCode::Unauthorized
                    }
                } else {
                    access_result(
                        *old(self),
                        *final(self),
                        *facts,
                        opt_view(provided_token),
                        PaneId::Terminal(0),
                        r,
                    )
                },
            },
    {
        let t = match self.resolve_actor_token_for_pane_access(provided_token, facts, fx) {
            Flow::Need(n) => {
                return Flow::Need(n);
            },
            Flow::Ready(Err(e)) => {
                return Flow::Ready(Err(e));
            },
            Flow::Ready(Ok(None)) => {
                return Flow::Ready(Ok(None));
            },
            Flow::Ready(Ok(Some(t))) => t,
        };
        proof {
            lemma_auth_lookup_stable(*old(self), *facts);
        }
        if !self.enforce_pane_permissions {
            return Flow::Ready(Ok(Some(t)));
        }
        let origin = match self.current_pipe_origin_pane_id {
            Some(o) => o,
            None => {
                let mut hint = String::from_str("Pass --args ");
                hint.append(ORIGIN_PANE_ENV_VAR);
                hint.append("=$ZELLIJ_PANE_ID or disable pane permissions");
                return Flow::Ready(
                    Err(
                        ApiError::with_text(
                            ErrorCode::PermissionRequired,
                            "Cannot determine request origin pane for permission prompt",
                        ).hint_string(hint),
                    ),
                );
            },
        };
        let ghost mid = *self;
        let ghost f0 = fx@;
        let ghost tv = t@;
        let r = self.ensure_specific_token_can_access_pane(t, origin, facts, fx);
        proof {
            lemma_extends_trans(old(fx)@, f0, fx@);
        }
        let out = match r {
            Flow::Need(n) => Flow::Need(n),
            Flow::Ready(Ok(t)) => Flow::Ready(Ok(Some(t))),
            Flow::Ready(Err(e)) => Flow::Ready(Err(e)),
        };
        proof {
            if mid.enforce_pane_permissions && !mid.allowed(tv, origin) {
                let q = choose|q: PanePermissionRequest|
                    #[trigger] settled_request(mid, *facts, tv, origin, q) && approval_outcome(
                        mid,
                        *self,
                        *facts,
                        q,
                        f0,
                        fx@,
                        r,
                    );
                assert(settled_request(*old(self), *facts, tv, origin, q));
                lemma_approval_outcome_same(mid, *self, *facts, q, f0, fx@, r, out);
            }
        }
        out
    }

    /// Answers the command that waited for a denied request: it is refused.
    pub fn deny_pending_permission_command(&mut self, request_id: &String, fx: &mut Vec<Effect>)
        requires
            old(self).wf(),
        ensures
            final(self).wf(),
            *final(self) == (QuillPlugin {
                pending_permission_commands: final(self).pending_permission_commands,
                ..*old(self)
            }),
            lookup(final(self).pending_permission_commands@, request_id@) is None,
            forall|k: Seq<char>|
                k != request_id@ ==> #[trigger] lookup(final(self).pending_permission_commands@, k)
                    == lookup(old(self).pending_permission_commands@, k),
            match lookup(old(self).pending_permission_commands@, request_id@) {
                Some(c) => final(fx)@.len() == old(fx)@.len() + 1 && final(fx)@.take(
                    old(fx)@.len() as int,
                ) == old(fx)@ && (final(fx)@.last() matches Effect::Respond {
                    pipe_id: q,
                    payload: Payload::Error(e),
                    unblock: u,
                    ..
                } && q@ == c.pipe_id@ && e.code == ErrorCode::PermissionDenied && u),
                None => final(fx)@ == old(fx)@,
            },
    {
        match remove(&mut self.pending_permission_commands, request_id) {
            None => {},
            Some(pending) => {
                self.send_error_with_unblock(
                    Some(pending.pipe_id.as_str()),
                    false,
                    ApiError::with_text(
                        ErrorCode::PermissionDenied,
                        "Permission request was denied in UI prompt",
                    ),
                    true,
                    fx,
                );
            },
        }
    }

    /// Handles the end of an approval prompt: an exit code of zero grants the
    /// request's token access to its pane and lets the command that waited
    /// for it go on; any other refuses it. The prompt pane is closed.
    pub fn on_command_pane_exited(
        &mut self,
        terminal_pane_id: u32,
        exit_code: Option<i32>,
        context: &Vec<(String, String)>,
        fx: &mut Vec<Effect>,
    )
        requires
            old(self).wf(),
        ensures
            final(self).wf(),
            prompt_exit_outcome(
                *old(self),
                *final(self),
                terminal_pane_id,
                exit_code,
                context@,
                old(fx)@,
                final(fx)@,
            ),
    {
        let from_context = arg_value(context, PERMISSION_REQUEST_CONTEXT_KEY);
        let request_id = if from_context.is_some() {
            from_context
        } else {
            prompt_request(&self.permission_prompt_panes, terminal_pane_id)
        };
        forget_prompt_pane(&mut self.permission_prompt_panes, terminal_pane_id);
        let request_id = match request_id {
            None => {
                return;
            },
            Some(id) => id,
        };
        let ghost pending_before = self.pending_permission_requests@;
        let request = match remove(&mut self.pending_permission_requests, &request_id) {
            None => {
                return;
            },
            Some(q) => q,
        };
        proof {
            let i = choose|i: int|
                0 <= i < pending_before.len() && self.pending_permission_requests@ == pending_before.remove(i);
            lemma_one_request_removed(pending_before, i);
        }
        let pane_text = pane_id_to_string(request.pane_id);
        let ghost verdict = verdict_text(exit_code == Some(0i32), request.token@, request.pane_id);
        let ghost dialog_at = fx@.len() as int;
        if exit_code == Some(0i32) {
            self.grant_pane_permission(&request.token, request.pane_id);
            let mut m = String::from_str("Approved token `");
            m.append(request.token.as_str());
            m.append("` for ");
            m.append(pane_text.as_str());
            m.append(".");
            assert(m@ == verdict);
            self.write_permission_dialog(request.origin_pane_id, m.as_str(), fx);
            let ghost f1 = fx@;
            fx.push(Effect::ContinueCommand { request_id: request_id.clone() });
            assert(fx@[f1.len() as int] == Effect::ContinueCommand { request_id: request_id });
        } else {
            let mut m = String::from_str("Denied token `");
            m.append(request.token.as_str());
            m.append("` for ");
            m.append(pane_text.as_str());
            m.append(".");
            assert(m@ == verdict);
            self.write_permission_dialog(request.origin_pane_id, m.as_str(), fx);
            let ghost before_deny = self.pending_permission_commands@;
            self.deny_pending_permission_command(&request_id, fx);
            proof {
                if lookup(before_deny, request_id@) is Some {
                    assert(answers_error(fx@[fx@.len() - 1], lookup(before_deny, request_id@)->0.pipe_id@, ErrorCode::PermissionDenied));
                }
            }
        }
        let ghost f2 = fx@;
        fx.push(Effect::CloseTerminalPane { id: terminal_pane_id });
        proof {
            if request.origin_pane_id is Some {
                assert(writes_dialog(fx@[dialog_at], request.origin_pane_id->0, verdict));
            }
            if exit_code == Some(0i32) {
                let k = choose|k: int| 0 <= k < f2.len() && f2[k] == (Effect::ContinueCommand { request_id });
                assert(fx@[k] == f2[k]);
            } else if lookup(old(self).pending_permission_commands@, request_id@) is Some {
                let c = lookup(old(self).pending_permission_commands@, request_id@)->0;
                let k = choose|k: int| 0 <= k < f2.len() && answers_error(#[trigger] f2[k], c.pipe_id@, ErrorCode::PermissionDenied);
                assert(fx@[k] == f2[k]);
            }
        }
    }
}

/// The first request pending for `token` and `pane_id`.
pub open spec fn first_pending(
    t: Seq<(String, PanePermissionRequest)>,
    token: Seq<char>,
    pane_id: PaneId,
) -> Option<PanePermissionRequest>
    decreases t.len(),
{
    if t.len() == 0 {
        None
    } else if request_is_for(t[0].1, token, pane_id) {
        Some(t[0].1)
    } else {
        first_pending(t.drop_first(), token, pane_id)
    }
}

/// At most one request is pending for a token's access to a pane: two
/// pending requests for the same token and pane are the same request.
pub proof fn one_pending_request_per_pane(s: QuillPlugin, k1: Seq<char>, k2: Seq<char>)
    requires
        s.wf(),
        lookup(s.pending_permission_requests@, k1) is Some,
        lookup(s.pending_permission_requests@, k2) is Some,
        lookup(s.pending_permission_requests@, k1)->0.token@ == lookup(s.pending_permission_requests@, k2)->0.token@,
        lookup(s.pending_permission_requests@, k1)->0.pane_id == lookup(s.pending_permission_requests@, k2)->0.pane_id,
    ensures
        k1 == k2,
{
    let t = s.pending_permission_requests@;
    let i = choose|i: int| 0 <= i < t.len() && (#[trigger] t[i]).0@ == k1;
    let j = choose|j: int| 0 <= j < t.len() && (#[trigger] t[j]).0@ == k2;
    assert(t[i].1.token@ == t[j].1.token@ && t[i].1.pane_id == t[j].1.pane_id);
}

proof fn lemma_first_pending(
    t: Seq<(String, PanePermissionRequest)>,
    token: Seq<char>,
    pane_id: PaneId,
    i: int,
)
    requires
        0 <= i <= t.len(),
        forall|j: int| 0 <= j < i ==> !request_is_for(#[trigger] t[j].1, token, pane_id),
        i < t.len() ==> request_is_for(t[i].1, token, pane_id),
    ensures
        first_pending(t, token, pane_id) == if i < t.len() {
            Some(t[i].1)
        } else {
            None
        },
    decreases i,
{
    if i > 0 {
        let d = t.drop_first();
        assert(!request_is_for(t[0].1, token, pane_id));
        assert forall|j: int| 0 <= j < i - 1 implies !request_is_for(#[trigger] d[j].1, token, pane_id) by {
            assert(d[j] == t[j + 1]);
        }
        if i < t.len() {
            assert(d[i - 1] == t[i]);
        }
        lemma_first_pending(d, token, pane_id, i - 1);
    }
}

/// The request an access check settles on: the one pending for the token
/// and the pane, or else a new one, from the pane the request comes from. A
/// new request takes the id and time of the prompt the host opened for the
/// same token and pane, if it did, or else an id made of the time and the
/// next request number.
pub open spec fn settled_request(
    s: QuillPlugin,
    facts: HostFacts,
    token: Seq<char>,
    pane_id: PaneId,
    q: PanePermissionRequest,
) -> bool {
    match first_pending(s.pending_permission_requests@, token, pane_id) {
        Some(e) => q == e,
        None => {
            &&& q.token@ == token
            &&& q.pane_id == pane_id
            &&& q.origin_pane_id == s.current_pipe_origin_pane_id
            &&& if facts.prompt is Some && facts.prompt->0.plan.token@ == token && facts.prompt->0.plan.pane_id
                == pane_id {
                q.request_id@ == facts.prompt->0.plan.request_id@ && q.created_at_ms
                    == facts.prompt->0.plan.created_at_ms
            } else {
                q.request_id@ == "perm-"@ + dec(facts.unix_ms as nat) + "-"@ + dec(
                    bumped(s.next_permission_request_id) as nat,
                ) && q.created_at_ms == facts.unix_ms
            }
        },
    }
}

/// An approval prompt pane is open for the request `id`.
pub open spec fn prompt_open(s: QuillPlugin, id: Seq<char>) -> bool {
    exists|j: int|
        0 <= j < s.permission_prompt_panes@.len() && (#[trigger] s.permission_prompt_panes@[j]).1@ == id
}

/// `e` names the terminal pane `t` as the approval prompt.
pub open spec fn names_prompt(e: Effect, t: u32) -> bool {
    e matches Effect::RenamePane { pane_id, name } && pane_id == PaneId::Terminal(t) && name@ == "quill-approval"@
}

/// What the requesting pane is told when no approval prompt could be
/// opened.
pub open spec fn unavailable_text(pane_id: PaneId, token: Seq<char>) -> Seq<char> {
    "Access to "@ + pane_id_text(pane_id) + " requested for token `"@ + token
        + "`.\nCould not open the quill approval prompt pane."@
}

/// How asking for approval of the request `q` comes out. Without a prompt
/// pane open for it, the host is first asked to open one, running the
/// approval prompt. Once a prompt is open, or the host opened a terminal
/// pane for it, the request is pending, the prompt pane is named
/// `quill-approval` and remembered, the requesting pane is told, and the
/// refusal names the request. If the host could not open one, the request
/// is dropped, the requesting pane is told, and approval is unavailable.
pub open spec fn approval_outcome<T>(
    s: QuillPlugin,
    f: QuillPlugin,
    facts: HostFacts,
    q: PanePermissionRequest,
    f0: Seq<Effect>,
    f1: Seq<Effect>,
    r: Flow<ApiResult<T>>,
) -> bool {
    if !prompt_open(s, q.request_id@) && !(facts.prompt is Some && facts.prompt->0.plan.request_id@
        == q.request_id@) {
        f == s && f1 == f0 && (r matches Flow::Need(HostRequest::OpenPrompt { plan }) && prompt_plan_of(q, plan))
    } else {
        let opened = if prompt_open(s, q.request_id@) {
            None
        } else {
            facts.prompt->0.opened
        };
        if prompt_open(s, q.request_id@) || opened matches Some(PaneId::Terminal(_)) {
            &&& r matches Flow::Ready(Err(e)) && e.code == ErrorCode::PermissionRequired && (e.meta matches Some(
                ErrorMeta::Permission { request_id, .. },
            ) && request_id@ == q.request_id@)
            &&& lookup(f.pending_permission_requests@, q.request_id@) == Some(q)
            &&& q.origin_pane_id matches Some(o) ==> exists|i: int|
                0 <= i < f1.len() && writes_dialog(#[trigger] f1[i], o, access_request_text(q.pane_id, q.token@))
            &&& opened matches Some(PaneId::Terminal(t)) ==> (exists|j: int|
                0 <= j < f.permission_prompt_panes@.len() && (#[trigger] f.permission_prompt_panes@[j]).0 == t
                    && f.permission_prompt_panes@[j].1@ == q.request_id@) && (exists|i: int|
                0 <= i < f1.len() && names_prompt(#[trigger] f1[i], t))
        } else {
            &&& r matches Flow::Ready(Err(e)) && e.code == ErrorCode::PermissionUnavailable
            &&& lookup(f.pending_permission_requests@, q.request_id@) is None
            &&& q.origin_pane_id matches Some(o) ==> exists|i: int|
                0 <= i < f1.len() && writes_dialog(#[trigger] f1[i], o, unavailable_text(q.pane_id, q.token@))
        }
    }
}

/// Asking for approval comes out the same whatever a granted access would
/// have carried.
pub proof fn lemma_approval_outcome_same<A, B>(
    s: QuillPlugin,
    f: QuillPlugin,
    facts: HostFacts,
    q: PanePermissionRequest,
    f0: Seq<Effect>,
    f1: Seq<Effect>,
    a: Flow<ApiResult<A>>,
    b: Flow<ApiResult<B>>,
)
    requires
        approval_outcome(s, f, facts, q, f0, f1, a),
        a matches Flow::Need(n) ==> b == Flow::<ApiResult<B>>::Need(n),
        a matches Flow::Ready(Err(e)) ==> b == Flow::<ApiResult<B>>::Ready(Err(e)),
    ensures
        approval_outcome(s, f, facts, q, f0, f1, b),
{
}

/// The same holds of the approval asked for, whatever a granted access
/// would have carried.
pub proof fn lemma_approval_asked_same<A, B>(
    s: QuillPlugin,
    f: QuillPlugin,
    facts: HostFacts,
    provided: Option<Seq<char>>,
    pane_id: PaneId,
    f0: Seq<Effect>,
    f1: Seq<Effect>,
    a: Flow<ApiResult<A>>,
    b: Flow<ApiResult<B>>,
)
    requires
        approval_asked(s, f, facts, provided, pane_id, f0, f1, a),
        a matches Flow::Need(n) ==> b == Flow::<ApiResult<B>>::Need(n),
        a matches Flow::Ready(Err(e)) ==> b == Flow::<ApiResult<B>>::Ready(Err(e)),
        !(a matches Flow::Ready(Ok(_))),
    ensures
        approval_asked(s, f, facts, provided, pane_id, f0, f1, b),
{
    if auth_check(s, facts, provided) == Some(true) {
        if actor_of(s, facts, provided) matches Some(Some(_)) {
            let t = actor_of(s, facts, provided)->0->0;
            if s.enforce_pane_permissions && !s.allowed(t, pane_id) {
                let (q, mid) = choose|q: PanePermissionRequest, mid: QuillPlugin|
                    (mid == s || mid == after_auth_lookup(s, facts)) && settled_request(s, facts, t, pane_id, q)
                        && #[trigger] approval_outcome(mid, f, facts, q, f0, f1, a);
                lemma_approval_outcome_same(mid, f, facts, q, f0, f1, a, b);
            }
        }
    }
}

/// When the token a request acts with passes the check but may not access
/// `pane_id`, the request comes out as asking for approval of the request it
/// settles on says (`approval_outcome`), from the plugin as it was or as it
/// is once it looked for the session's token.
pub open spec fn approval_asked<T>(
    s: QuillPlugin,
    f: QuillPlugin,
    facts: HostFacts,
    provided: Option<Seq<char>>,
    pane_id: PaneId,
    f0: Seq<Effect>,
    f1: Seq<Effect>,
    r: Flow<ApiResult<T>>,
) -> bool {
    auth_check(s, facts, provided) == Some(true) ==> (actor_of(s, facts, provided) matches Some(Some(t)) ==> (
    s.enforce_pane_permissions && !s.allowed(t, pane_id) ==> exists|q: PanePermissionRequest, mid: QuillPlugin|
        (mid == s || mid == after_auth_lookup(s, facts)) && settled_request(s, facts, t, pane_id, q)
            && #[trigger] approval_outcome(mid, f, facts, q, f0, f1, r)))
}

/// What the requesting pane is told when its token's access to a pane
/// waits for approval.
pub open spec fn access_request_text(pane_id: PaneId, token: Seq<char>) -> Seq<char> {
    "Access to "@ + pane_id_text(pane_id) + " requested for token `"@ + token
        + "`.\nApprove in the quill permission prompt."@
}

/// The refusal `e` names a pending request, and the pane the request came
/// from, if it is known, was shown in `fx` that approval is asked for.
pub open spec fn approval_dialog_written(f: QuillPlugin, fx: Seq<Effect>, e: ApiError) -> bool {
    e.meta matches Some(ErrorMeta::Permission { request_id, .. }) && lookup(
        f.pending_permission_requests@,
        request_id@,
    ) matches Some(q) && (q.origin_pane_id matches Some(o) ==> exists|i: int|
        0 <= i < fx.len() && writes_dialog(#[trigger] fx[i], o, access_request_text(q.pane_id, q.token@)))
}

/// What the requesting pane is told of a verdict on its token's access to
/// a pane.
pub open spec fn verdict_text(approved: bool, token: Seq<char>, pane_id: PaneId) -> Seq<char> {
    (if approved {
        "Approved token `"@
    } else {
        "Denied token `"@
    }) + token + "` for "@ + pane_id_text(pane_id) + "."@
}

/// `e` writes the permission dialog showing `message` into `pane`.
pub open spec fn writes_dialog(e: Effect, pane: PaneId, message: Seq<char>) -> bool {
    e matches Effect::WriteChars { pane_id, text } && pane_id == pane && text@ == dialog_text(message)
}

/// The pending request an ended approval prompt answers: the one its context
/// names, or else the one the prompt pane was opened for.
pub open spec fn prompted_request(
    s: QuillPlugin,
    terminal_pane_id: u32,
    context: Seq<(String, String)>,
) -> Option<PanePermissionRequest> {
    match (if arg_lookup(context, PERMISSION_REQUEST_CONTEXT_KEY@) is Some {
        arg_lookup(context, PERMISSION_REQUEST_CONTEXT_KEY@)
    } else {
        prompt_of(s.permission_prompt_panes@, terminal_pane_id)
    }) {
        Some(id) => lookup(s.pending_permission_requests@, id@),
        None => None,
    }
}

/// What the end of an approval prompt does. The request it answers is named
/// in the event's context, or else is the one the prompt pane was opened
/// for; the prompt pane is forgotten either way. A pending request is
/// settled: on exit code 0 its token may access its pane and the command
/// that waited for it is continued; on any other code the waiting command is
/// refused. The prompt pane is closed last.
pub open spec fn prompt_exit_outcome(
    before: QuillPlugin,
    after: QuillPlugin,
    terminal_pane_id: u32,
    exit_code: Option<i32>,
    context: Seq<(String, String)>,
    f0: Seq<Effect>,
    f1: Seq<Effect>,
) -> bool {
    &&& forall|j: int|
        0 <= j < after.permission_prompt_panes@.len() ==> (#[trigger] after.permission_prompt_panes@[j]).0 != terminal_pane_id
    &&& match (if arg_lookup(context, PERMISSION_REQUEST_CONTEXT_KEY@) is Some {
        arg_lookup(context, PERMISSION_REQUEST_CONTEXT_KEY@)
    } else {
        prompt_of(before.permission_prompt_panes@, terminal_pane_id)
    }) {
        None => after.pending_permission_requests@ == before.pending_permission_requests@ && after.token_pane_permissions == before.token_pane_permissions && f1 == f0,
        Some(id) => match lookup(before.pending_permission_requests@, id@) {
            None => after.pending_permission_requests@ == before.pending_permission_requests@ && after.token_pane_permissions == before.token_pane_permissions && f1 == f0,
            Some(q) => {
                &&& lookup(after.pending_permission_requests@, id@) is None
                &&& f1.len() > f0.len()
                &&& f1.last() == Effect::CloseTerminalPane { id: terminal_pane_id }
                &&& exit_code == Some(0i32) ==> after.allowed(q.token@, q.pane_id)
                    && forall|t: Seq<char>, p: PaneId|
                    !(t == q.token@ && p == q.pane_id) ==> #[trigger] after.allowed(t, p)
                        == before.allowed(t, p)
                &&& exit_code == Some(0i32) ==> f1.contains(
                    Effect::ContinueCommand { request_id: id },
                )
                &&& exit_code != Some(0i32) ==> after.token_pane_permissions == before.token_pane_permissions
                &&& exit_code != Some(0i32) ==> lookup(after.pending_permission_commands@, id@) is None
                &&& exit_code != Some(0i32) ==> (lookup(before.pending_permission_commands@, id@) matches Some(c)
                    ==> error_answered(f1, c.pipe_id@, ErrorCode::PermissionDenied))
                &&& q.origin_pane_id matches Some(o) ==> exists|i: int|
                    0 <= i < f1.len() && writes_dialog(
                        #[trigger] f1[i],
                        o,
                        verdict_text(exit_code == Some(0i32), q.token@, q.pane_id),
                    )
            },
        },
    }
}

/// The pane a pipe message comes from: named by its `ZELLIJ_PANE_ID`,
/// `zellij_pane_id` or `pane_id` argument, the first that is there, or else
/// by the plugin's own environment.
pub open spec fn message_origin(pipe_message: PipeMessage, facts: HostFacts) -> Option<PaneId> {
    match (if arg_lookup(pipe_message.args@, ORIGIN_PANE_ENV_VAR@) is Some {
        arg_lookup(pipe_message.args@, ORIGIN_PANE_ENV_VAR@)
    } else if arg_lookup(pipe_message.args@, "zellij_pane_id"@) is Some {
        arg_lookup(pipe_message.args@, "zellij_pane_id"@)
    } else if arg_lookup(pipe_message.args@, "pane_id"@) is Some {
        arg_lookup(pipe_message.args@, "pane_id"@)
    } else {
        facts.origin_env
    }) {
        Some(v) => origin_pane_of(v@),
        None => None,
    }
}

} // verus!
