//! The commands the plugin answers.
use super::permissions::{
    actor_of, after_auth_lookup, approval_asked, approval_dialog_written, auth_check, names_pending,
    prompt_exit_outcome, prompted_request,
};
use super::state::bumped;
use crate::table::{has_key, lookup};
use crate::text::{dec, lemma_dec_digits};
use super::QuillPlugin;
use crate::error::{ApiResult, ErrorCode};
use crate::host::{Effect, Flow, HostFacts, HostRequest};
use crate::response::CommandOutcome;
use crate::types::{PaneId, PanePermissionRequest};
use vstd::prelude::*;

pub mod listing;
pub mod marks;
pub mod pane_io;
pub mod permit;
pub mod process;
pub mod search;

verus! {

/// The plugin is as it was, but for the token it may have read from the
/// session's environment.
pub open spec fn kept(before: QuillPlugin, after: QuillPlugin, facts: HostFacts) -> bool {
    after == before || after == after_auth_lookup(before, facts)
}

/// The plugin is kept, and no effect was added.
pub open spec fn left_alone(
    before: QuillPlugin,
    after: QuillPlugin,
    facts: HostFacts,
    f0: Seq<Effect>,
    f1: Seq<Effect>,
) -> bool {
    &&& kept(before, after, facts)
    &&& f1 == f0
}

/// Every job's id was made by the job counter: `job-` and a number from one
/// up to the counter.
pub open spec fn job_ids_issued(s: QuillPlugin) -> bool {
    forall|k: Seq<char>|
        #[trigger] has_key(s.jobs@, k) ==> exists|n: nat| 1 <= n <= s.next_job_id && k == "job-"@ + dec(n)
}

/// `after` is `before` with a job added under `id`, the counter's next
/// number: no other job changes, and nothing else does but the counter (and
/// the token read from the session's environment). The id is new when every
/// job's id came from the counter and the counter has not run out.
pub open spec fn job_added(before: QuillPlugin, after: QuillPlugin, facts: HostFacts, id: Seq<char>) -> bool {
    &&& kept(before, QuillPlugin { jobs: before.jobs, next_job_id: before.next_job_id, ..after }, facts)
    &&& after.next_job_id == bumped(before.next_job_id)
    &&& id == "job-"@ + dec(after.next_job_id as nat)
    &&& forall|k: Seq<char>| k != id ==> #[trigger] lookup(after.jobs@, k) == lookup(before.jobs@, k)
    &&& forall|k: Seq<char>| #[trigger] has_key(after.jobs@, k) == (k == id || has_key(before.jobs@, k))
    &&& job_ids_issued(before) && before.next_job_id < u64::MAX ==> !has_key(before.jobs@, id)
        && job_ids_issued(after)
}

/// A job added under the counter's next number takes an id no job had, and
/// every id is still one the counter made.
pub proof fn lemma_job_id_fresh(s: QuillPlugin, f: QuillPlugin, id: Seq<char>)
    requires
        job_ids_issued(s),
        s.next_job_id < u64::MAX,
        f.next_job_id == s.next_job_id + 1,
        id == "job-"@ + dec(f.next_job_id as nat),
        forall|k: Seq<char>| #[trigger] has_key(f.jobs@, k) == (k == id || has_key(s.jobs@, k)),
    ensures
        !has_key(s.jobs@, id),
        job_ids_issued(f),
{
    if has_key(s.jobs@, id) {
        let n = choose|n: nat| 1 <= n <= s.next_job_id && id == "job-"@ + dec(n);
        reveal_strlit("job-");
        assert(dec(n) =~= id.subrange(4, id.len() as int));
        assert(dec(f.next_job_id as nat) =~= id.subrange(4, id.len() as int));
        lemma_dec_digits(n);
        lemma_dec_digits(f.next_job_id as nat);
    }
    assert forall|k: Seq<char>| #[trigger] has_key(f.jobs@, k) implies exists|n: nat|
        1 <= n <= f.next_job_id && k == "job-"@ + dec(n) by {
        if k == id {
            assert(1 <= f.next_job_id as nat <= f.next_job_id && k == "job-"@ + dec(f.next_job_id as nat));
        } else {
            assert(has_key(s.jobs@, k));
            let n = choose|n: nat| 1 <= n <= s.next_job_id && k == "job-"@ + dec(n);
            assert(1 <= n <= f.next_job_id && k == "job-"@ + dec(n));
        }
    }
}

/// The token check passes and the token the request acts with may access
/// the pane.
pub open spec fn access_granted(
    s: QuillPlugin,
    facts: HostFacts,
    provided: Option<Seq<char>>,
    pane_id: PaneId,
) -> bool {
    auth_check(s, facts, provided) == Some(true) && match actor_of(s, facts, provided) {
        None => false,
        Some(None) => !s.enforce_pane_permissions,
        Some(Some(t)) => !s.enforce_pane_permissions || s.allowed(t, pane_id),
    }
}

/// A request whose token may not access `pane_id`, refused as the
/// permission check refuses it (`access_result`): the host is asked for what
/// the check needs, or the request is refused as unauthorized, or it waits
/// for an approval that was just asked for, and its pane was told so in
/// `fx`, or no approval could be asked.
pub open spec fn access_refused(
    s: QuillPlugin,
    f: QuillPlugin,
    facts: HostFacts,
    provided: Option<Seq<char>>,
    pane_id: PaneId,
    f0: Seq<Effect>,
    fx: Seq<Effect>,
    r: Flow<ApiResult<CommandOutcome>>,
) -> bool {
    &&& approval_asked(s, f, facts, provided, pane_id, f0, fx, r)
    &&& match auth_check(s, facts, provided) {
        None => r matches Flow::Need(HostRequest::SessionEnv),
        Some(false) => r matches Flow::Ready(Err(e)) && e.code == ErrorCode::Unauthorized,
        Some(true) => match actor_of(s, facts, provided) {
            None => r matches Flow::Need(HostRequest::SessionEnv),
            Some(None) => r matches Flow::Ready(Err(e)) && e.code == ErrorCode::Unauthorized,
            Some(Some(t)) => match r {
                Flow::Ready(Ok(_)) => false,
                Flow::Ready(Err(e)) => (e.code == ErrorCode::PermissionRequired && names_pending(f, e, t, pane_id)
                    && approval_dialog_written(f, fx, e)) || e.code == ErrorCode::PermissionUnavailable,
                Flow::Need(n) => n matches HostRequest::OpenPrompt { plan } && plan.token@ == t && plan.pane_id == pane_id,
            },
        },
    }
}

/// Once the token a request acts with may access a pane, the request gets
/// through to it; with pane permissions off, any request that passes the
/// token check does.
pub proof fn granted_token_gets_through(
    s: QuillPlugin,
    facts: HostFacts,
    provided: Option<Seq<char>>,
    pane_id: PaneId,
    t: Seq<char>,
)
    requires
        auth_check(s, facts, provided) == Some(true),
        actor_of(s, facts, provided) == Some(Some(t)),
        s.allowed(t, pane_id) || !s.enforce_pane_permissions,
    ensures
        access_granted(s, facts, provided, pane_id),
{
}

/// The human text of an answer: none when only JSON is asked for.
pub open spec fn human_text(json_only: bool, text: Seq<char>) -> Option<Seq<char>> {
    if json_only {
        None
    } else {
        Some(text)
    }
}

pub open spec fn human_view(h: Option<String>) -> Option<Seq<char>> {
    match h {
        Some(s) => Some(s@),
        None => None,
    }
}

pub open spec fn text_view(o: Option<String>) -> Option<Seq<char>> {
    match o {
        Some(s) => Some(s@),
        None => None,
    }
}

/// Once the approval prompt for a request ends with exit code 0, the
/// request's token gets through to the request's pane: a command that waited
/// for it passes the permission check when it runs again with that token.
pub proof fn approved_token_gets_through(
    before: QuillPlugin,
    after: QuillPlugin,
    terminal_pane_id: u32,
    context: Seq<(String, String)>,
    f0: Seq<Effect>,
    f1: Seq<Effect>,
    q: PanePermissionRequest,
    facts: HostFacts,
    provided: Option<Seq<char>>,
)
    requires
        prompt_exit_outcome(before, after, terminal_pane_id, Some(0i32), context, f0, f1),
        prompted_request(before, terminal_pane_id, context) == Some(q),
        auth_check(after, facts, provided) == Some(true),
        actor_of(after, facts, provided) == Some(Some(q.token@)),
    ensures
        access_granted(after, facts, provided, q.pane_id),
{
}

} // verus!
