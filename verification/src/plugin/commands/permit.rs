//! Pending permission requests: `permit`.
use super::super::permissions::clone_request;
use super::super::QuillPlugin;
use super::{human_text, human_view};
use crate::error::{ApiError, ApiResult, ErrorCode};
use crate::response::{CommandOutcome, Payload};
use crate::text::{chars_of, dec, decimal, eq_str};
use crate::types::PanePermissionRequest;
use vstd::prelude::*;

verus! {

/// Requests come in the order they were made.
pub open spec fn requests_sorted(v: Seq<PanePermissionRequest>) -> bool {
    forall|i: int, j: int|
        0 <= i < j < v.len() ==> (#[trigger] v[i]).created_at_ms <= (#[trigger] v[j]).created_at_ms
}

/// The requests of a table, in its order.
pub open spec fn table_values(t: Seq<(String, PanePermissionRequest)>) -> Seq<PanePermissionRequest> {
    t.map_values(|e: (String, PanePermissionRequest)| e.1)
}

/// The human text of `permit`.
pub open spec fn permit_text(n: nat) -> Seq<char> {
    "pending permission requests: "@ + dec(n) + " (approve in quill UI)"@
}

fn insert_by_time(v: &mut Vec<PanePermissionRequest>, q: PanePermissionRequest)
    requires
        requests_sorted(old(v)@),
    ensures
        requests_sorted(final(v)@),
        final(v)@.to_multiset() == old(v)@.to_multiset().insert(q),
{
    let mut i: usize = 0;
    while i < v.len() && v[i].created_at_ms <= q.created_at_ms
        invariant
            i <= v@.len(),
            v@ == old(v)@,
            forall|k: int| 0 <= k < i ==> (#[trigger] v@[k]).created_at_ms <= q.created_at_ms,
        decreases v@.len() - i,
    {
        i = i + 1;
    }
    proof {
        vstd::seq_lib::to_multiset_insert(v@, i as int, q);
    }
    let ghost before = v@;
    v.insert(i, q);
    assert forall|a: int, b: int| 0 <= a < b < v@.len() implies (#[trigger] v@[a]).created_at_ms
        <= (#[trigger] v@[b]).created_at_ms by {
        if b < i {
        } else if b == i {
        } else if a < i {
            assert(v@[b] == before[b - 1]);
        } else if a == i {
            assert(v@[b] == before[b - 1]);
            assert(before[i as int].created_at_ms > q.created_at_ms);
        } else {
            assert(v@[a] == before[a - 1]);
            assert(v@[b] == before[b - 1]);
        }
    }
}

/// What `permit` does: lists the pending permission requests; granting from the
/// command line is refused.
pub open spec fn permit_outcome(
    before: QuillPlugin,
    args: Vec<String>,
    r: ApiResult<CommandOutcome>,
) -> bool {
    &&& (exists|i: int| 0 <= i < args@.len() && args@[i]@ != "--json"@) ==> (r matches Err(e)
        && e.code == ErrorCode::PermitDisabled && e.message@ == "CLI permission grants are disabled"@)
    &&& (forall|i: int| 0 <= i < args@.len() ==> args@[i]@ == "--json"@) ==> (r matches Ok(
        CommandOutcome::Immediate { json_only, human, payload: Payload::Permit { pending } },
    ) && json_only == (args@.len() > 0) && requests_sorted(pending@)
        && pending@.to_multiset() == table_values(before.pending_permission_requests@).to_multiset()
        && human_view(human) == human_text(json_only, permit_text(pending@.len())))
}

impl QuillPlugin {
    /// `permit`: the permission requests awaiting approval, oldest first.
    /// Granting from the command line is refused: approval goes through the
    /// prompt.
    pub fn cmd_permit(&self, args: &Vec<String>) -> (r: ApiResult<CommandOutcome>)
        ensures
            permit_outcome(
                *self,
                *args,
                r,
            ),
    {
        let mut json_only = false;
        let mut i: usize = 0;
        while i < args.len()
            invariant
                i <= args@.len(),
                forall|k: int| 0 <= k < i ==> args@[k]@ == "--json"@,
                json_only == (i > 0),
            decreases args@.len() - i,
        {
            let a = chars_of(args[i].as_str());
            if eq_str(&a, "--json") {
                json_only = true;
            } else {
                return Err(
                    ApiError::with_text(
                        ErrorCode::PermitDisabled,
                        "CLI permission grants are disabled",
                    ).hint("Use the quill permission prompt UI to approve or deny requests."),
                );
            }
            i = i + 1;
        }
        let t = &self.pending_permission_requests;
        let mut pending: Vec<PanePermissionRequest> = Vec::new();
        let mut k: usize = 0;
        proof {
            assert(table_values(t@).take(0) =~= pending@);
        }
        while k < t.len()
            invariant
                k <= t@.len(),
                requests_sorted(pending@),
                pending@.to_multiset() == table_values(t@).take(k as int).to_multiset(),
            decreases t@.len() - k,
        {
            let q = clone_request(&t[k].1);
            proof {
                assert(table_values(t@).take(k + 1) =~= table_values(t@).take(k as int).push(q));
                vstd::seq_lib::to_multiset_build(table_values(t@).take(k as int), q);
            }
            insert_by_time(&mut pending, q);
            k = k + 1;
        }
        assert(table_values(t@).take(t@.len() as int) =~= table_values(t@));
        let human = if json_only {
            None
        } else {
            let mut s = String::from_str("pending permission requests: ");
            let n = decimal(pending.len() as u128);
            s.append(n.as_str());
            s.append(" (approve in quill UI)");
            Some(s)
        };
        Ok(CommandOutcome::Immediate { json_only, human, payload: Payload::Permit { pending } })
    }
}

} // verus!
