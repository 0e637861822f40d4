//! Jobs that answer later: waits, background commands and spawned panes.
use super::commands::human_view;
use super::commands::search::{sat_add, saturating_sum};
use super::pane::scrollback_for;
use super::permissions::{arg_lookup, arg_value};
use super::state::manifest_has;
use super::commands::search::{wait_sample, wait_satisfied};
use super::pane::pane_lines_of;
use super::{Job, QuillPlugin, SpawnJob, WaitJob, REQUEST_ID_KEY};
use crate::text::strs;
use crate::error::{ApiError, ErrorCode, ErrorMeta};
use crate::host::{
    answers_error, answers_match, error_answered, extends, lemma_extends_trans, match_answered,
    no_timer_added, Effect, Flow, HostFacts, HostRequest,
};
use crate::response::Payload;
use crate::table::{has_key, insert, keys_unique, lookup, remove};
use crate::types::{PaneContents, PaneId, PaneManifest, PaneInfo};
use crate::util::{lossy_text, utf8_lossy};
use vstd::prelude::*;

verus! {

/// A pane that the manifest reports.
pub open spec fn known(m: Option<PaneManifest>, p: PaneId) -> bool {
    m matches Some(mm) && manifest_has(mm, p)
}

/// Whether the pane a spawn job waits for has shown up: the one it expects,
/// or, when it expects none, any pane that was not there before.
pub open spec fn spawn_done(j: SpawnJob, m: Option<PaneManifest>) -> bool {
    match j.expected_pane_id {
        Some(e) => known(m, e),
        None => exists|p: PaneId| known(m, p) && !j.baseline_panes@.contains(p),
    }
}

/// When a job gives up.
pub open spec fn job_deadline(j: Job) -> u128 {
    match j {
        Job::Wait(w) => w.deadline,
        Job::Exec(e) => e.deadline,
        Job::Spawn(s) => s.deadline,
    }
}

/// The keys of a table, in order.
fn table_keys<V>(t: &Vec<(String, V)>) -> (r: Vec<String>)
    ensures
        r@.len() == t@.len(),
        forall|i: int| 0 <= i < t@.len() ==> (#[trigger] r@[i])@ == t@[i].0@,
{
    let mut out: Vec<String> = Vec::new();
    let mut i: usize = 0;
    while i < t.len()
        invariant
            i <= t@.len(),
            out@.len() == i,
            forall|k: int| 0 <= k < i ==> (#[trigger] out@[k])@ == t@[k].0@,
        decreases t@.len() - i,
    {
        out.push(t[i].0.clone());
        i = i + 1;
    }
    out
}

/// The first pane of `known` that is not among `baseline`.
fn first_new_pane(known: &Vec<PaneId>, baseline: &Vec<PaneId>) -> (r: Option<PaneId>)
    ensures
        match r {
            Some(p) => known@.contains(p) && !baseline@.contains(p),
            None => forall|p: PaneId| known@.contains(p) ==> baseline@.contains(p),
        },
{
    let mut i: usize = 0;
    while i < known.len()
        invariant
            i <= known@.len(),
            forall|k: int| 0 <= k < i ==> baseline@.contains(#[trigger] known@[k]),
        decreases known@.len() - i,
    {
        let p = known[i];
        let mut j: usize = 0;
        let mut found = false;
        while j < baseline.len()
            invariant
                j <= baseline@.len(),
                found ==> baseline@.contains(p),
                !found ==> forall|k: int| 0 <= k < j ==> baseline@[k] != p,
            decreases baseline@.len() - j,
        {
            if baseline[j] == p {
                found = true;
                assert(baseline@[j as int] == p);
            }
            j = j + 1;
        }
        if !found {
            assert(known@[i as int] == p);
            return Some(p);
        }
        i = i + 1;
    }
    assert forall|p: PaneId| known@.contains(p) implies baseline@.contains(p) by {
        let k = choose|k: int| 0 <= k < known@.len() && known@[k] == p;
    }
    None
}

fn contains_pane(v: &Vec<PaneId>, p: PaneId) -> (r: bool)
    ensures
        r == v@.contains(p),
{
    let mut i: usize = 0;
    while i < v.len()
        invariant
            i <= v@.len(),
            forall|k: int| 0 <= k < i ==> v@[k] != p,
        decreases v@.len() - i,
    {
        if v[i] == p {
            assert(v@[i as int] == p);
            return true;
        }
        i = i + 1;
    }
    false
}

/// `e` completes the spawn job `j`: it answers the job's pipe, releasing
/// it, with a pane the manifest `m` reports, the one the job expected or, if
/// it expected none, one that was not there before; in `s` the job's token
/// may access that pane.
pub open spec fn answers_spawn(e: Effect, j: SpawnJob, m: Option<PaneManifest>, s: QuillPlugin) -> bool {
    e matches Effect::Respond {
        pipe_id,
        json_only,
        human,
        payload: Payload::Spawned { pane_id: Some(p), waited },
        unblock,
    } && pipe_id@ == j.pipe_id@ && json_only == j.json_only && human_view(human) == Some(
        "spawn completed"@,
    ) && waited && unblock && known(m, p) && match j.expected_pane_id {
        Some(x) => p == x,
        None => !j.baseline_panes@.contains(p),
    } && (j.token matches Some(t) ==> s.allowed(t@, p))
}

/// Something in `fx` completes the spawn job `j`.
pub open spec fn spawn_answered(fx: Seq<Effect>, j: SpawnJob, m: Option<PaneManifest>, s: QuillPlugin) -> bool {
    exists|i: int| 0 <= i < fx.len() && answers_spawn(#[trigger] fx[i], j, m, s)
}

/// A completion stays sent when more is sent, and stays true while
/// permissions are only added.
pub proof fn lemma_spawn_answered_kept(
    f: Seq<Effect>,
    g: Seq<Effect>,
    j: SpawnJob,
    m: Option<PaneManifest>,
    s: QuillPlugin,
    t: QuillPlugin,
)
    requires
        spawn_answered(f, j, m, s),
        extends(f, g),
        forall|tk: Seq<char>, p: PaneId| #[trigger] s.allowed(tk, p) ==> t.allowed(tk, p),
    ensures
        spawn_answered(g, j, m, t),
{
    let i = choose|i: int| 0 <= i < f.len() && answers_spawn(#[trigger] f[i], j, m, s);
    assert(g[i] == f[i]);
    assert(answers_spawn(g[i], j, m, t));
}

impl QuillPlugin {
    /// Finishes the spawn jobs whose pane has shown up: the job's token may
    /// access the pane, and the job's pipe is answered.
    pub fn resolve_spawn_jobs(&mut self, fx: &mut Vec<Effect>)
        requires
            old(self).wf(),
        ensures
            final(self).wf(),
            extends(old(fx)@, final(fx)@),
            no_timer_added(old(fx)@, final(fx)@),
            final(self).pane_manifest == old(self).pane_manifest,
            final(self).marks == old(self).marks,
            final(self).exec_jobs_by_request_id == old(self).exec_jobs_by_request_id,
            final(self).pending_permission_requests == old(self).pending_permission_requests,
            final(self).pending_permission_commands == old(self).pending_permission_commands,
            forall|k: Seq<char>| #[trigger] has_key(final(self).jobs@, k) ==> has_key(old(self).jobs@, k),
            forall|k: Seq<char>|
                #[trigger] lookup(old(self).jobs@, k) matches Some(Job::Spawn(j)) && spawn_done(
                    j,
                    old(self).pane_manifest,
                ) ==> !has_key(final(self).jobs@, k),
            forall|k: Seq<char>|
                !(lookup(old(self).jobs@, k) matches Some(Job::Spawn(j)) && spawn_done(
                    j,
                    old(self).pane_manifest,
                )) ==> #[trigger] lookup(final(self).jobs@, k) == lookup(old(self).jobs@, k),
            forall|k: Seq<char>|
                #[trigger] lookup(old(self).jobs@, k) matches Some(Job::Spawn(j)) ==> (spawn_done(
                    j,
                    old(self).pane_manifest,
                ) ==> spawn_answered(final(fx)@, j, old(self).pane_manifest, *final(self))),
    {
        let known_panes = self.collect_known_pane_ids();
        let keys = table_keys(&self.jobs);
        let ghost old_jobs = self.jobs@;
        let mut i: usize = 0;
        while i < keys.len()
            invariant
                i <= keys@.len(),
                keys@.len() == old_jobs.len(),
                keys_unique(old_jobs),
                forall|a: int| 0 <= a < old_jobs.len() ==> (#[trigger] keys@[a])@ == old_jobs[a].0@,
                self.wf(),
                old(self).wf(),
                old_jobs == old(self).jobs@,
                extends(old(fx)@, fx@),
                no_timer_added(old(fx)@, fx@),
                self.pane_manifest == old(self).pane_manifest,
                self.marks == old(self).marks,
                self.exec_jobs_by_request_id == old(self).exec_jobs_by_request_id,
                self.pending_permission_requests == old(self).pending_permission_requests,
                self.pending_permission_commands == old(self).pending_permission_commands,
                forall|p: PaneId| #[trigger] known_panes@.contains(p) <==> known(old(self).pane_manifest, p),
                forall|k: Seq<char>| #[trigger] has_key(self.jobs@, k) ==> has_key(old_jobs, k),
                forall|a: int|
                    0 <= a < i && (#[trigger] lookup(old_jobs, keys@[a]@) matches Some(Job::Spawn(j))
                        && spawn_done(j, old(self).pane_manifest)) ==> !has_key(self.jobs@, keys@[a]@),
                forall|k: Seq<char>|
                    !(lookup(old_jobs, k) matches Some(Job::Spawn(j)) && spawn_done(
                        j,
                        old(self).pane_manifest,
                    )) ==> #[trigger] lookup(self.jobs@, k) == lookup(old_jobs, k),
                forall|a: int| i <= a < keys@.len() ==> #[trigger] lookup(self.jobs@, keys@[a]@) == lookup(old_jobs, keys@[a]@),
                forall|a: int|
                    0 <= a < i ==> ((#[trigger] old_jobs[a]).1 matches Job::Spawn(j) ==> (spawn_done(
                        j,
                        old(self).pane_manifest,
                    ) ==> spawn_answered(fx@, j, old(self).pane_manifest, *self))),
            decreases keys@.len() - i,
        {
            let key = &keys[i];
            proof {
                crate::table::lemma_lookup_at(old_jobs, i as int);
            }
            let done: Option<PaneId> = match crate::table::position(&self.jobs, key) {
                None => None,
                Some(at) => match &self.jobs[at].1 {
                    Job::Spawn(sj) => match sj.expected_pane_id {
                        Some(e) => if contains_pane(&known_panes, e) {
                            Some(e)
                        } else {
                            None
                        },
                        None => first_new_pane(&known_panes, &sj.baseline_panes),
                    },
                    _ => None,
                },
            };
            proof {
                match lookup(old_jobs, key@) {
                    Some(Job::Spawn(j)) => {
                        if spawn_done(j, old(self).pane_manifest) {
                            if j.expected_pane_id is None {
                                let p = choose|p: PaneId| known(old(self).pane_manifest, p) && !j.baseline_panes@.contains(p);
                                assert(known_panes@.contains(p));
                            }
                        }
                    },
                    _ => {},
                }
            }
            assert(done is Some <==> (lookup(old_jobs, key@) matches Some(Job::Spawn(j)) && spawn_done(j, old(self).pane_manifest)));
            match done {
                None => {},
                Some(p) => {
                    let ghost before = self.jobs@;
                    let removed = remove(&mut self.jobs, key);
                    match removed {
                        Some(Job::Spawn(sj)) => {
                            match &sj.token {
                                Some(t) => {
                                    self.grant_pane_permission(t, p);
                                },
                                None => {},
                            }
                            let ghost f0 = fx@;
                            self.send_response(
                                Some(sj.pipe_id.as_str()),
                                sj.json_only,
                                Some(String::from_str("spawn completed")),
                                Payload::Spawned { pane_id: Some(p), waited: true },
                                true,
                                fx,
                            );
                            proof {
                                assert(extends(f0, fx@));
                                lemma_extends_trans(old(fx)@, f0, fx@);
                            }
                        },
                        _ => {},
                    }
                    proof {
                        assert forall|a: int| i < a < keys@.len() implies #[trigger] lookup(self.jobs@, keys@[a]@) == lookup(old_jobs, keys@[a]@) by {
                            assert(keys@[a]@ == old_jobs[a].0@);
                            assert(keys@[i as int]@ == old_jobs[i as int].0@);
                            assert(old_jobs[i as int].0@ != old_jobs[a].0@);
                        }
                    }
                },
            }
            i = i + 1;
        }
        assert forall|k: Seq<char>|
            #[trigger] lookup(old(self).jobs@, k) matches Some(Job::Spawn(j)) && spawn_done(
                j,
                old(self).pane_manifest,
            ) implies !has_key(self.jobs@, k) by {
            let a = choose|a: int| 0 <= a < old_jobs.len() && (#[trigger] old_jobs[a]).0@ == k;
            assert(keys@[a]@ == k);
            assert(lookup(old_jobs, keys@[a]@) == lookup(old_jobs, k));
        }
    }
}


/// A wait that is due for a look: not timed out, and its next look is not
/// in the future.
pub open spec fn wait_due(j: Job, now: u128) -> bool {
    j matches Job::Wait(w) && now < w.deadline && now >= w.next_poll_at
}

/// The pipe a job answers on.
pub open spec fn job_pipe(j: Job) -> Seq<char> {
    match j {
        Job::Wait(w) => w.pipe_id@,
        Job::Exec(e) => e.pipe_id@,
        Job::Spawn(s) => s.pipe_id@,
    }
}

/// The lines a wait looks at in the pane contents `c`.
pub open spec fn wait_job_sample(w: WaitJob, c: PaneContents) -> Seq<Seq<char>> {
    wait_sample(
        pane_lines_of(c, true),
        match w.since_line_count {
            Some(n) => Some(n as nat),
            None => None,
        },
        w.window as nat,
        w.last_n as nat,
    )
}

/// What one timer tick does to the job `j`: `after` is what is stored under
/// its key afterwards, `fx` what was sent. A job whose deadline has come is
/// dropped with a timeout answer. A wait that is due is looked at: a match,
/// or an unreadable pane, answers it and drops it; no match puts its next
/// look one interval from now. Every other job stays as it was.
pub open spec fn tick_outcome(
    j: Job,
    now: u128,
    scrollbacks: Seq<(PaneId, Result<PaneContents, String>)>,
    after: Option<Job>,
    fx: Seq<Effect>,
) -> bool {
    if job_deadline(j) <= now {
        after is None && error_answered(fx, job_pipe(j), ErrorCode::Timeout)
    } else {
        match j {
            Job::Wait(w) => if now < w.next_poll_at {
                after == Some(j)
            } else {
                match scrollback_for(scrollbacks, w.pane_id) {
                    None => after == Some(j),
                    Some(Err(_)) => after is None && error_answered(
                        fx,
                        w.pipe_id@,
                        ErrorCode::ScrollbackError,
                    ),
                    Some(Ok(c)) => {
                        let sample = wait_job_sample(w, c);
                        if wait_satisfied(sample, w.regex.pattern(), w.regex.ignore_case(), w.mode) {
                            after is None && match_answered(fx, w.pipe_id@, w.pane_id, sample)
                        } else {
                            after == Some(
                                Job::Wait(WaitJob { next_poll_at: sat_add(now, w.interval), ..w }),
                            )
                        }
                    },
                }
            },
            _ => after == Some(j),
        }
    }
}

/// What a timer tick does to the jobs of `before`, leaving those of
/// `after` and sending `fx`: each job fares as `tick_outcome` says, but for
/// spawn jobs whose pane has shown up, which end with their answer.
pub open spec fn tick_result(
    before: QuillPlugin,
    after: QuillPlugin,
    now: u128,
    scrollbacks: Seq<(PaneId, Result<PaneContents, String>)>,
    fx: Seq<Effect>,
) -> bool {
    forall|k: Seq<char>|
        #[trigger] lookup(before.jobs@, k) matches Some(j) ==> if spawn_resolves(j, now, before.pane_manifest) {
            !has_key(after.jobs@, k) && spawn_answered(fx, j->Spawn_0, before.pane_manifest, after)
        } else {
            tick_outcome(j, now, scrollbacks, lookup(after.jobs@, k), fx)
        }
}

/// Among the first `n` jobs of `t`, an exec job past its deadline at `now`
/// waits for the request `rid`.
pub open spec fn exec_expired_in(t: Seq<(String, Job)>, n: int, now: u128, rid: Seq<char>) -> bool {
    exists|a: int| 0 <= a < n && expired_exec_for(#[trigger] t[a], now, rid)
}

/// The job is an exec job past its deadline at `now`, waiting for `rid`.
pub open spec fn expired_exec_for(entry: (String, Job), now: u128, rid: Seq<char>) -> bool {
    entry.1 matches Job::Exec(e) && e.deadline <= now && e.request_id@ == rid
}

/// The request ids that map to jobs after a tick: those before, but for
/// the requests of exec jobs that timed out.
pub open spec fn exec_requests_after_tick(before: QuillPlugin, after: QuillPlugin, now: u128) -> bool {
    forall|rid: Seq<char>|
        #[trigger] lookup(after.exec_jobs_by_request_id@, rid) == if exec_expired_in(
            before.jobs@,
            before.jobs@.len() as int,
            now,
            rid,
        ) {
            None::<String>
        } else {
            lookup(before.exec_jobs_by_request_id@, rid)
        }
}

/// `line` is one of `all` at or past position `n`.
pub open spec fn line_from(all: Seq<Seq<char>>, n: int, line: Seq<char>) -> bool {
    exists|j: int| n <= j < all.len() && #[trigger] all[j] == line
}

/// Every line a wait job with a mark looks at comes after the mark: it is
/// one of the pane's lines at or past the line count the mark was made at.
pub proof fn wait_job_looks_after_mark(w: WaitJob, c: PaneContents, n: usize)
    requires
        w.since_line_count == Some(n),
    ensures
        forall|i: int|
            0 <= i < wait_job_sample(w, c).len() ==> line_from(
                pane_lines_of(c, true),
                n as int,
                #[trigger] wait_job_sample(w, c)[i],
            ),
{
    let all = pane_lines_of(c, true);
    let sample = wait_job_sample(w, c);
    if n < all.len() {
        let a = all.skip(n as int);
        let s1: int = if a.len() <= w.window { 0 } else { a.len() - w.window };
        let b = a.skip(s1);
        assert(b =~= super::commands::search::last_items(a, w.window as nat));
        let s2: int = if b.len() <= w.last_n { 0 } else { b.len() - w.last_n };
        assert(sample =~= b.skip(s2));
        assert forall|i: int| 0 <= i < wait_job_sample(w, c).len() implies line_from(
            pane_lines_of(c, true),
            n as int,
            #[trigger] wait_job_sample(w, c)[i],
        ) by {
            let j = n + s1 + s2 + i;
            assert(sample[i] == b[s2 + i]);
            assert(b[s2 + i] == a[s1 + s2 + i]);
            assert(a[s1 + s2 + i] == all[j]);
            assert(n <= j < all.len());
        }
    } else {
        assert(sample.len() == 0);
    }
}

/// A wait job with a mark keeps waiting while no line has come after the
/// mark: a timer tick that reads the pane leaves the job in place, however
/// the lines before the mark read.
pub proof fn wait_since_mark_keeps_waiting(
    before: QuillPlugin,
    after: QuillPlugin,
    now: u128,
    scrollbacks: Seq<(PaneId, Result<PaneContents, String>)>,
    fx: Seq<Effect>,
    k: Seq<char>,
    w: WaitJob,
    c: PaneContents,
    n: usize,
)
    requires
        tick_result(before, after, now, scrollbacks, fx),
        lookup(before.jobs@, k) == Some(Job::Wait(w)),
        w.since_line_count == Some(n),
        pane_lines_of(c, true).len() <= n,
        now < w.deadline,
        scrollback_for(scrollbacks, w.pane_id) == Some(Ok::<PaneContents, String>(c)),
    ensures
        lookup(after.jobs@, k) is Some,
{
    assert(wait_job_sample(w, c).len() == 0);
}

/// A spawn job, not yet timed out, whose pane has shown up: the tick ends
/// it.
pub open spec fn spawn_resolves(j: Job, now: u128, m: Option<PaneManifest>) -> bool {
    j matches Job::Spawn(s) && now < s.deadline && spawn_done(s, m)
}

/// What a tick is sent stays sent when more is sent after it.
pub proof fn lemma_tick_outcome_kept(
    j: Job,
    now: u128,
    scrollbacks: Seq<(PaneId, Result<PaneContents, String>)>,
    after: Option<Job>,
    f: Seq<Effect>,
    g: Seq<Effect>,
)
    requires
        tick_outcome(j, now, scrollbacks, after, f),
        extends(f, g),
    ensures
        tick_outcome(j, now, scrollbacks, after, g),
{
    assert forall|pipe: Seq<char>, code: ErrorCode| error_answered(f, pipe, code) implies error_answered(g, pipe, code) by {
        let i = choose|i: int| 0 <= i < f.len() && answers_error(#[trigger] f[i], pipe, code);
        assert(g[i] == f[i]);
    }
    assert forall|pipe: Seq<char>, pane: PaneId, sample: Seq<Seq<char>>| match_answered(f, pipe, pane, sample) implies match_answered(g, pipe, pane, sample) by {
        let i = choose|i: int| 0 <= i < f.len() && answers_match(#[trigger] f[i], pipe, pane, sample);
        assert(g[i] == f[i]);
    }
}

fn has_scrollback(facts: &HostFacts, pane_id: PaneId) -> (r: bool)
    ensures
        r == scrollback_for(facts.scrollbacks@, pane_id) is Some,
{
    let sb = &facts.scrollbacks;
    let mut k: usize = 0;
    assert(sb@.skip(0) =~= sb@);
    while k < sb.len()
        invariant
            k <= sb@.len(),
            sb@ == facts.scrollbacks@,
            scrollback_for(sb@, pane_id) == scrollback_for(sb@.skip(k as int), pane_id),
        decreases sb@.len() - k,
    {
        assert(sb@.skip(k as int)[0] == sb@[k as int]);
        if sb[k].0 == pane_id {
            return true;
        }
        assert(sb@.skip(k as int).drop_first() =~= sb@.skip(k + 1));
        k = k + 1;
    }
    false
}

impl QuillPlugin {
    /// Looks after the jobs on a timer tick: answers the waits whose pane
    /// now matches, and gives up, with a timeout answer, on every job whose
    /// deadline has come. Each due wait needs its pane's scrollback first.
    #[verifier::rlimit(60)]
    #[verifier::spinoff_prover]
    pub fn poll_jobs(&mut self, facts: &HostFacts, fx: &mut Vec<Effect>) -> (r: Flow<()>)
        requires
            old(self).wf(),
        ensures
            final(self).wf(),
            extends(old(fx)@, final(fx)@),
            r is Need ==> *final(self) == *old(self) && final(fx)@ == old(fx)@ && exists|k: Seq<char>|
                #[trigger] lookup(old(self).jobs@, k) matches Some(j) && wait_due(j, facts.now) && (r matches Flow::Need(
                    HostRequest::Scrollback { pane_id },
                ) && j matches Job::Wait(w) && w.pane_id == pane_id && scrollback_for(
                    facts.scrollbacks@,
                    pane_id,
                ) is None),
            r is Ready ==> forall|k: Seq<char>|
                #[trigger] has_key(final(self).jobs@, k) ==> has_key(old(self).jobs@, k),
            r is Ready ==> forall|k: Seq<char>|
                #[trigger] lookup(old(self).jobs@, k) matches Some(j) && job_deadline(j) <= facts.now
                    ==> !has_key(final(self).jobs@, k),
            r is Ready ==> tick_result(*old(self), *final(self), facts.now, facts.scrollbacks@, final(fx)@),
            r is Ready ==> exec_requests_after_tick(*old(self), *final(self), facts.now),
            r is Ready ==> (final(self).jobs@.len() > 0 <==> (final(fx)@.len() > old(fx)@.len()
                && final(fx)@.last() is ScheduleTimer)),
    {
        let mut p: usize = 0;
        while p < self.jobs.len()
            invariant
                p <= self.jobs@.len(),
                self.wf(),
                *self == *old(self),
                fx@ == old(fx)@,
                forall|a: int|
                    0 <= a < p && #[trigger] wait_due(self.jobs@[a].1, facts.now) ==> scrollback_for(
                        facts.scrollbacks@,
                        self.jobs@[a].1->Wait_0.pane_id,
                    ) is Some,
            decreases self.jobs@.len() - p,
        {
            match &self.jobs[p].1 {
                Job::Wait(w) => {
                    if facts.now < w.deadline && facts.now >= w.next_poll_at && !has_scrollback(facts, w.pane_id) {
                        proof {
                            crate::table::lemma_lookup_at(self.jobs@, p as int);
                        }
                        return Flow::Need(HostRequest::Scrollback { pane_id: w.pane_id });
                    }
                },
                _ => {},
            }
            p = p + 1;
        }
        let keys = table_keys(&self.jobs);
        let ghost old_jobs = self.jobs@;
        let mut i: usize = 0;
        while i < keys.len()
            invariant
                i <= keys@.len(),
                keys@.len() == old_jobs.len(),
                keys_unique(old_jobs),
                forall|a: int| 0 <= a < old_jobs.len() ==> (#[trigger] keys@[a])@ == old_jobs[a].0@,
                forall|a: int|
                    0 <= a < old_jobs.len() && #[trigger] wait_due(old_jobs[a].1, facts.now) ==> scrollback_for(
                        facts.scrollbacks@,
                        old_jobs[a].1->Wait_0.pane_id,
                    ) is Some,
                self.wf(),
                old_jobs == old(self).jobs@,
                extends(old(fx)@, fx@),
                forall|k: Seq<char>| #[trigger] has_key(self.jobs@, k) ==> has_key(old_jobs, k),
                forall|a: int|
                    0 <= a < i && (#[trigger] lookup(old_jobs, keys@[a]@) matches Some(j) && job_deadline(j)
                        <= facts.now) ==> !has_key(self.jobs@, keys@[a]@),
                forall|a: int| i <= a < keys@.len() ==> #[trigger] lookup(self.jobs@, keys@[a]@) == lookup(old_jobs, keys@[a]@),
                forall|a: int|
                    0 <= a < i ==> tick_outcome(
                        old_jobs[a].1,
                        facts.now,
                        facts.scrollbacks@,
                        lookup(self.jobs@, (#[trigger] keys@[a])@),
                        fx@,
                    ),
                self.pane_manifest == old(self).pane_manifest,
                no_timer_added(old(fx)@, fx@),
                forall|rid: Seq<char>|
                    #[trigger] lookup(self.exec_jobs_by_request_id@, rid) == if exec_expired_in(
                        old_jobs,
                        i as int,
                        facts.now,
                        rid,
                    ) {
                        None::<String>
                    } else {
                        lookup(old(self).exec_jobs_by_request_id@, rid)
                    },
            decreases keys@.len() - i,
        {
            let key = &keys[i];
            proof {
                crate::table::lemma_lookup_at(old_jobs, i as int);
            }
            let ghost exec_before = self.exec_jobs_by_request_id@;
            let ghost before = self.jobs@;
            let ghost this = old_jobs[i as int].1;
            let removed = remove(&mut self.jobs, key);
            let ghost f0 = fx@;
            assert(removed == Some(this));
            match removed {
                None => {},
                Some(job) => match job {
                    Job::Wait(w) => {
                        if facts.now >= w.deadline {
                            self.send_response(
                                Some(w.pipe_id.as_str()),
                                w.json_only,
                                Some(String::from_str("wait timed out")),
                                Payload::Error(
                                    ApiError::with_text(ErrorCode::Timeout, "wait timed out").meta(
                                        ErrorMeta::Pane { pane_id: w.pane_id },
                                    ),
                                ),
                                true,
                                fx,
                            );
                            assert(answers_error(fx@[fx@.len() - 1], job_pipe(this), ErrorCode::Timeout));
                        } else if facts.now >= w.next_poll_at {
                            let checked = self.wait_condition_matches(
                                w.pane_id,
                                &w.regex,
                                w.last_n,
                                w.window,
                                w.mode,
                                w.since_line_count,
                                facts,
                            );
                            match checked {
                                Flow::Ready(Ok(Some(lines))) => {
                                    let ghost sample = strs(lines@);
                                    self.send_response(
                                        Some(w.pipe_id.as_str()),
                                        w.json_only,
                                        Some(String::from_str("match found")),
                                        Payload::WaitMatched { pane_id: w.pane_id, lines },
                                        true,
                                        fx,
                                    );
                                    assert(answers_match(fx@[fx@.len() - 1], w.pipe_id@, w.pane_id, sample));
                                },
                                Flow::Ready(Ok(None)) => {
                                    let mut w = w;
                                    w.next_poll_at = saturating_sum(facts.now, w.interval);
                                    insert(&mut self.jobs, key.clone(), Job::Wait(w));
                                },
                                Flow::Ready(Err(e)) => {
                                    self.send_response(
                                        Some(w.pipe_id.as_str()),
                                        w.json_only,
                                        Some(String::from_str("wait failed")),
                                        Payload::Error(e),
                                        true,
                                        fx,
                                    );
                                    assert(answers_error(fx@[fx@.len() - 1], w.pipe_id@, ErrorCode::ScrollbackError));
                                },
                                Flow::Need(_) => {
                                    insert(&mut self.jobs, key.clone(), Job::Wait(w));
                                },
                            }
                        } else {
                            insert(&mut self.jobs, key.clone(), Job::Wait(w));
                        }
                    },
                    Job::Exec(e) => {
                        if facts.now >= e.deadline {
                            remove(&mut self.exec_jobs_by_request_id, &e.request_id);
                            self.send_response(
                                Some(e.pipe_id.as_str()),
                                e.json_only,
                                Some(String::from_str("exec timed out")),
                                Payload::Error(
                                    ApiError::with_text(ErrorCode::Timeout, "exec timed out").meta(
                                        ErrorMeta::Request { request_id: e.request_id.clone() },
                                    ),
                                ),
                                true,
                                fx,
                            );
                            assert(answers_error(fx@[fx@.len() - 1], job_pipe(this), ErrorCode::Timeout));
                        } else {
                            insert(&mut self.jobs, key.clone(), Job::Exec(e));
                        }
                    },
                    Job::Spawn(sj) => {
                        if facts.now >= sj.deadline {
                            self.send_response(
                                Some(sj.pipe_id.as_str()),
                                sj.json_only,
                                Some(String::from_str("spawn timed out")),
                                Payload::Error(ApiError::with_text(ErrorCode::Timeout, "spawn timed out")),
                                true,
                                fx,
                            );
                            assert(answers_error(fx@[fx@.len() - 1], job_pipe(this), ErrorCode::Timeout));
                        } else {
                            insert(&mut self.jobs, key.clone(), Job::Spawn(sj));
                        }
                    },
                },
            }
            proof {
                assert forall|rid: Seq<char>|
                    #[trigger] lookup(self.exec_jobs_by_request_id@, rid) == if exec_expired_in(
                        old_jobs,
                        i + 1,
                        facts.now,
                        rid,
                    ) {
                        None::<String>
                    } else {
                        lookup(old(self).exec_jobs_by_request_id@, rid)
                    } by {
                    if exec_expired_in(old_jobs, i + 1, facts.now, rid) && !exec_expired_in(old_jobs, i as int, facts.now, rid) {
                        let a = choose|a: int| 0 <= a < i + 1 && expired_exec_for(#[trigger] old_jobs[a], facts.now, rid);
                        assert(a == i);
                    }
                    if exec_expired_in(old_jobs, i as int, facts.now, rid) {
                        let a = choose|a: int| 0 <= a < i && expired_exec_for(#[trigger] old_jobs[a], facts.now, rid);
                        assert(0 <= a < i + 1 && expired_exec_for(old_jobs[a], facts.now, rid));
                    }
                    if !exec_expired_in(old_jobs, i + 1, facts.now, rid) {
                        assert(!expired_exec_for(old_jobs[i as int], facts.now, rid));
                        assert(!exec_expired_in(old_jobs, i as int, facts.now, rid));
                    }
                }
                assert(extends(f0, fx@));
                lemma_extends_trans(old(fx)@, f0, fx@);
                assert(tick_outcome(this, facts.now, facts.scrollbacks@, lookup(self.jobs@, keys@[i as int]@), fx@));
                assert forall|a: int| i < a < keys@.len() implies #[trigger] lookup(self.jobs@, keys@[a]@) == lookup(old_jobs, keys@[a]@) by {
                    assert(keys@[a]@ == old_jobs[a].0@);
                    assert(keys@[i as int]@ == old_jobs[i as int].0@);
                    assert(old_jobs[i as int].0@ != old_jobs[a].0@);
                }
                assert forall|a: int| 0 <= a < i implies tick_outcome(
                    old_jobs[a].1,
                    facts.now,
                    facts.scrollbacks@,
                    lookup(self.jobs@, (#[trigger] keys@[a])@),
                    fx@,
                ) by {
                    assert(keys@[a]@ == old_jobs[a].0@);
                    assert(old_jobs[a].0@ != old_jobs[i as int].0@);
                    assert(lookup(self.jobs@, keys@[a]@) == lookup(before, keys@[a]@));
                    lemma_tick_outcome_kept(old_jobs[a].1, facts.now, facts.scrollbacks@, lookup(before, keys@[a]@), f0, fx@);
                }
            }
            i = i + 1;
        }
        assert forall|k: Seq<char>|
            #[trigger] lookup(old(self).jobs@, k) matches Some(j) && job_deadline(j) <= facts.now
                implies !has_key(self.jobs@, k) by {
            let a = choose|a: int| 0 <= a < old_jobs.len() && (#[trigger] old_jobs[a]).0@ == k;
            assert(keys@[a]@ == k);
        }
        let ghost m1 = self.jobs@;
        let ghost f1 = fx@;
        assert forall|k: Seq<char>| #[trigger] lookup(old(self).jobs@, k) is Some implies tick_outcome(
            lookup(old(self).jobs@, k)->0,
            facts.now,
            facts.scrollbacks@,
            lookup(m1, k),
            f1,
        ) by {
            let a = choose|a: int| 0 <= a < old_jobs.len() && (#[trigger] old_jobs[a]).0@ == k;
            assert(keys@[a]@ == k);
            crate::table::lemma_lookup_at(old_jobs, a);
        }
        self.resolve_spawn_jobs(fx);
        proof {
            lemma_extends_trans(old(fx)@, f1, fx@);
            assert forall|k: Seq<char>|
                #[trigger] lookup(old(self).jobs@, k) matches Some(j) && job_deadline(j) <= facts.now
                    implies !has_key(self.jobs@, k) by {
                assert(!has_key(m1, k));
            }
        }
        let ghost m2 = self.jobs@;
        let ghost f2 = fx@;
        self.schedule_job_timer(fx);
        proof {
            assert(extends(f2, fx@));
            lemma_extends_trans(old(fx)@, f2, fx@);
            lemma_extends_trans(f1, f2, fx@);
            assert forall|k: Seq<char>| #[trigger] lookup(old(self).jobs@, k) is Some implies if spawn_resolves(
                lookup(old(self).jobs@, k)->0,
                facts.now,
                old(self).pane_manifest,
            ) {
                !has_key(self.jobs@, k) && spawn_answered(
                    fx@,
                    lookup(old(self).jobs@, k)->0->Spawn_0,
                    old(self).pane_manifest,
                    *self,
                )
            } else {
                tick_outcome(lookup(old(self).jobs@, k)->0, facts.now, facts.scrollbacks@, lookup(self.jobs@, k), fx@)
            } by {
                let j = lookup(old(self).jobs@, k)->0;
                if !spawn_resolves(j, facts.now, old(self).pane_manifest) {
                    assert(lookup(m2, k) == lookup(m1, k));
                    lemma_tick_outcome_kept(j, facts.now, facts.scrollbacks@, lookup(m1, k), f1, fx@);
                } else {
                    assert(lookup(m1, k) == Some(j));
                    lemma_spawn_answered_kept(f2, fx@, j->Spawn_0, old(self).pane_manifest, *self, *self);
                }
            }
        }
        Flow::Ready(())
    }
}


/// The terminal panes of a manifest, tab by tab.
pub open spec fn terminals_of(tabs: Seq<crate::types::TabPanes>) -> Seq<PaneId>
    decreases tabs.len(),
{
    if tabs.len() == 0 {
        Seq::empty()
    } else {
        terminals_of(tabs.drop_last()) + terminals_in(tabs.last().panes@)
    }
}

pub open spec fn terminals_in(panes: Seq<PaneInfo>) -> Seq<PaneId>
    decreases panes.len(),
{
    if panes.len() == 0 {
        Seq::empty()
    } else if panes.last().is_plugin {
        terminals_in(panes.drop_last())
    } else {
        terminals_in(panes.drop_last()).push(PaneId::Terminal(panes.last().id))
    }
}

fn manifest_terminals(m: &PaneManifest) -> (r: Vec<PaneId>)
    ensures
        r@ == terminals_of(m.tabs@),
{
    let mut out: Vec<PaneId> = Vec::new();
    let mut t: usize = 0;
    while t < m.tabs.len()
        invariant
            t <= m.tabs@.len(),
            out@ == terminals_of(m.tabs@.take(t as int)),
        decreases m.tabs@.len() - t,
    {
        assert(m.tabs@.take(t + 1).drop_last() =~= m.tabs@.take(t as int));
        let panes = &m.tabs[t].panes;
        let ghost base = out@;
        let mut i: usize = 0;
        while i < panes.len()
            invariant
                i <= panes@.len(),
                out@ == base + terminals_in(panes@.take(i as int)),
            decreases panes@.len() - i,
        {
            assert(panes@.take(i + 1).drop_last() =~= panes@.take(i as int));
            if !panes[i].is_plugin {
                out.push(PaneId::Terminal(panes[i].id));
            }
            i = i + 1;
            assert(out@ =~= base + terminals_in(panes@.take(i as int)));
        }
        assert(panes@.take(panes@.len() as int) =~= panes@);
        t = t + 1;
    }
    assert(m.tabs@.take(m.tabs@.len() as int) =~= m.tabs@);
    out
}

impl QuillPlugin {
    /// Takes a new pane manifest: remembers its terminal panes as recent,
    /// updates focus, and finishes the spawn jobs whose pane shows up in it.
    pub fn on_pane_update(&mut self, pane_manifest: PaneManifest, fx: &mut Vec<Effect>)
        requires
            old(self).wf(),
        ensures
            final(self).wf(),
            extends(old(fx)@, final(fx)@),
            final(self).pane_manifest == Some(pane_manifest),
            forall|k: Seq<char>| #[trigger] has_key(final(self).jobs@, k) ==> has_key(old(self).jobs@, k),
            forall|k: Seq<char>|
                #[trigger] lookup(old(self).jobs@, k) matches Some(Job::Spawn(j)) && spawn_done(
                    j,
                    Some(pane_manifest),
                ) ==> !has_key(final(self).jobs@, k),
            forall|k: Seq<char>|
                #[trigger] lookup(old(self).jobs@, k) matches Some(Job::Spawn(j)) ==> (spawn_done(
                    j,
                    Some(pane_manifest),
                ) ==> spawn_answered(final(fx)@, j, Some(pane_manifest), *final(self))),
    {
        let ids = manifest_terminals(&pane_manifest);
        self.pane_manifest = Some(pane_manifest);
        let mut i: usize = 0;
        while i < ids.len()
            invariant
                i <= ids@.len(),
                self.wf(),
                self.pane_manifest == Some(pane_manifest),
                self.jobs == old(self).jobs,
            decreases ids@.len() - i,
        {
            self.touch_recent_pane(ids[i]);
            i = i + 1;
        }
        self.refresh_focus_from_manifest();
        self.resolve_spawn_jobs(fx);
    }

    /// Answers the `exec` whose command finished, with its exit code and
    /// output, and ends its job.
    pub fn on_run_command_result(
        &mut self,
        exit_code: Option<i32>,
        stdout: &Vec<u8>,
        stderr: &Vec<u8>,
        context: &Vec<(String, String)>,
        fx: &mut Vec<Effect>,
    )
        requires
            old(self).wf(),
        ensures
            final(self).wf(),
            extends(old(fx)@, final(fx)@),
            exec_result_outcome(
                *old(self),
                *final(self),
                exit_code,
                stdout@,
                stderr@,
                context@,
                old(fx)@,
                final(fx)@,
            ),
    {
        let request_id = match arg_value(context, REQUEST_ID_KEY) {
            Some(r) => r,
            None => {
                return;
            },
        };
        let job_id = match remove(&mut self.exec_jobs_by_request_id, &request_id) {
            Some(j) => j,
            None => {
                return;
            },
        };
        let job = remove(&mut self.jobs, &job_id);
        match job {
            Some(Job::Exec(e)) => {
                let out = lossy_text(stdout.as_slice());
                let err = lossy_text(stderr.as_slice());
                self.send_response(
                    Some(e.pipe_id.as_str()),
                    e.json_only,
                    Some(String::from_str("exec completed")),
                    Payload::ExecDone {
                        request_id,
                        command: e.command,
                        exit_code,
                        stdout: out,
                        stderr: err,
                    },
                    true,
                    fx,
                );
            },
            _ => {},
        }
    }
}

/// What the result of a background command does: the `exec` job that
/// waited for it, found through the request id in the result's context, is
/// answered with the exit code and output and forgotten. A result that no
/// job waits for changes nothing.
pub open spec fn exec_result_outcome(
    before: QuillPlugin,
    after: QuillPlugin,
    exit_code: Option<i32>,
    stdout: Seq<u8>,
    stderr: Seq<u8>,
    context: Seq<(String, String)>,
    f0: Seq<Effect>,
    f1: Seq<Effect>,
) -> bool {
    match arg_lookup(context, REQUEST_ID_KEY@) {
        None => after == before && f1 == f0,
        Some(rid) => match lookup(before.exec_jobs_by_request_id@, rid@) {
            None => after.jobs == before.jobs && f1 == f0,
            Some(jid) => {
                &&& lookup(after.exec_jobs_by_request_id@, rid@) is None
                &&& !has_key(after.jobs@, jid@)
                &&& match lookup(before.jobs@, jid@) {
                    Some(Job::Exec(e)) => f1.len() == f0.len() + 1 && (f1.last() matches Effect::Respond {
                        pipe_id,
                        json_only,
                        human,
                        payload: Payload::ExecDone {
                            request_id,
                            command,
                            exit_code: code,
                            stdout: out,
                            stderr: err,
                        },
                        unblock,
                    } && pipe_id@ == e.pipe_id@ && json_only == e.json_only && human_view(
                        human,
                    ) == Some("exec completed"@) && request_id@ == rid@ && command
                        == e.command && code == exit_code && out@ == utf8_lossy(stdout)
                        && err@ == utf8_lossy(stderr) && unblock),
                    _ => f1 == f0,
                }
            },
        },
    }
}


} // verus!
