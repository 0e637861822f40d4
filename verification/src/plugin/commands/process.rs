//! Running commands and opening panes: `exec` and `spawn`.
use super::super::jobs::known;
use super::super::permissions::{actor_of, auth_check, lemma_approval_asked_same, opt_view};
use super::super::state::bumped;
use super::super::{ExecJob, Job, QuillPlugin, SpawnJob, REQUEST_ID_KEY};
use super::pane_io::duration_result;
use super::search::{job_frame, sat_add, saturating_sum};
use super::{
    access_refused, human_text, human_view, job_added, job_ids_issued, kept, left_alone, lemma_job_id_fresh,
    text_view,
};
use crate::error::{ApiError, ApiResult, ErrorCode};
use crate::host::{
    blocks, holds_pipe, extends, lemma_extends_trans, Effect, ExecArgs, Flow, HostFacts,
    HostRequest, SpawnArgs, SpawnPlan,
};
use crate::parsing::parse_duration;
use crate::response::{CommandOutcome, Payload};
use crate::table::{has_key, insert, lookup};
use crate::text::{dec, strs};
use crate::types::{pane_id_text, pane_id_to_string, PaneId, SpawnKind, SpawnWhere};
use crate::util::copy_strings;
use vstd::prelude::*;

verus! {

/// The job an `exec` waits with.
pub open spec fn exec_job_is(
    j: ExecJob,
    pipe: Seq<char>,
    request_id: Seq<char>,
    command: Seq<Seq<char>>,
    deadline: u128,
    json_only: bool,
) -> bool {
    &&& j.pipe_id@ == pipe
    &&& j.request_id@ == request_id
    &&& strs(j.command@) == command
    &&& j.deadline == deadline
    &&& j.json_only == json_only
}

/// The directory and variables `exec` runs with: only when either is
/// given, the directory then defaulting to `.`.
pub open spec fn exec_setting(a: ExecArgs) -> Option<(Seq<char>, Seq<(String, String)>)> {
    if a.cwd is Some || a.env_vars@.len() > 0 {
        Some(
            (
                match a.cwd {
                    Some(c) => c@,
                    None => "."@,
                },
                a.env_vars@,
            ),
        )
    } else {
        None
    }
}

/// The effect runs the command of an `exec` whose job, under `id`, waits
/// for it.
pub open spec fn exec_started(
    f: QuillPlugin,
    e: Effect,
    args: ExecArgs,
    pipe: Seq<char>,
    id: Seq<char>,
    deadline: u128,
) -> bool {
    match e {
        Effect::RunCommand { command, cwd_env, context_key, request_id } => {
            &&& strs(command@) == strs(args.command@)
            &&& setting_view(cwd_env) == exec_setting(args)
            &&& context_key@ == REQUEST_ID_KEY@
            &&& lookup(f.exec_jobs_by_request_id@, request_id@) matches Some(k) && k@ == id
            &&& match lookup(f.jobs@, id) {
                Some(Job::Exec(j)) => exec_job_is(
                    j,
                    pipe,
                    request_id@,
                    strs(args.command@),
                    deadline,
                    args.json,
                ),
                _ => false,
            }
        },
        _ => false,
    }
}

pub open spec fn setting_view(o: Option<(String, Vec<(String, String)>)>) -> Option<(Seq<char>, Seq<(String, String)>)> {
    match o {
        Some((c, e)) => Some((c@, e@)),
        None => None,
    }
}

fn copy_pairs(v: &Vec<(String, String)>) -> (r: Vec<(String, String)>)
    ensures
        r@ == v@,
{
    let mut out: Vec<(String, String)> = Vec::new();
    let mut i: usize = 0;
    while i < v.len()
        invariant
            i <= v@.len(),
            out@ == v@.take(i as int),
        decreases v@.len() - i,
    {
        out.push((v[i].0.clone(), v[i].1.clone()));
        i = i + 1;
        assert(out@ =~= v@.take(i as int));
    }
    assert(v@.take(v@.len() as int) =~= v@);
    out
}

/// The request counter moved on, and the only request that maps to a job
/// now and did not before, or maps elsewhere, is `rid`.
pub open spec fn exec_request_added(before: QuillPlugin, after: QuillPlugin, rid: Seq<char>) -> bool {
    &&& after.next_request_id == bumped(before.next_request_id)
    &&& forall|k: Seq<char>|
        k != rid ==> #[trigger] lookup(after.exec_jobs_by_request_id@, k) == lookup(before.exec_jobs_by_request_id@, k)
    &&& forall|k: Seq<char>|
        #[trigger] has_key(after.exec_jobs_by_request_id@, k) == (k == rid || has_key(before.exec_jobs_by_request_id@, k))
}

/// What `exec` does: starts a background command whose result answers later.
pub open spec fn exec_outcome(
    before: QuillPlugin,
    after: QuillPlugin,
    args: ExecArgs,
    pipe_id: Option<&str>,
    facts: HostFacts,
    f0: Seq<Effect>,
    f1: Seq<Effect>,
    r: Flow<ApiResult<CommandOutcome>>,
) -> bool {
    &&& job_frame(before, after)
    &&& extends(f0, f1)
    &&& r is Need ==> after.jobs == before.jobs && f1 == f0
    &&& match duration_result(args.timeout@) {
        Err(c) => r matches Flow::Ready(Err(x)) && x.code == c && left_alone(before, after, facts, f0, f1),
        Ok(timeout) => if args.command@.len() == 0 {
            r matches Flow::Ready(Err(x)) && x.code == ErrorCode::InvalidArgs && x.message@
                == "exec requires a command after --"@ && left_alone(before, after, facts, f0, f1)
        } else {
            match auth_check(before, facts, text_view(args.token)) {
                None => r matches Flow::Need(HostRequest::SessionEnv) && left_alone(before, after, facts, f0, f1),
                Some(false) => r matches Flow::Ready(Err(x)) && x.code
                    == ErrorCode::Unauthorized && left_alone(before, after, facts, f0, f1),
                Some(true) => match pipe_id {
                    None => r matches Flow::Ready(Err(x)) && x.code
                        == ErrorCode::PipeRequired && x.message@
                        == "exec requires a CLI pipe source for asynchronous response"@ && left_alone(before, after, facts, f0, f1),
                    Some(pipe) => {
                        let id = "job-"@ + dec(after.next_job_id as nat);
                        &&& r matches Flow::Ready(Ok(CommandOutcome::Async))
                        &&& blocks(f1, pipe@)
                        &&& f1.len() == f0.len() + 3
                        &&& f1.take(f0.len() as int) == f0
                        &&& exec_started(after, f1[f0.len() as int], args, pipe@, id, sat_add(facts.now, timeout as u128))
                        &&& holds_pipe(f1[f0.len() + 1int], pipe@)
                        &&& f1[f0.len() + 2int] == Effect::ScheduleTimer
                        &&& f1[f0.len() as int] matches Effect::RunCommand { request_id, .. } && exec_request_added(
                            before,
                            after,
                            request_id@,
                        )
                        &&& job_added(
                            before,
                            QuillPlugin {
                                next_request_id: before.next_request_id,
                                exec_jobs_by_request_id: before.exec_jobs_by_request_id,
                                ..after
                            },
                            facts,
                            id,
                        )
                        &&& after.next_job_id == bumped(before.next_job_id)
                        &&& after.next_request_id == bumped(before.next_request_id)
                        &&& exists|i: int|
                            0 <= i < f1.len() && exec_started(
                                after,
                                #[trigger] f1[i],
                                args,
                                pipe@,
                                id,
                                sat_add(facts.now, timeout as u128),
                            )
                        &&& f1.last() == Effect::ScheduleTimer
                    },
                },
            }
        },
    }
}

/// The command `exec` starts runs in the directory it was given (`.` when
/// only variables were given) with the variables given, and with neither
/// when neither was given.
pub proof fn exec_runs_where_asked(
    before: QuillPlugin,
    after: QuillPlugin,
    args: ExecArgs,
    pipe_id: Option<&str>,
    facts: HostFacts,
    f0: Seq<Effect>,
    f1: Seq<Effect>,
    r: Flow<ApiResult<CommandOutcome>>,
)
    requires
        exec_outcome(before, after, args, pipe_id, facts, f0, f1, r),
        r matches Flow::Ready(Ok(CommandOutcome::Async)),
    ensures
        f1[f0.len() as int] matches Effect::RunCommand { command, cwd_env, .. } && strs(command@) == strs(
            args.command@,
        ) && match args.cwd {
            Some(d) => cwd_env matches Some((c, e)) && c@ == d@ && e@ == args.env_vars@,
            None => if args.env_vars@.len() > 0 {
                cwd_env matches Some((c, e)) && c@ == "."@ && e@ == args.env_vars@
            } else {
                cwd_env is None
            },
        },
{
}

impl QuillPlugin {
    /// `exec`: runs a command in the background and answers with its output
    /// when it ends, or with a timeout.
    #[verifier::rlimit(50)]
    #[verifier::spinoff_prover]
    pub fn cmd_exec(
        &mut self,
        args: &ExecArgs,
        pipe_id: Option<&str>,
        facts: &HostFacts,
        fx: &mut Vec<Effect>,
    ) -> (r: Flow<ApiResult<CommandOutcome>>)
        requires
            old(self).wf(),
        ensures
            exec_outcome(
                *old(self),
                *final(self),
                *args,
                pipe_id,
                *facts,
                old(fx)@,
                final(fx)@,
                r,
            ),
    {
        let timeout = match parse_duration(args.timeout.as_str()) {
            Ok(n) => n,
            Err(e) => {
                return Flow::Ready(Err(e));
            },
        };
        if args.command.len() == 0 {
            return Flow::Ready(
                Err(ApiError::with_text(ErrorCode::InvalidArgs, "exec requires a command after --")),
            );
        }
        let tok: Option<&str> = match &args.token {
            Some(t) => Some(t.as_str()),
            None => None,
        };
        assert(opt_view(tok) == text_view(args.token));
        match self.validate_auth(tok, facts) {
            Flow::Need(n) => {
                return Flow::Need(n);
            },
            Flow::Ready(Err(e)) => {
                return Flow::Ready(Err(e));
            },
            Flow::Ready(Ok(())) => {},
        }
        let pipe = match pipe_id {
            Some(p) => p,
            None => {
                return Flow::Ready(
                    Err(
                        ApiError::with_text(
                            ErrorCode::PipeRequired,
                            "exec requires a CLI pipe source for asynchronous response",
                        ),
                    ),
                );
            },
        };
        let ghost mid = *self;
        assert(kept(*old(self), mid, *facts));
        let request_id = self.next_request_id(facts.unix_ms);
        let cwd_env = if args.cwd.is_some() || args.env_vars.len() > 0 {
            let dir = match &args.cwd {
                Some(c) => c.clone(),
                None => String::from_str("."),
            };
            Some((dir, copy_pairs(&args.env_vars)))
        } else {
            None
        };
        let command = copy_strings(args.command.as_slice(), 0, args.command.len());
        assert(args.command@.subrange(0, args.command@.len() as int) =~= args.command@);
        let ghost f0 = fx@;
        fx.push(
            Effect::RunCommand {
                command,
                cwd_env,
                context_key: String::from_str(REQUEST_ID_KEY),
                request_id: request_id.clone(),
            },
        );
        let ghost run = fx@[f0.len() as int];
        let ghost f1 = fx@;
        self.block_pipe(pipe, fx);
        let ghost held = fx@.len() - 1;
        proof {
            assert(fx@.take(f1.len() as int)[f0.len() as int] == f1[f0.len() as int]);
            assert(extends(f1, fx@));
            lemma_extends_trans(old(fx)@, f1, fx@);
            assert(holds_pipe(fx@[held], pipe@));
        }
        let job_id = self.next_job_id();
        let ghost rid = request_id@;
        let ghost jid = job_id@;
        insert(&mut self.exec_jobs_by_request_id, request_id.clone(), job_id.clone());
        let job = ExecJob {
            pipe_id: String::from_str(pipe),
            request_id,
            command: copy_strings(args.command.as_slice(), 0, args.command.len()),
            deadline: saturating_sum(facts.now, timeout),
            json_only: args.json,
        };
        insert(&mut self.jobs, job_id, Job::Exec(job));
        let ghost f2 = fx@;
        self.schedule_job_timer(fx);
        proof {
            assert(has_key(self.jobs@, jid));
            assert(self.jobs@.len() > 0);
            assert(extends(f2, fx@));
            lemma_extends_trans(old(fx)@, f2, fx@);
            assert(fx@[f0.len() as int] == run);
            assert(fx@[held] == f2[held]);
            assert(f0 == old(fx)@);
            assert(fx@.take(f0.len() as int) =~= f0);
            assert(fx@.len() == f0.len() + 3);
            assert(fx@[f0.len() + 2int] == Effect::ScheduleTimer);
            assert(exec_request_added(*old(self), *self, rid));
            let g = QuillPlugin {
                next_request_id: old(self).next_request_id,
                exec_jobs_by_request_id: old(self).exec_jobs_by_request_id,
                ..*self
            };
            assert(QuillPlugin { jobs: old(self).jobs, next_job_id: old(self).next_job_id, ..g } == mid);
            if job_ids_issued(*old(self)) && old(self).next_job_id < u64::MAX {
                lemma_job_id_fresh(*old(self), g, jid);
            }
            assert(job_added(*old(self), g, *facts, jid));
        }
        Flow::Ready(Ok(CommandOutcome::Async))
    }
}


/// What `spawn` asks the host to open: a terminal in the directory (`.`
/// by default), or the command, where `--where` says.
pub open spec fn spawn_plan_of(a: SpawnArgs, plan: SpawnPlan) -> bool {
    &&& plan.kind == a.kind
    &&& plan.where_to == a.where_to
    &&& plan.path@ == match a.cwd {
        Some(c) => c@,
        None => "."@,
    }
    &&& strs(plan.command@) == strs(a.command@)
    &&& text_view(plan.cwd) == text_view(a.cwd)
}

/// The pane `spawn` reports: the opened one's name, or that it is unknown.
pub open spec fn spawned_text(p: Option<PaneId>) -> Seq<char> {
    "spawned "@ + match p {
        Some(q) => pane_id_text(q),
        None => "(unknown pane id)"@,
    }
}

/// The effects after `f0` once a pane is opened: renaming it, when it is
/// known and a name was given.
pub open spec fn renamed(f0: Seq<Effect>, name: Option<String>, opened: Option<PaneId>) -> Seq<Effect> {
    match (name, opened) {
        (Some(n), Some(p)) => f0.push(Effect::RenamePane { pane_id: p, name: n }),
        _ => f0,
    }
}

/// What `spawn` does once the host opened the pane (or could not tell
/// which): renames it, lets the token access it, and answers at once, or
/// holds the pipe while a job waits for the pane to show up.
pub open spec fn spawn_opened_outcome(
    before: QuillPlugin,
    after: QuillPlugin,
    args: SpawnArgs,
    pipe_id: Option<&str>,
    facts: HostFacts,
    opened: Option<PaneId>,
    wait: nat,
    f0: Seq<Effect>,
    f1: Seq<Effect>,
    r: Flow<ApiResult<CommandOutcome>>,
) -> bool {
                        let fr = renamed(f0, args.name, opened);
                        let granted = QuillPlugin {
                            token_pane_permissions: before.token_pane_permissions,
                            ..after
                        };
                        &&& match (opened, actor_of(before, facts, text_view(args.token))) {
                            (Some(p), Some(Some(t))) => after.allowed(t, p),
                            _ => true,
                        }
                        &&& forall|t: Seq<char>, q: PaneId|
                            !(opened == Some(q) && actor_of(before, facts, text_view(args.token)) == Some(Some(t)))
                                ==> #[trigger] after.allowed(t, q) == before.allowed(t, q)
                        &&& if wait == 0 {
                            r matches Flow::Ready(
                                Ok(
                                    CommandOutcome::Immediate {
                                        json_only: j,
                                        human: h,
                                        payload: Payload::Spawned { pane_id, waited },
                                    },
                                ),
                            ) && j == args.json && pane_id == opened && !waited
                                && human_view(h) == human_text(
                                args.json,
                                spawned_text(opened),
                            ) && f1 == fr && kept(before, granted, facts)
                        } else {
                            match pipe_id {
                                None => r matches Flow::Ready(Err(x)) && x.code
                                    == ErrorCode::PipeRequired && x.message@
                                    == "spawn --wait requires a CLI pipe source"@ && f1 == fr && kept(
                                    before,
                                    granted,
                                    facts,
                                ),
                                Some(pipe) => {
                                    let id = "job-"@ + dec(after.next_job_id as nat);
                                    &&& r matches Flow::Ready(Ok(CommandOutcome::Async))
                                    &&& blocks(f1, pipe@)
                                    &&& f1.len() == fr.len() + 2
                                    &&& f1.take(fr.len() as int) == fr
                                    &&& holds_pipe(f1[fr.len() as int], pipe@)
                                    &&& f1[fr.len() + 1int] == Effect::ScheduleTimer
                                    &&& job_added(before, granted, facts, id)
                                    &&& lookup(after.jobs@, id) matches Some(
                                        Job::Spawn(j),
                                    ) && j.pipe_id@ == pipe@ && j.expected_pane_id == opened
                                        && j.deadline == sat_add(facts.now, wait as u128)
                                        && j.json_only == args.json && text_view(j.token)
                                        == actor_of(before, facts, text_view(args.token))->0
                                        && forall|q: PaneId|
                                        #[trigger] j.baseline_panes@.contains(q) <==> known(
                                            before.pane_manifest,
                                            q,
                                        )
                                    &&& f1.last() == Effect::ScheduleTimer
                                },
                            }
                        }
}

/// What `spawn` does: opens a pane, and may wait for it to show up.
pub open spec fn spawn_outcome(
    before: QuillPlugin,
    after: QuillPlugin,
    args: SpawnArgs,
    pipe_id: Option<&str>,
    facts: HostFacts,
    f0: Seq<Effect>,
    f1: Seq<Effect>,
    r: Flow<ApiResult<CommandOutcome>>,
) -> bool {
    &&& after.pending_permission_commands == before.pending_permission_commands
    &&& after.current_pipe_origin_pane_id == before.current_pipe_origin_pane_id
    &&& extends(f0, f1)
    &&& r is Need ==> after.jobs == before.jobs && f1 == f0
        && after.token_pane_permissions == before.token_pane_permissions
    &&& forall|k: Seq<char>| has_key(before.jobs@, k) ==> #[trigger] has_key(after.jobs@, k)
    &&& !(r matches Flow::Ready(Ok(CommandOutcome::Async))) ==> after.jobs == before.jobs
        && after.next_job_id == before.next_job_id
    &&& (r is Need || (r matches Flow::Ready(Err(x)) && x.code != ErrorCode::PipeRequired))
        ==> after.token_pane_permissions == before.token_pane_permissions
    &&& match duration_result(args.wait@) {
        Err(c) => r matches Flow::Ready(Err(x)) && x.code == c && left_alone(before, after, facts, f0, f1),
        Ok(wait) => {
            let creatable = auth_check(before, facts, text_view(args.token)) == Some(true)
                && match actor_of(before, facts, text_view(args.token)) {
                None => false,
                Some(None) => !before.enforce_pane_permissions,
                Some(Some(t)) => !before.enforce_pane_permissions || (before.current_pipe_origin_pane_id matches Some(o) && before.allowed(t, o)),
            };
            if !creatable {
                match before.current_pipe_origin_pane_id {
                    Some(o) => access_refused(before, after, facts, text_view(args.token), o, f0, f1, r),
                    None => if before.enforce_pane_permissions && auth_check(
                        before,
                        facts,
                        text_view(args.token),
                    ) == Some(true) && actor_of(before, facts, text_view(args.token)) is Some {
                        if actor_of(before, facts, text_view(args.token)) matches Some(Some(_)) {
                            r matches Flow::Ready(Err(e)) && e.code == ErrorCode::PermissionRequired && e.meta is None
                        } else {
                            r matches Flow::Ready(Err(e)) && e.code == ErrorCode::Unauthorized
                        }
                    } else {
                        access_refused(before, after, facts, text_view(args.token), PaneId::Terminal(0), f0, f1, r)
                    },
                }
            } else if args.kind == SpawnKind::Command && args.command@.len() == 0 {
                r matches Flow::Ready(Err(x)) && x.code == ErrorCode::InvalidArgs && x.message@
                    == "spawn --kind command requires a command after --"@ && left_alone(before, after, facts, f0, f1)
            } else if args.kind == SpawnKind::Terminal && args.where_to
                == SpawnWhere::Background {
                r matches Flow::Ready(Err(x)) && x.code == ErrorCode::InvalidArgs && x.message@
                    == "spawn --kind terminal does not support --where background"@ && left_alone(before, after, facts, f0, f1)
            } else {
                match facts.opened {
                    None => r matches Flow::Need(HostRequest::OpenPane { plan })
                        && spawn_plan_of(args, plan) && left_alone(before, after, facts, f0, f1),
                    Some(opened) => spawn_opened_outcome(before, after, args, pipe_id, facts, opened, wait, f0, f1, r),
                }
            }
        },
    }
}

impl QuillPlugin {
    /// `spawn`: opens a terminal or command pane, lets the request's token
    /// access it, and answers at once, or (with `--wait`) once the pane
    /// shows up.
    #[verifier::rlimit(100)]
    #[verifier::spinoff_prover]
    pub fn cmd_spawn(
        &mut self,
        args: &SpawnArgs,
        pipe_id: Option<&str>,
        facts: &HostFacts,
        fx: &mut Vec<Effect>,
    ) -> (r: Flow<ApiResult<CommandOutcome>>)
        requires
            old(self).wf(),
        ensures
            final(self).wf(),
            spawn_outcome(
                *old(self),
                *final(self),
                *args,
                pipe_id,
                *facts,
                old(fx)@,
                final(fx)@,
                r,
            ),
    {
        let wait = match parse_duration(args.wait.as_str()) {
            Ok(n) => n,
            Err(e) => {
                return Flow::Ready(Err(e));
            },
        };
        let tok: Option<&str> = match &args.token {
            Some(t) => Some(t.as_str()),
            None => None,
        };
        assert(opt_view(tok) == text_view(args.token));
        let ghost access_from = *self;
        let ghost access_fx = fx@;
        let access = self.ensure_token_can_create_from_origin(tok, facts, fx);
        let ghost access_result = access;
        let actor = match access {
            Flow::Need(n) => {
                proof {
                    if access_from.current_pipe_origin_pane_id is Some {
                        lemma_approval_asked_same(
                            access_from,
                            *self,
                            *facts,
                            opt_view(tok),
                            access_from.current_pipe_origin_pane_id->0,
                            access_fx,
                            fx@,
                            access_result,
                            Flow::<ApiResult<CommandOutcome>>::Need(n),
                        );
                    }
                }
                return Flow::Need(n);
            },
            Flow::Ready(Err(e)) => {
                proof {
                    if access_from.current_pipe_origin_pane_id is Some {
                        lemma_approval_asked_same(
                            access_from,
                            *self,
                            *facts,
                            opt_view(tok),
                            access_from.current_pipe_origin_pane_id->0,
                            access_fx,
                            fx@,
                            access_result,
                            Flow::<ApiResult<CommandOutcome>>::Ready(Err(e)),
                        );
                    }
                }
                return Flow::Ready(Err(e));
            },
            Flow::Ready(Ok(a)) => a,
        };
        if args.kind == SpawnKind::Command && args.command.len() == 0 {
            return Flow::Ready(
                Err(
                    ApiError::with_text(
                        ErrorCode::InvalidArgs,
                        "spawn --kind command requires a command after --",
                    ),
                ),
            );
        }
        if args.kind == SpawnKind::Terminal && args.where_to == SpawnWhere::Background {
            return Flow::Ready(
                Err(
                    ApiError::with_text(
                        ErrorCode::InvalidArgs,
                        "spawn --kind terminal does not support --where background",
                    ),
                ),
            );
        }
        let baseline = self.collect_known_pane_ids();
        let opened = match facts.opened {
            Some(o) => o,
            None => {
                let path = match &args.cwd {
                    Some(c) => c.clone(),
                    None => String::from_str("."),
                };
                let cwd = match &args.cwd {
                    Some(c) => Some(c.clone()),
                    None => None,
                };
                let plan = SpawnPlan {
                    kind: args.kind,
                    where_to: args.where_to,
                    path,
                    command: copy_strings(args.command.as_slice(), 0, args.command.len()),
                    cwd,
                };
                assert(args.command@.subrange(0, args.command@.len() as int) =~= args.command@);
                return Flow::Need(HostRequest::OpenPane { plan });
            },
        };
        proof {
            assert(actor_of(*old(self), *facts, text_view(args.token)) == Some(text_view(actor)));
        }
        self.spawn_opened(args, pipe_id, facts, fx, actor, opened, baseline, wait, Ghost(*old(self)))
    }

    /// `spawn` once the host opened the pane: renames it, lets the token
    /// access it, and answers at once or leaves a job waiting for it.
    #[verifier::rlimit(100)]
    #[verifier::spinoff_prover]
    fn spawn_opened(
        &mut self,
        args: &SpawnArgs,
        pipe_id: Option<&str>,
        facts: &HostFacts,
        fx: &mut Vec<Effect>,
        actor: Option<String>,
        opened: Option<PaneId>,
        baseline: Vec<PaneId>,
        wait: u128,
        Ghost(before): Ghost<QuillPlugin>,
    ) -> (r: Flow<ApiResult<CommandOutcome>>)
        requires
            old(self).wf(),
            kept(before, *old(self), *facts),
            before.wf(),
            actor_of(before, *facts, text_view(args.token)) == Some(text_view(actor)),
            forall|q: PaneId| #[trigger] baseline@.contains(q) <==> known(before.pane_manifest, q),
            duration_result(args.wait@) == Ok::<nat, ErrorCode>(wait as nat),
            facts.opened == Some(opened),
        ensures
            final(self).wf(),
            spawn_opened_outcome(before, *final(self), *args, pipe_id, *facts, opened, wait as nat, old(fx)@, final(fx)@, r),
            final(self).pending_permission_commands == before.pending_permission_commands,
            final(self).current_pipe_origin_pane_id == before.current_pipe_origin_pane_id,
            extends(old(fx)@, final(fx)@),
            forall|k: Seq<char>| has_key(before.jobs@, k) ==> #[trigger] has_key(final(self).jobs@, k),
            !(r matches Flow::Ready(Ok(CommandOutcome::Async))) ==> final(self).jobs == before.jobs
                && final(self).next_job_id == before.next_job_id,
            !(r is Need),
            r matches Flow::Ready(Err(x)) ==> x.code == ErrorCode::PipeRequired,
    {
        let ghost mid = *self;
        assert(kept(before, mid, *facts));
        let ghost f0 = fx@;
        match (&args.name, opened) {
            (Some(name), Some(p)) => {
                fx.push(Effect::RenamePane { pane_id: p, name: name.clone() });
            },
            _ => {},
        }
        proof {
            lemma_extends_trans(old(fx)@, f0, fx@);
            assert(f0 == old(fx)@);
            assert(fx@ == renamed(old(fx)@, args.name, opened));
        }
        let ghost fr = fx@;
        match (&actor, opened) {
            (Some(t), Some(p)) => {
                self.grant_pane_permission(t, p);
            },
            _ => {},
        }
        if wait == 0 {
            let human = if args.json {
                None
            } else {
                let mut s = String::from_str("spawned ");
                match opened {
                    Some(p) => {
                        let t = pane_id_to_string(p);
                        s.append(t.as_str());
                    },
                    None => {
                        s.append("(unknown pane id)");
                    },
                }
                Some(s)
            };
            return Flow::Ready(
                Ok(
                    CommandOutcome::Immediate {
                        json_only: args.json,
                        human,
                        payload: Payload::Spawned { pane_id: opened, waited: false },
                    },
                ),
            );
        }
        let pipe = match pipe_id {
            Some(p) => p,
            None => {
                return Flow::Ready(
                    Err(ApiError::with_text(ErrorCode::PipeRequired, "spawn --wait requires a CLI pipe source")),
                );
            },
        };
        let ghost f1 = fx@;
        let ghost granted = *self;
        self.block_pipe(pipe, fx);
        let ghost held = fx@.len() - 1;
        proof {
            assert(extends(f1, fx@));
            lemma_extends_trans(old(fx)@, f1, fx@);
            assert(fx@[held] == fx@.last());
            assert(holds_pipe(fx@[held], pipe@));
        }
        let job_id = self.next_job_id();
        let ghost jid = job_id@;
        let token = match &actor {
            Some(t) => Some(t.clone()),
            None => None,
        };
        let job = SpawnJob {
            pipe_id: String::from_str(pipe),
            expected_pane_id: opened,
            baseline_panes: baseline,
            deadline: saturating_sum(facts.now, wait),
            json_only: args.json,
            token,
        };
        insert(&mut self.jobs, job_id, Job::Spawn(job));
        let ghost f2 = fx@;
        self.schedule_job_timer(fx);
        proof {
            assert(has_key(self.jobs@, jid));
            assert(self.jobs@.len() > 0);
            assert(extends(f2, fx@));
            lemma_extends_trans(old(fx)@, f2, fx@);
            assert(fx@[held] == f2[held]);
            assert(fx@.take(fr.len() as int) =~= fr);
            let g = QuillPlugin { token_pane_permissions: before.token_pane_permissions, ..*self };
            assert(QuillPlugin { jobs: before.jobs, next_job_id: before.next_job_id, ..g } == QuillPlugin {
                token_pane_permissions: before.token_pane_permissions,
                ..granted
            });
            assert(QuillPlugin { token_pane_permissions: before.token_pane_permissions, ..granted } == mid);
            if job_ids_issued(before) && before.next_job_id < u64::MAX {
                lemma_job_id_fresh(before, g, jid);
            }
            assert(job_added(before, g, *facts, jid));
            assert(fx@.len() == fr.len() + 2);
            assert(fx@[fr.len() + 1int] == Effect::ScheduleTimer);
            assert(holds_pipe(fx@[fr.len() as int], pipe@));
            assert(self.token_pane_permissions == granted.token_pane_permissions);
            assert(mid.token_pane_permissions == before.token_pane_permissions);
            assert forall|t: Seq<char>, q: PaneId|
                !(opened == Some(q) && actor_of(before, *facts, text_view(args.token)) == Some(Some(t)))
                    implies #[trigger] self.allowed(t, q) == before.allowed(t, q) by {
                assert(granted.allowed(t, q) == mid.allowed(t, q));
                assert(self.allowed(t, q) == granted.allowed(t, q));
                assert(mid.allowed(t, q) == before.allowed(t, q));
            }
        }
        Flow::Ready(Ok(CommandOutcome::Async))
    }
}

} // verus!
