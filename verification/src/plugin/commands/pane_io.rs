//! Writing to panes: `send`, `run` and `interrupt`.
use super::super::pane::{resolve_message, resolved, since_count, since_message};
use super::super::permissions::{access_frame, lemma_approval_asked_same, opt_view};
use super::super::state::bumped;
use super::super::{Job, QuillPlugin, WaitJob};
use super::search::{job_frame, sat_add, saturating_sum, wait_job_is, DEFAULT_WAIT_TIMEOUT};
use super::{
    access_granted, access_refused, human_text, human_view, job_added, kept, left_alone, lemma_job_id_fresh,
    job_ids_issued, text_view,
};
use crate::error::{ApiError, ApiResult, ErrorCode};
use crate::host::{
    blocks, holds_pipe, writes_text, extends, lemma_extends_trans, Effect, Flow, HostFacts, InterruptArgs,
    RunArgs, SendArgs,
};
use crate::parsing::{
    duration_nanos, hex_bytes, key_spec_bytes, parse_duration, parse_hex_bytes, parse_key_spec,
};
use crate::pattern::{compile_search_regex, regex_build};
use crate::response::{CommandOutcome, Payload, DEFAULT_WAIT_INTERVAL};
use crate::table::{has_key, insert, lookup};
use crate::text::{
    ascii_lower, ascii_lower_chars, chars_of, dec, eq_str, join, join_strings, strs, trim,
    trim_chars,
};
use crate::types::{pane_id_text, pane_id_to_string, PaneId, WaitMode};
use vstd::prelude::*;
use vstd::utf8::encode_utf8;

verus! {

/// Whether a `--keys` value asks for an interrupt: `<C-c>`, in any case,
/// around whitespace.
pub open spec fn is_ctrl_c(keys: Seq<char>) -> bool {
    ascii_lower(trim(keys)) == "<c-c>"@
}

/// The bytes of `send`'s text: the words joined by spaces, then a newline
/// unless `--no-newline`; nothing without words.
pub open spec fn text_bytes(a: SendArgs) -> Seq<u8> {
    if a.text@.len() == 0 {
        Seq::empty()
    } else {
        encode_utf8(join(strs(a.text@), " "@)) + if a.no_newline {
            Seq::<u8>::empty()
        } else {
            seq![10u8]
        }
    }
}

/// The bytes of `send`'s keys: none for an interrupt.
pub open spec fn keys_bytes(a: SendArgs) -> Option<Seq<u8>> {
    match a.keys {
        None => Some(Seq::empty()),
        Some(k) => if is_ctrl_c(k@) {
            Some(Seq::empty())
        } else {
            key_spec_bytes(k@)
        },
    }
}

/// The bytes of `send`'s `--raw-bytes`.
pub open spec fn raw_bytes_of(a: SendArgs) -> Option<Seq<u8>> {
    match a.raw_bytes {
        None => Some(Seq::empty()),
        Some(h) => hex_bytes(h@),
    }
}

/// Everything `send` writes: text, keys, raw bytes, then a newline with
/// `--enter`.
pub open spec fn send_bytes(a: SendArgs, keys: Seq<u8>, raw: Seq<u8>) -> Seq<u8> {
    text_bytes(a) + keys + raw + if a.enter {
        seq![10u8]
    } else {
        Seq::<u8>::empty()
    }
}

fn push_bytes(out: &mut Vec<u8>, b: &[u8])
    ensures
        final(out)@ == old(out)@ + b@,
{
    let mut i: usize = 0;
    while i < b.len()
        invariant
            i <= b@.len(),
            out@ == old(out)@ + b@.take(i as int),
        decreases b@.len() - i,
    {
        out.push(b[i]);
        i = i + 1;
        assert(out@ =~= old(out)@ + b@.take(i as int));
    }
    assert(b@.take(b@.len() as int) =~= b@);
}

/// A pane's name text: `id:N` or `plugin:N`, after a prefix.
fn with_pane(prefix: &str, pane_id: PaneId) -> (r: String)
    ensures
        r@ == prefix@ + pane_id_text(pane_id),
{
    let mut s = String::from_str(prefix);
    let p = pane_id_to_string(pane_id);
    s.append(p.as_str());
    s
}

/// The effects `send` adds to `f0`: SIGINT to the pane when the keys are
/// `<C-c>`, then the bytes it writes, if any; `None` where nothing is
/// written.
pub open spec fn send_effects(
    f0: Seq<Effect>,
    f1: Seq<Effect>,
    p: PaneId,
    sigint: bool,
    written: Option<Seq<u8>>,
) -> bool {
    let base = if sigint {
        f0.push(Effect::SendSigint { pane_id: p })
    } else {
        f0
    };
    match written {
        Some(b) => if b.len() > 0 {
            f1.len() == base.len() + 1 && f1.take(base.len() as int) == base && (f1.last() matches Effect::WriteBytes {
                pane_id: q,
                bytes: v,
            } && q == p && v@ == b)
        } else {
            f1 == base
        },
        None => f1 == base,
    }
}

/// What `send` does: writes text, keys or bytes to a pane.
pub open spec fn send_outcome(
    before: QuillPlugin,
    after: QuillPlugin,
    args: SendArgs,
    facts: HostFacts,
    f0: Seq<Effect>,
    f1: Seq<Effect>,
    r: Flow<ApiResult<CommandOutcome>>,
) -> bool {
    &&& access_frame(before, after)
    &&& extends(f0, f1)
    &&& match args.pane {
        None => r matches Flow::Ready(Err(x)) && x.code == ErrorCode::InvalidArgs && x.message@
            == "send requires --pane <name>"@ && left_alone(before, after, facts, f0, f1),
        Some(name) => match resolved(before, name@) {
            Err(c) => r matches Flow::Ready(Err(x)) && x.code == c
                && x.message@ == resolve_message(name@, c) && left_alone(before, after, facts, f0, f1),
            Ok(p) => if !access_granted(before, facts, text_view(args.token), p) {
                access_refused(before, after, facts, text_view(args.token), p, f0, f1, r)
            } else {
                let sigint = args.keys matches Some(k) && is_ctrl_c(k@);
                &&& kept(before, after, facts)
                &&& match (keys_bytes(args), raw_bytes_of(args)) {
                    (None, _) => r matches Flow::Ready(Err(x)) && x.code
                        == ErrorCode::InvalidKeys && f1 == f0,
                    (Some(_), None) => r matches Flow::Ready(Err(x)) && x.code
                        == ErrorCode::InvalidArgs && send_effects(f0, f1, p, sigint, None),
                    (Some(k), Some(b)) => {
                        let bytes = send_bytes(args, k, b);
                        &&& r matches Flow::Ready(
                            Ok(
                                CommandOutcome::Immediate {
                                    json_only: j,
                                    human: h,
                                    payload: Payload::Sent { pane_id },
                                },
                            ),
                        ) && j == args.json && pane_id == p && human_view(h)
                            == human_text(args.json, "sent to "@ + pane_id_text(p))
                        &&& sigint ==> f1.contains(Effect::SendSigint { pane_id: p })
                        &&& bytes.len() > 0 ==> (f1.last() matches Effect::WriteBytes {
                            pane_id: q,
                            bytes: v,
                        } && q == p && v@ == bytes)
                        &&& bytes.len() == 0 && !sigint ==> f1.len() == f0.len()
                        &&& send_effects(f0, f1, p, sigint, Some(bytes))
                    },
                }
            },
        },
    }
}

/// `send` with words and nothing else types them joined by spaces, in
/// UTF-8, then a newline, or no newline with `--no-newline`; it writes
/// nothing else and adds no effect when there is nothing to write.
pub proof fn send_types_the_words(
    before: QuillPlugin,
    after: QuillPlugin,
    args: SendArgs,
    facts: HostFacts,
    f0: Seq<Effect>,
    f1: Seq<Effect>,
    r: Flow<ApiResult<CommandOutcome>>,
)
    requires
        send_outcome(before, after, args, facts, f0, f1, r),
        args.pane matches Some(name) && resolved(before, name@) matches Ok(p) && access_granted(
            before,
            facts,
            text_view(args.token),
            p,
        ),
        args.text@.len() > 0,
        args.keys is None,
        args.raw_bytes is None,
        !args.enter,
    ensures
        r matches Flow::Ready(Ok(_)),
        ({
            let words = encode_utf8(join(strs(args.text@), " "@));
            let written = if args.no_newline {
                words
            } else {
                words.push(10u8)
            };
            &&& written.len() > 0 ==> f1.len() == f0.len() + 1 && (f1.last() matches Effect::WriteBytes {
                pane_id,
                bytes,
            } && pane_id == resolved(before, args.pane->0@)->Ok_0 && bytes@ == written)
            &&& written.len() == 0 ==> f1 == f0
        }),
{
    let words = encode_utf8(join(strs(args.text@), " "@));
    assert(words + Seq::<u8>::empty() =~= words);
    assert(words + seq![10u8] =~= words.push(10u8));
    let k = keys_bytes(args)->0;
    let b = raw_bytes_of(args)->0;
    assert(send_bytes(args, k, b) =~= text_bytes(args));
}

/// What `interrupt` does: signals a pane's process.
pub open spec fn interrupt_outcome(
    before: QuillPlugin,
    after: QuillPlugin,
    args: InterruptArgs,
    facts: HostFacts,
    f0: Seq<Effect>,
    f1: Seq<Effect>,
    r: Flow<ApiResult<CommandOutcome>>,
) -> bool {
    &&& access_frame(before, after)
    &&& extends(f0, f1)
    &&& match args.pane {
        None => r matches Flow::Ready(Err(x)) && x.code == ErrorCode::InvalidArgs && x.message@
            == "interrupt requires --pane <name>"@,
        Some(name) => match resolved(before, name@) {
            Err(c) => r matches Flow::Ready(Err(x)) && x.code == c
                && x.message@ == resolve_message(name@, c),
            Ok(p) => if !access_granted(before, facts, text_view(args.token), p) {
                access_refused(before, after, facts, text_view(args.token), p, f0, f1, r)
            } else {
                &&& r matches Flow::Ready(
                    Ok(
                        CommandOutcome::Immediate {
                            json_only: j,
                            human: h,
                            payload: Payload::Interrupted { pane_id, sigkill },
                        },
                    ),
                ) && j == args.json && pane_id == p && sigkill == args.sigkill
                    && human_view(h) == human_text(
                    args.json,
                    (if args.sigkill {
                        "sent SIGKILL to "@
                    } else {
                        "sent SIGINT to "@
                    }) + pane_id_text(p),
                )
                &&& f1.last() == if args.sigkill {
                    Effect::SendSigkill { pane_id: p }
                } else {
                    Effect::SendSigint { pane_id: p }
                }
            },
        },
    }
}

/// Sends what `send` sends to the pane `p`: a SIGINT for `<C-c>` keys,
/// then the text, key and raw bytes, as one write.
fn deliver_send(args: &SendArgs, p: PaneId, fx: &mut Vec<Effect>) -> (r: ApiResult<()>)
    ensures
        extends(old(fx)@, final(fx)@),
        match (keys_bytes(*args), raw_bytes_of(*args)) {
            (None, _) => r matches Err(x) && x.code == ErrorCode::InvalidKeys && final(fx)@ == old(fx)@,
            (Some(_), None) => r matches Err(x) && x.code == ErrorCode::InvalidArgs && send_effects(
                old(fx)@,
                final(fx)@,
                p,
                args.keys matches Some(kk) && is_ctrl_c(kk@),
                None,
            ),
            (Some(k), Some(b)) => {
                let bytes = send_bytes(*args, k, b);
                let sigint = args.keys matches Some(kk) && is_ctrl_c(kk@);
                &&& r is Ok
                &&& send_effects(old(fx)@, final(fx)@, p, sigint, Some(bytes))
                &&& sigint ==> final(fx)@.contains(Effect::SendSigint { pane_id: p })
                &&& bytes.len() > 0 ==> (final(fx)@.last() matches Effect::WriteBytes {
                    pane_id: q,
                    bytes: v,
                } && q == p && v@ == bytes)
                &&& bytes.len() == 0 && !sigint ==> final(fx)@.len() == old(fx)@.len()
            },
        },
{
    let pane_id = p;
    let mut bytes: Vec<u8> = Vec::new();
    if args.text.len() > 0 {
        let text = join_strings(&args.text, " ");
        push_bytes(&mut bytes, text.as_str().as_bytes());
        if !args.no_newline {
            bytes.push(10u8);
        }
    }
    assert(bytes@ =~= text_bytes(*args));
    let mut sigint = false;
    match &args.keys {
        Some(k) => {
            let kc = chars_of(k.as_str());
            let kt = trim_chars(&kc);
            let kl = ascii_lower_chars(&kt);
            if eq_str(&kl, "<c-c>") {
                fx.push(Effect::SendSigint { pane_id });
                sigint = true;
            } else {
                match parse_key_spec(k.as_str()) {
                    Ok(b) => push_bytes(&mut bytes, b.as_slice()),
                    Err(e) => {
                        return Err(e);
                    },
                }
            }
        },
        None => {},
    }
    let ghost fs = fx@;
    proof {
        if sigint {
            assert(fs =~= old(fx)@.push(Effect::SendSigint { pane_id }));
        } else {
            assert(fs == old(fx)@);
        }
    }
    match &args.raw_bytes {
        Some(h) => match parse_hex_bytes(h.as_str()) {
            Ok(b) => push_bytes(&mut bytes, b.as_slice()),
            Err(e) => {
                return Err(e);
            },
        },
        None => {},
    }
    if args.enter {
        bytes.push(10u8);
    }
    proof {
        let k = keys_bytes(*args)->0;
        let b = raw_bytes_of(*args)->0;
        assert(bytes@ =~= send_bytes(*args, k, b));
        if sigint {
            assert(fs[fs.len() - 1] == Effect::SendSigint { pane_id });
        }
    }
    if bytes.len() > 0 {
        fx.push(Effect::WriteBytes { pane_id, bytes });
        proof {
            assert(fx@.take(fs.len() as int) =~= fs);
            if sigint {
                assert(fx@[fs.len() - 1] == Effect::SendSigint { pane_id });
            }
        }
    }
    Ok(())
}

impl QuillPlugin {
    /// `send`: writes text, keys and raw bytes to a pane; `<C-c>` as the
    /// keys interrupts it instead.
    #[verifier::rlimit(50)]
    #[verifier::spinoff_prover]
    pub fn cmd_send(&mut self, args: &SendArgs, facts: &HostFacts, fx: &mut Vec<Effect>) -> (r: Flow<
        ApiResult<CommandOutcome>,
    >)
        requires
            old(self).wf(),
        ensures
            send_outcome(
                *old(self),
                *final(self),
                *args,
                *facts,
                old(fx)@,
                final(fx)@,
                r,
            ),
    {
        let pane_name = match &args.pane {
            Some(p) => p,
            None => {
                return Flow::Ready(
                    Err(ApiError::with_text(ErrorCode::InvalidArgs, "send requires --pane <name>")),
                );
            },
        };
        let pane_id = match self.resolve_pane_name(pane_name.as_str()) {
            Ok(p) => p,
            Err(e) => {
                return Flow::Ready(Err(e));
            },
        };
        let tok: Option<&str> = match &args.token {
            Some(t) => Some(t.as_str()),
            None => None,
        };
        assert(opt_view(tok) == text_view(args.token));
        let ghost f0 = fx@;
        let ghost access_from = *self;
        let ghost access_fx = fx@;
        let access = self.ensure_token_can_access_pane(tok, pane_id, facts, fx);
        let ghost access_result = access;
        match access {
            Flow::Need(n) => {
                proof {
                    lemma_approval_asked_same(access_from, *self, *facts, opt_view(tok), pane_id, access_fx, fx@, access_result, Flow::<ApiResult<CommandOutcome>>::Need(n));
                }
                return Flow::Need(n);
            },
            Flow::Ready(Err(e)) => {
                proof {
                    lemma_approval_asked_same(access_from, *self, *facts, opt_view(tok), pane_id, access_fx, fx@, access_result, Flow::<ApiResult<CommandOutcome>>::Ready(Err(e)));
                }
                return Flow::Ready(Err(e));
            },
            Flow::Ready(Ok(_)) => {},
        }
        let ghost f_access = fx@;
        match deliver_send(args, pane_id, fx) {
            Err(e) => {
                return Flow::Ready(Err(e));
            },
            Ok(()) => {},
        }
        proof {
            lemma_extends_trans(old(fx)@, f_access, fx@);
        }
        let human = if args.json {
            None
        } else {
            Some(with_pane("sent to ", pane_id))
        };
        Flow::Ready(
            Ok(CommandOutcome::Immediate { json_only: args.json, human, payload: Payload::Sent { pane_id } }),
        )
    }

    /// `interrupt`: sends a pane SIGINT, or SIGKILL with `--sigkill`.
    pub fn cmd_interrupt(&mut self, args: &InterruptArgs, facts: &HostFacts, fx: &mut Vec<Effect>) -> (r: Flow<
        ApiResult<CommandOutcome>,
    >)
        requires
            old(self).wf(),
        ensures
            interrupt_outcome(
                *old(self),
                *final(self),
                *args,
                *facts,
                old(fx)@,
                final(fx)@,
                r,
            ),
    {
        let pane_name = match &args.pane {
            Some(p) => p,
            None => {
                return Flow::Ready(
                    Err(ApiError::with_text(ErrorCode::InvalidArgs, "interrupt requires --pane <name>")),
                );
            },
        };
        let pane_id = match self.resolve_pane_name(pane_name.as_str()) {
            Ok(p) => p,
            Err(e) => {
                return Flow::Ready(Err(e));
            },
        };
        let tok: Option<&str> = match &args.token {
            Some(t) => Some(t.as_str()),
            None => None,
        };
        assert(opt_view(tok) == text_view(args.token));
        let ghost access_from = *self;
        let ghost access_fx = fx@;
        let access = self.ensure_token_can_access_pane(tok, pane_id, facts, fx);
        let ghost access_result = access;
        match access {
            Flow::Need(n) => {
                proof {
                    lemma_approval_asked_same(access_from, *self, *facts, opt_view(tok), pane_id, access_fx, fx@, access_result, Flow::<ApiResult<CommandOutcome>>::Need(n));
                }
                return Flow::Need(n);
            },
            Flow::Ready(Err(e)) => {
                proof {
                    lemma_approval_asked_same(access_from, *self, *facts, opt_view(tok), pane_id, access_fx, fx@, access_result, Flow::<ApiResult<CommandOutcome>>::Ready(Err(e)));
                }
                return Flow::Ready(Err(e));
            },
            Flow::Ready(Ok(_)) => {},
        }
        let ghost f0 = fx@;
        if args.sigkill {
            fx.push(Effect::SendSigkill { pane_id });
        } else {
            fx.push(Effect::SendSigint { pane_id });
        }
        proof {
            lemma_extends_trans(old(fx)@, f0, fx@);
        }
        let human = if args.json {
            None
        } else if args.sigkill {
            Some(with_pane("sent SIGKILL to ", pane_id))
        } else {
            Some(with_pane("sent SIGINT to ", pane_id))
        };
        Flow::Ready(
            Ok(
                CommandOutcome::Immediate {
                    json_only: args.json,
                    human,
                    payload: Payload::Interrupted { pane_id, sigkill: args.sigkill },
                },
            ),
        )
    }
}


/// What a duration text reads as: nanoseconds, or the code of the error.
pub open spec fn duration_result(t: Seq<char>) -> Result<nat, ErrorCode> {
    if trim(t).len() == 0 {
        Err(ErrorCode::InvalidDuration)
    } else {
        match duration_nanos(t) {
            Some(n) => Ok(n),
            None => Err(ErrorCode::InvalidArgs),
        }
    }
}

/// How long `run --wait` waits: `--timeout`, or thirty seconds.
pub open spec fn run_timeout(a: RunArgs) -> Result<nat, ErrorCode> {
    match a.timeout {
        Some(t) => duration_result(t@),
        None => Ok(DEFAULT_WAIT_TIMEOUT as nat),
    }
}

/// The text `run` types into the pane.
pub open spec fn run_text(a: RunArgs) -> Seq<char> {
    join(strs(a.command@), " "@) + if a.no_enter {
        Seq::<char>::empty()
    } else {
        "\n"@
    }
}

/// What `run` does: types a command line into a pane, and nothing else. The
/// line is typed once the pane is found and may be reached, before the wait
/// pattern and the mark are read; with `--wait` the pipe is then held and a
/// job looks for the pattern.
pub open spec fn run_outcome(
    before: QuillPlugin,
    after: QuillPlugin,
    args: RunArgs,
    pipe_id: Option<&str>,
    facts: HostFacts,
    f0: Seq<Effect>,
    f1: Seq<Effect>,
    r: Flow<ApiResult<CommandOutcome>>,
) -> bool {
    &&& job_frame(before, after)
    &&& extends(f0, f1)
    &&& r is Need ==> after.jobs == before.jobs && f1 == f0
    &&& match run_timeout(args) {
        Err(c) => r matches Flow::Ready(Err(x)) && x.code == c && left_alone(before, after, facts, f0, f1),
        Ok(timeout) => if args.command@.len() == 0 {
            r matches Flow::Ready(Err(x)) && x.code == ErrorCode::InvalidArgs && x.message@
                == "run requires a command string after --"@ && left_alone(before, after, facts, f0, f1)
        } else if args.wait is Some && pipe_id is None {
            r matches Flow::Ready(Err(x)) && x.code == ErrorCode::PipeRequired && x.message@
                == "run --wait requires a CLI pipe source"@ && left_alone(before, after, facts, f0, f1)
        } else {
            match args.pane {
                None => r matches Flow::Ready(Err(x)) && x.code == ErrorCode::InvalidArgs && x.message@
            == "run requires --pane <name>"@ && left_alone(before, after, facts, f0, f1),
                Some(name) => match resolved(before, name@) {
                    Err(c) => r matches Flow::Ready(Err(x)) && x.code == c
                        && x.message@ == resolve_message(name@, c) && left_alone(before, after, facts, f0, f1),
                    Ok(p) => if !access_granted(before, facts, text_view(args.token), p) {
                        access_refused(before, after, facts, text_view(args.token), p, f0, f1, r)
                    } else {
                        &&& f1.len() > f0.len()
                        &&& f1.take(f0.len() as int) == f0
                        &&& writes_text(f1[f0.len() as int], p, run_text(args))
                        &&& exists|i: int|
                            0 <= i < f1.len() && (#[trigger] f1[i] matches Effect::WriteChars {
                                pane_id: q,
                                text: t,
                            } && q == p && t@ == run_text(args))
                        &&& match args.wait {
                            None => r matches Flow::Ready(
                                Ok(
                                    CommandOutcome::Immediate {
                                        json_only: j,
                                        human: h,
                                        payload: Payload::Ran { pane_id },
                                    },
                                ),
                            ) && j == args.json && pane_id == p && human_view(h)
                                == human_text(args.json, "ran in "@ + pane_id_text(p))
                                && f1.len() == f0.len() + 1 && kept(before, after, facts),
                            Some(w) => if regex_build(w@, false) is Err {
                                r matches Flow::Ready(Err(x)) && x.code == ErrorCode::InvalidRegex
                                    && f1.len() == f0.len() + 1 && kept(before, after, facts)
                            } else {
                                let since = match args.since {
                                    None => Some(None),
                                    Some(t) => match since_count(before, t@, p) {
                                        None => None,
                                        Some(n) => Some(Some(n)),
                                    },
                                };
                                match since {
                                    None => r matches Flow::Ready(Err(x)) && x.code
                                        == ErrorCode::InvalidMark && x.message@
                                        == since_message(before, args.since->0@)
                                        && f1.len() == f0.len() + 1 && kept(before, after, facts),
                                    Some(since) => {
                                        let id = "job-"@ + dec(after.next_job_id as nat);
                                        &&& r matches Flow::Ready(Ok(CommandOutcome::Async))
                                        &&& f1.len() == f0.len() + 3
                                        &&& holds_pipe(f1[f0.len() + 1int], pipe_id->0@)
                                        &&& f1[f0.len() + 2int] == Effect::ScheduleTimer
                                        &&& blocks(f1, pipe_id->0@)
                                        &&& job_added(before, after, facts, id)
                                        &&& after.next_job_id == bumped(before.next_job_id)
                                        &&& lookup(after.jobs@, id) matches Some(Job::Wait(j))
                                            && wait_job_is(
                                            j,
                                            pipe_id->0@,
                                            p,
                                            w@,
                                            1,
                                            400,
                                            WaitMode::Any,
                                            sat_add(facts.now, timeout as u128),
                                            facts.now,
                                            DEFAULT_WAIT_INTERVAL,
                                            args.json,
                                            since,
                                        )
                                        &&& f1.last() == Effect::ScheduleTimer
                                    },
                                }
                            },
                        }
                    },
                },
            }
        },
    }
}

impl QuillPlugin {
    /// `run`: types a command line into a pane; with `--wait`, answers once
    /// the pane's latest line matches the pattern.
    #[verifier::rlimit(50)]
    #[verifier::spinoff_prover]
    pub fn cmd_run(
        &mut self,
        args: &RunArgs,
        pipe_id: Option<&str>,
        facts: &HostFacts,
        fx: &mut Vec<Effect>,
    ) -> (r: Flow<ApiResult<CommandOutcome>>)
        requires
            old(self).wf(),
        ensures
            run_outcome(
                *old(self),
                *final(self),
                *args,
                pipe_id,
                *facts,
                old(fx)@,
                final(fx)@,
                r,
            ),
    {
        let timeout = match &args.timeout {
            Some(t) => match parse_duration(t.as_str()) {
                Ok(n) => n,
                Err(e) => {
                    return Flow::Ready(Err(e));
                },
            },
            None => DEFAULT_WAIT_TIMEOUT,
        };
        if args.command.len() == 0 {
            return Flow::Ready(
                Err(ApiError::with_text(ErrorCode::InvalidArgs, "run requires a command string after --")),
            );
        }
        if args.wait.is_some() && pipe_id.is_none() {
            return Flow::Ready(
                Err(ApiError::with_text(ErrorCode::PipeRequired, "run --wait requires a CLI pipe source")),
            );
        }
        let pane_name = match &args.pane {
            Some(p) => p,
            None => {
                return Flow::Ready(
                    Err(ApiError::with_text(ErrorCode::InvalidArgs, "run requires --pane <name>")),
                );
            },
        };
        let pane_id = match self.resolve_pane_name(pane_name.as_str()) {
            Ok(p) => p,
            Err(e) => {
                return Flow::Ready(Err(e));
            },
        };
        let tok: Option<&str> = match &args.token {
            Some(t) => Some(t.as_str()),
            None => None,
        };
        assert(opt_view(tok) == text_view(args.token));
        let ghost access_from = *self;
        let ghost access_fx = fx@;
        let access = self.ensure_token_can_access_pane(tok, pane_id, facts, fx);
        let ghost access_result = access;
        match access {
            Flow::Need(n) => {
                proof {
                    lemma_approval_asked_same(access_from, *self, *facts, opt_view(tok), pane_id, access_fx, fx@, access_result, Flow::<ApiResult<CommandOutcome>>::Need(n));
                }
                return Flow::Need(n);
            },
            Flow::Ready(Err(e)) => {
                proof {
                    lemma_approval_asked_same(access_from, *self, *facts, opt_view(tok), pane_id, access_fx, fx@, access_result, Flow::<ApiResult<CommandOutcome>>::Ready(Err(e)));
                }
                return Flow::Ready(Err(e));
            },
            Flow::Ready(Ok(_)) => {},
        }
        let ghost mid = *self;
        assert(kept(*old(self), mid, *facts));
        let mut text = join_strings(&args.command, " ");
        if !args.no_enter {
            text.append("\n");
        }
        let ghost f0 = fx@;
        let ghost written = Effect::WriteChars { pane_id, text };
        assert(text@ == run_text(*args));
        fx.push(Effect::WriteChars { pane_id, text });
        assert(fx@[f0.len() as int] == written);
        assert(writes_text(fx@[f0.len() as int], pane_id, run_text(*args)));
        assert(fx@.take(f0.len() as int) =~= f0);
        let wait = match &args.wait {
            None => {
                let human = if args.json {
                    None
                } else {
                    Some(with_pane("ran in ", pane_id))
                };
                return Flow::Ready(
                    Ok(
                        CommandOutcome::Immediate {
                            json_only: args.json,
                            human,
                            payload: Payload::Ran { pane_id },
                        },
                    ),
                );
            },
            Some(w) => w,
        };
        let pipe = match pipe_id {
            Some(p) => p,
            None => {
                return Flow::Ready(
                    Err(ApiError::with_text(ErrorCode::PipeRequired, "run --wait requires a CLI pipe source")),
                );
            },
        };
        let regex = match compile_search_regex(wait.as_str(), false, false) {
            Ok(re) => re,
            Err(e) => {
                return Flow::Ready(Err(e));
            },
        };
        let since_count = match &args.since {
            None => None,
            Some(t) => match self.resolve_since_line_count(t.as_str(), pane_id) {
                Ok(n) => Some(n),
                Err(e) => {
                    return Flow::Ready(Err(e));
                },
            },
        };
        let ghost f1 = fx@;
        self.block_pipe(pipe, fx);
        let ghost held = fx@.len() - 1;
        proof {
            assert(fx@[held] == fx@.last());
            assert(fx@.take(f1.len() as int)[f0.len() as int] == f1[f0.len() as int]);
            assert(fx@[f0.len() as int] == written);
            assert(extends(f1, fx@));
            lemma_extends_trans(old(fx)@, f1, fx@);
            assert(holds_pipe(fx@[held], pipe@));
        }
        let job_id = self.next_job_id();
        let job = WaitJob {
            pipe_id: String::from_str(pipe),
            pane_id,
            regex,
            last_n: 1,
            window: 400,
            mode: WaitMode::Any,
            deadline: saturating_sum(facts.now, timeout),
            next_poll_at: facts.now,
            interval: DEFAULT_WAIT_INTERVAL,
            json_only: args.json,
            since_line_count: since_count,
        };
        let ghost jid = job_id@;
        insert(&mut self.jobs, job_id, Job::Wait(job));
        assert(lookup(self.jobs@, jid) matches Some(Job::Wait(_)));
        let ghost f2 = fx@;
        self.schedule_job_timer(fx);
        proof {
            assert(has_key(self.jobs@, jid));
            assert(self.jobs@.len() > 0);
            assert(fx@[f0.len() as int] == written);
            assert(extends(f2, fx@));
            lemma_extends_trans(old(fx)@, f2, fx@);
            assert(fx@[held] == f2[held]);
            assert(QuillPlugin { jobs: old(self).jobs, next_job_id: old(self).next_job_id, ..*self } == mid);
            if job_ids_issued(*old(self)) && old(self).next_job_id < u64::MAX {
                lemma_job_id_fresh(*old(self), *self, jid);
            }
            assert(f0 == old(fx)@);
            assert(fx@.len() == f0.len() + 3);
            assert(holds_pipe(fx@[f0.len() + 1int], pipe@));
            assert(fx@[f0.len() + 2int] == Effect::ScheduleTimer);
            assert(fx@.take(f0.len() as int) =~= f0);
            assert(kept(*old(self), QuillPlugin { jobs: old(self).jobs, next_job_id: old(self).next_job_id, ..*self }, *facts));
            assert(job_added(*old(self), *self, *facts, jid));
        }
        Flow::Ready(Ok(CommandOutcome::Async))
    }
}

} // verus!
