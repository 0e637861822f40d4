//! Reading a pane: `tail`, `grep` and `wait`.
use super::super::pane::{pane_lines_of, resolve_message, resolved, scrollback_for, since_count, since_message};
use super::super::permissions::{access_frame, lemma_approval_asked_same, opt_view};
use super::super::QuillPlugin;
use super::{
    access_granted, access_refused, human_text, human_view, job_added, job_ids_issued, kept, left_alone,
    lemma_job_id_fresh,
};
use crate::error::{ApiError, ApiResult, ErrorCode};
use crate::flags::{
    duration_at, mode_at, wait_mode_of, count_at, from_at, last_among, last_switch, last_value,
    read_flags, scan_error_code, scan_message_fits, switch_at, text_at, flags_read, tail_from_of,
    FlagDef, Positionals, ValueKind,
};
use crate::host::{
    blocks, holds_pipe, extends, lemma_extends_trans, Effect, Flow, HostFacts, HostRequest,
};
use crate::parsing::{duration_nanos, Nanos};
use crate::response::DEFAULT_WAIT_INTERVAL;
use crate::table::{has_key, insert, lookup};
use super::super::state::bumped;
use super::super::{Job, WaitJob};
use crate::response::{CommandOutcome, Payload};
use crate::text::{dec, decimal, join, join_strings, parse_unsigned, strs, trim};
use crate::types::{GrepMatch, GrepMatchView, PaneContents, PaneId, TailFrom, WaitMode};
use crate::util::{build_grep_matches, copy_strings, grep_matches, match_views};
use crate::pattern::{
    compile_search_regex, regex_build, regex_is_match, search_pattern, SearchRegex,
};
use vstd::prelude::*;

verus! {

/// `a - b`, or zero when `b` is larger.
pub open spec fn sat_sub(a: nat, b: nat) -> nat {
    if a >= b {
        (a - b) as nat
    } else {
        0
    }
}

/// The last `n` items of `s`, or all of them when there are fewer.
pub open spec fn last_items<A>(s: Seq<A>, n: nat) -> Seq<A> {
    if s.len() <= n {
        s
    } else {
        s.skip(s.len() - n)
    }
}

/// What `tail` selects from a pane's lines, and whether a `--since` mark
/// lay past their end: the lines after the mark (all of them when it lay
/// past the end), then the last `count` of them, the first `count`, or the
/// last `count` of those in the viewport.
pub open spec fn tail_selection(
    all: Seq<Seq<char>>,
    viewport_start: nat,
    viewport_end: nat,
    since: Option<nat>,
    count: nat,
    from: TailFrom,
) -> (Seq<Seq<char>>, bool) {
    let (source, base, truncated) = match since {
        Some(c) => if c > all.len() {
            (all, 0nat, true)
        } else {
            (all.skip(c as int), c, false)
        },
        None => (all, 0nat, false),
    };
    let selected = match from {
        TailFrom::End => last_items(source, count),
        TailFrom::Top => if source.len() <= count {
            source
        } else {
            source.take(count as int)
        },
        TailFrom::Viewport => {
            let start = sat_sub(viewport_start, base);
            let end = if sat_sub(viewport_end, base) <= source.len() {
                sat_sub(viewport_end, base)
            } else {
                source.len()
            };
            if start >= end {
                Seq::empty()
            } else {
                last_items(source.subrange(start as int, end as int), count)
            }
        },
    };
    (selected, truncated)
}

/// Where the lines `tail` selects lie among all of them.
pub open spec fn tail_range(
    n: nat,
    viewport_start: nat,
    viewport_end: nat,
    since: Option<nat>,
    count: nat,
    from: TailFrom,
) -> (nat, nat) {
    let (lo, base) = match since {
        Some(c) => if c > n {
            (0nat, 0nat)
        } else {
            (c, c)
        },
        None => (0nat, 0nat),
    };
    let len = (n - lo) as nat;
    match from {
        TailFrom::End => if len <= count {
            (lo, n)
        } else {
            ((n - count) as nat, n)
        },
        TailFrom::Top => if len <= count {
            (lo, n)
        } else {
            (lo, lo + count)
        },
        TailFrom::Viewport => {
            let st = sat_sub(viewport_start, base);
            let e = if sat_sub(viewport_end, base) <= len {
                sat_sub(viewport_end, base)
            } else {
                len
            };
            if st >= e {
                (lo, lo)
            } else if e - st <= count {
                (lo + st, lo + e)
            } else {
                ((lo + e - count) as nat, lo + e)
            }
        },
    }
}

proof fn lemma_tail_range<A>(
    s: Seq<A>,
    viewport_start: nat,
    viewport_end: nat,
    since: Option<nat>,
    count: nat,
    from: TailFrom,
)
    ensures
        ({
            let (st, en) = tail_range(s.len(), viewport_start, viewport_end, since, count, from);
            st <= en <= s.len() && tail_selection_of(s, viewport_start, viewport_end, since, count, from)
                == s.subrange(st as int, en as int)
        }),
{
    let (st, en) = tail_range(s.len(), viewport_start, viewport_end, since, count, from);
    let lo: nat = match since {
        Some(c) => if c > s.len() {
            0nat
        } else {
            c
        },
        None => 0nat,
    };
    let source = s.skip(lo as int);
    assert(s.skip(0) =~= s);
    match from {
        TailFrom::End => {
            if source.len() > count {
                assert(source.skip(source.len() - count) =~= s.subrange(st as int, en as int));
            } else {
                assert(source =~= s.subrange(st as int, en as int));
            }
        },
        TailFrom::Top => {
            if source.len() > count {
                assert(source.take(count as int) =~= s.subrange(st as int, en as int));
            } else {
                assert(source =~= s.subrange(st as int, en as int));
            }
        },
        TailFrom::Viewport => {
            let base = lo;
            let a = sat_sub(viewport_start, base);
            let e = if sat_sub(viewport_end, base) <= source.len() {
                sat_sub(viewport_end, base)
            } else {
                source.len()
            };
            if a >= e {
                assert(Seq::<A>::empty() =~= s.subrange(st as int, en as int));
            } else {
                let v = source.subrange(a as int, e as int);
                if v.len() <= count {
                    assert(v =~= s.subrange(st as int, en as int));
                } else {
                    assert(v.skip(v.len() - count) =~= s.subrange(st as int, en as int));
                }
            }
        },
    }
}

/// `tail_selection`'s lines, for any kind of item.
pub open spec fn tail_selection_of<A>(
    all: Seq<A>,
    viewport_start: nat,
    viewport_end: nat,
    since: Option<nat>,
    count: nat,
    from: TailFrom,
) -> Seq<A> {
    let (source, base) = match since {
        Some(c) => if c > all.len() {
            (all, 0nat)
        } else {
            (all.skip(c as int), c)
        },
        None => (all, 0nat),
    };
    match from {
        TailFrom::End => last_items(source, count),
        TailFrom::Top => if source.len() <= count {
            source
        } else {
            source.take(count as int)
        },
        TailFrom::Viewport => {
            let start = sat_sub(viewport_start, base);
            let end = if sat_sub(viewport_end, base) <= source.len() {
                sat_sub(viewport_end, base)
            } else {
                source.len()
            };
            if start >= end {
                Seq::empty()
            } else {
                last_items(source.subrange(start as int, end as int), count)
            }
        },
    }
}

fn tail_bounds(
    n: usize,
    viewport_start: usize,
    viewport_end: usize,
    since: Option<usize>,
    count: usize,
    from: TailFrom,
) -> (r: (usize, usize, bool))
    ensures
        (r.0 as nat, r.1 as nat) == tail_range(
            n as nat,
            viewport_start as nat,
            viewport_end as nat,
            match since {
                Some(c) => Some(c as nat),
                None => None,
            },
            count as nat,
            from,
        ),
        r.2 == (since matches Some(c) && c > n),
{
    let (lo, base, truncated): (usize, usize, bool) = match since {
        Some(c) => if c > n {
            (0, 0, true)
        } else {
            (c, c, false)
        },
        None => (0, 0, false),
    };
    let len = n - lo;
    match from {
        TailFrom::End => if len <= count {
            (lo, n, truncated)
        } else {
            (n - count, n, truncated)
        },
        TailFrom::Top => if len <= count {
            (lo, n, truncated)
        } else {
            (lo, lo + count, truncated)
        },
        TailFrom::Viewport => {
            let s = if viewport_start >= base {
                viewport_start - base
            } else {
                0
            };
            let e0 = if viewport_end >= base {
                viewport_end - base
            } else {
                0
            };
            let e = if e0 <= len {
                e0
            } else {
                len
            };
            if s >= e {
                (lo, lo, truncated)
            } else if e - s <= count {
                (lo + s, lo + e, truncated)
            } else {
                (lo + e - count, lo + e, truncated)
            }
        },
    }
}

/// Selects the lines `tail` answers with.
pub fn select_tail(
    all: &Vec<String>,
    viewport_start: usize,
    viewport_end: usize,
    since: Option<usize>,
    count: usize,
    from: TailFrom,
) -> (r: (Vec<String>, bool))
    ensures
        (strs(r.0@), r.1) == tail_selection(
            strs(all@),
            viewport_start as nat,
            viewport_end as nat,
            match since {
                Some(c) => Some(c as nat),
                None => None,
            },
            count as nat,
            from,
        ),
{
    let ghost sn: Option<nat> = match since {
        Some(c) => Some(c as nat),
        None => None,
    };
    let (start, end, truncated) = tail_bounds(all.len(), viewport_start, viewport_end, since, count, from);
    proof {
        lemma_tail_range(strs(all@), viewport_start as nat, viewport_end as nat, sn, count as nat, from);
    }
    let selected = copy_strings(all.as_slice(), start, end);
    proof {
        assert(strs(selected@) =~= strs(all@).subrange(start as int, end as int));
        assert(tail_selection(strs(all@), viewport_start as nat, viewport_end as nat, sn, count as nat, from).0
            == tail_selection_of(strs(all@), viewport_start as nat, viewport_end as nat, sn, count as nat, from));
    }
    (selected, truncated)
}

/// The flags of `tail`.
pub open spec fn tail_defs() -> Seq<FlagDef> {
    seq![
        FlagDef { long: "--json", short: None, kind: ValueKind::Switch },
        FlagDef { long: "--pane", short: None, kind: ValueKind::Text },
        FlagDef { long: "--lines", short: Some("-n"), kind: ValueKind::Count },
        FlagDef { long: "--from", short: None, kind: ValueKind::From },
        FlagDef { long: "--strip-ansi", short: None, kind: ValueKind::Switch },
        FlagDef { long: "--no-strip-ansi", short: None, kind: ValueKind::Switch },
        FlagDef { long: "--since", short: None, kind: ValueKind::Text },
        FlagDef { long: "--token", short: None, kind: ValueKind::Text },
    ]
}

fn tail_flags() -> (r: Vec<FlagDef>)
    ensures
        r@ == tail_defs(),
{
    let mut v: Vec<FlagDef> = Vec::new();
    v.push(FlagDef { long: "--json", short: None, kind: ValueKind::Switch });
    v.push(FlagDef { long: "--pane", short: None, kind: ValueKind::Text });
    v.push(FlagDef { long: "--lines", short: Some("-n"), kind: ValueKind::Count });
    v.push(FlagDef { long: "--from", short: None, kind: ValueKind::From });
    v.push(FlagDef { long: "--strip-ansi", short: None, kind: ValueKind::Switch });
    v.push(FlagDef { long: "--no-strip-ansi", short: None, kind: ValueKind::Switch });
    v.push(FlagDef { long: "--since", short: None, kind: ValueKind::Text });
    v.push(FlagDef { long: "--token", short: None, kind: ValueKind::Text });
    assert(v@ =~= tail_defs());
    v
}

/// The number of lines `tail` takes, as its flags give it.
pub open spec fn tail_count(raw: Seq<crate::flags::RawHit>) -> nat {
    match last_value(raw, 2) {
        None => 200,
        Some(v) => parse_unsigned(trim(v), usize::MAX as nat)->0,
    }
}

/// Where `tail` takes its lines from, as its flags give it.
pub open spec fn tail_from(raw: Seq<crate::flags::RawHit>) -> TailFrom {
    match last_value(raw, 3) {
        None => TailFrom::End,
        Some(v) => tail_from_of(v)->0,
    }
}

/// Whether `tail` strips escape sequences: unless `--no-strip-ansi` came
/// after any `--strip-ansi`.
pub open spec fn tail_strips(raw: Seq<crate::flags::RawHit>) -> bool {
    last_among(raw, 4, 5) != Some(5int)
}

/// What `tail` does: the last, first or viewport lines of a pane, or those
/// after a mark.
pub open spec fn tail_outcome(
    before: QuillPlugin,
    after: QuillPlugin,
    args: Vec<String>,
    facts: HostFacts,
    f0: Seq<Effect>,
    f1: Seq<Effect>,
    r: Flow<ApiResult<CommandOutcome>>,
) -> bool {
    &&& access_frame(before, after)
    &&& extends(f0, f1)
    &&& match flags_read(args@, tail_defs(), Positionals::Forbidden) {
        Err(e) => r matches Flow::Ready(Err(x)) && x.code == scan_error_code(e)
            && scan_message_fits(e, x.message@, "tail/read"@, ""@),
        Ok(raw) => match last_value(raw, 1) {
            None => r matches Flow::Ready(Err(x)) && x.code == ErrorCode::InvalidArgs && x.message@
            == "tail requires --pane <name>"@,
            Some(name) => match resolved(before, name) {
                Err(c) => r matches Flow::Ready(Err(x)) && x.code == c
                    && x.message@ == resolve_message(name, c),
                Ok(p) => if !access_granted(before, facts, last_value(raw, 7), p) {
                    access_refused(before, after, facts, last_value(raw, 7), p, f0, f1, r)
                } else {
                    match scrollback_for(facts.scrollbacks@, p) {
                        None => r matches Flow::Need(HostRequest::Scrollback { pane_id })
                            && pane_id == p,
                        Some(Err(_)) => r matches Flow::Ready(Err(x)) && x.code
                            == ErrorCode::ScrollbackError,
                        Some(Ok(c)) => {
                            let since = match last_value(raw, 6) {
                                None => Some(None),
                                Some(t) => match since_count(before, t, p) {
                                    None => None,
                                    Some(n) => Some(Some(n as nat)),
                                },
                            };
                            match since {
                                None => r matches Flow::Ready(Err(x)) && x.code
                                    == ErrorCode::InvalidMark && x.message@
                                    == since_message(before, last_value(raw, 6)->0),
                                Some(since) => {
                                    let all = pane_lines_of(c, tail_strips(raw));
                                    let vs = c.lines_above_viewport@.len();
                                    let sel = tail_selection(
                                        all,
                                        vs,
                                        vs + c.viewport@.len(),
                                        since,
                                        tail_count(raw),
                                        tail_from(raw),
                                    );
                                    let json_only = last_value(raw, 0) is Some;
                                    r matches Flow::Ready(
                                        Ok(
                                            CommandOutcome::Immediate {
                                                json_only: j,
                                                human: h,
                                                payload: Payload::Tail {
                                                    pane_id,
                                                    lines,
                                                    truncated_since,
                                                },
                                            },
                                        ),
                                    ) && j == json_only && pane_id == p && strs(lines@)
                                        == sel.0 && truncated_since == sel.1
                                        && human_view(h) == human_text(
                                        json_only,
                                        join(sel.0, "\n"@),
                                    )
                                },
                            }
                        },
                    }
                },
            },
        },
    }
}

impl QuillPlugin {
    /// `tail` (also `read`): the last, first or viewport lines of a pane,
    /// optionally only those after a `--since` mark.
    #[verifier::rlimit(50)]
    #[verifier::spinoff_prover]
    pub fn cmd_tail(&mut self, args: &Vec<String>, facts: &HostFacts, fx: &mut Vec<Effect>) -> (r: Flow<
        ApiResult<CommandOutcome>,
    >)
        requires
            old(self).wf(),
        ensures
            tail_outcome(
                *old(self),
                *final(self),
                *args,
                *facts,
                old(fx)@,
                final(fx)@,
                r,
            ),
    {
        let defs = tail_flags();
        let hits = match read_flags(args, &defs, Positionals::Forbidden, "tail/read", "") {
            Ok(h) => h,
            Err(e) => {
                return Flow::Ready(Err(e));
            },
        };
        let ghost raw = flags_read(args@, defs@, Positionals::Forbidden)->Ok_0;
        let json_only = switch_at(&hits, 0, Ghost(raw));
        let pane = text_at(&hits, 1, Ghost(defs@), Ghost(raw));
        let count = count_at(&hits, 2, 200, Ghost(defs@), Ghost(raw));
        let from = from_at(&hits, 3, TailFrom::End, Ghost(defs@), Ghost(raw));
        let strip = match last_switch(&hits, 4, 5, Ghost(raw)) {
            Some(i) => i != 5,
            None => true,
        };
        let since = text_at(&hits, 6, Ghost(defs@), Ghost(raw));
        let token = text_at(&hits, 7, Ghost(defs@), Ghost(raw));
        let pane_name = match pane {
            Some(p) => p,
            None => {
                return Flow::Ready(
                    Err(ApiError::with_text(ErrorCode::InvalidArgs, "tail requires --pane <name>")),
                );
            },
        };
        let pane_id = match self.resolve_pane_name(pane_name.as_str()) {
            Ok(p) => p,
            Err(e) => {
                return Flow::Ready(Err(e));
            },
        };
        let tok: Option<&str> = match &token {
            Some(t) => Some(t.as_str()),
            None => None,
        };
        assert(opt_view(tok) == last_value(raw, 7));
        let ghost access_from = *self;
        let ghost access_fx = fx@;
        let access = self.ensure_token_can_access_pane(tok, pane_id, facts, fx);
        let ghost access_result = access;
        match access {
            Flow::Need(n) => {
                proof {
                    lemma_approval_asked_same(access_from, *self, *facts, opt_view(tok), pane_id, access_fx, fx@, access_result, Flow::<ApiResult<CommandOutcome>>::Need(n));
                }
                return Flow::Need(n);
            },
            Flow::Ready(Err(e)) => {
                proof {
                    lemma_approval_asked_same(access_from, *self, *facts, opt_view(tok), pane_id, access_fx, fx@, access_result, Flow::<ApiResult<CommandOutcome>>::Ready(Err(e)));
                }
                return Flow::Ready(Err(e));
            },
            Flow::Ready(Ok(_)) => {},
        }
        let pl = match self.read_pane_lines(pane_id, strip, facts) {
            Flow::Need(n) => {
                return Flow::Need(n);
            },
            Flow::Ready(Err(e)) => {
                return Flow::Ready(Err(e));
            },
            Flow::Ready(Ok(l)) => l,
        };
        let since_count = match since {
            None => None,
            Some(t) => match self.resolve_since_line_count(t.as_str(), pane_id) {
                Ok(n) => Some(n),
                Err(e) => {
                    return Flow::Ready(Err(e));
                },
            },
        };
        let (selected, truncated) = select_tail(
            &pl.all,
            pl.viewport_start,
            pl.viewport_end_exclusive,
            since_count,
            count,
            from,
        );
        proof {
            let c = scrollback_for(facts.scrollbacks@, pane_id)->0->Ok_0;
            assert(strip == tail_strips(raw));
            assert(strs(pl.all@) == pane_lines_of(c, tail_strips(raw)));
            assert(count as nat == tail_count(raw));
            assert(from == tail_from(raw));
            assert(pl.viewport_start == c.lines_above_viewport@.len());
        }
        let human = if json_only {
            None
        } else {
            Some(join_strings(&selected, "\n"))
        };
        Flow::Ready(
            Ok(
                CommandOutcome::Immediate {
                    json_only,
                    human,
                    payload: Payload::Tail { pane_id, lines: selected, truncated_since: truncated },
                },
            ),
        )
    }
}

/// The flags of `grep`; its pattern fills the slot after them.
pub open spec fn grep_defs() -> Seq<FlagDef> {
    seq![
        FlagDef { long: "--json", short: None, kind: ValueKind::Switch },
        FlagDef { long: "--pane", short: None, kind: ValueKind::Text },
        FlagDef { long: "-n", short: None, kind: ValueKind::Switch },
        FlagDef { long: "--context", short: Some("-C"), kind: ValueKind::Count },
        FlagDef { long: "--ignore-case", short: Some("-i"), kind: ValueKind::Switch },
        FlagDef { long: "--fixed-strings", short: Some("-F"), kind: ValueKind::Switch },
        FlagDef { long: "--last", short: None, kind: ValueKind::Count },
        FlagDef { long: "--since", short: None, kind: ValueKind::Text },
        FlagDef { long: "--token", short: None, kind: ValueKind::Text },
    ]
}

fn grep_flags() -> (r: Vec<FlagDef>)
    ensures
        r@ == grep_defs(),
{
    let mut v: Vec<FlagDef> = Vec::new();
    v.push(FlagDef { long: "--json", short: None, kind: ValueKind::Switch });
    v.push(FlagDef { long: "--pane", short: None, kind: ValueKind::Text });
    v.push(FlagDef { long: "-n", short: None, kind: ValueKind::Switch });
    v.push(FlagDef { long: "--context", short: Some("-C"), kind: ValueKind::Count });
    v.push(FlagDef { long: "--ignore-case", short: Some("-i"), kind: ValueKind::Switch });
    v.push(FlagDef { long: "--fixed-strings", short: Some("-F"), kind: ValueKind::Switch });
    v.push(FlagDef { long: "--last", short: None, kind: ValueKind::Count });
    v.push(FlagDef { long: "--since", short: None, kind: ValueKind::Text });
    v.push(FlagDef { long: "--token", short: None, kind: ValueKind::Text });
    assert(v@ =~= grep_defs());
    v
}

/// A count flag's value, or its default.
pub open spec fn count_or(raw: Seq<crate::flags::RawHit>, index: int, default: nat) -> nat {
    match last_value(raw, index) {
        None => default,
        Some(v) => parse_unsigned(trim(v), usize::MAX as nat)->0,
    }
}

/// The lines after a `--since` mark: none when it lies past their end.
pub open spec fn lines_since<A>(all: Seq<A>, since: Option<nat>) -> Seq<A> {
    match since {
        None => all,
        Some(c) => if c > all.len() {
            Seq::empty()
        } else {
            all.skip(c as int)
        },
    }
}

/// Where the last `n` items start.
pub open spec fn last_start(len: nat, n: nat) -> nat {
    if len <= n {
        0
    } else {
        (len - n) as nat
    }
}

/// One line of `grep`'s human text.
pub open spec fn grep_line(m: GrepMatchView, numbers: bool) -> Seq<char> {
    if numbers {
        dec(m.line_number as nat) + ":"@ + m.line
    } else {
        m.line
    }
}

/// The matches `grep` finds among a pane's lines: those after the mark, then
/// only the last `last` of them, numbered by their place after the mark.
pub open spec fn grep_found(
    all: Seq<Seq<char>>,
    since: Option<nat>,
    last: nat,
    pattern: Seq<char>,
    ignore_case: bool,
    context: nat,
) -> Seq<GrepMatchView> {
    let lines = lines_since(all, since);
    let offset = last_start(lines.len(), last);
    let candidates = lines.skip(offset as int);
    grep_matches(candidates, pattern, ignore_case, context as int, offset as int, candidates.len() as int)
}

fn numbered_lines(matches: &Vec<GrepMatch>, numbers: bool) -> (r: Vec<String>)
    ensures
        strs(r@) == match_views(matches@).map_values(|m: GrepMatchView| grep_line(m, numbers)),
{
    let mut out: Vec<String> = Vec::new();
    let mut k: usize = 0;
    while k < matches.len()
        invariant
            k <= matches@.len(),
            strs(out@) == match_views(matches@.take(k as int)).map_values(
                |m: GrepMatchView| grep_line(m, numbers),
            ),
        decreases matches@.len() - k,
    {
        let m = &matches[k];
        let line = if numbers {
            let mut t = decimal(m.line_number as u128);
            t.append(":");
            t.append(m.line.as_str());
            t
        } else {
            m.line.clone()
        };
        let ghost before = out@;
        out.push(line);
        proof {
            assert(strs(out@) =~= strs(before).push(line@));
            assert(matches@.take(k + 1) =~= matches@.take(k as int).push(matches@[k as int]));
            assert(match_views(matches@.take(k + 1)).map_values(|m: GrepMatchView| grep_line(m, numbers))
                =~= match_views(matches@.take(k as int)).map_values(|m: GrepMatchView| grep_line(m, numbers)).push(grep_line(matches@[k as int].view(), numbers)));
        }
        k = k + 1;
    }
    assert(matches@.take(matches@.len() as int) =~= matches@);
    out
}

/// What `grep` does: the lines of a pane that match a pattern, with their
/// numbers and context.
pub open spec fn grep_outcome(
    before: QuillPlugin,
    after: QuillPlugin,
    args: Vec<String>,
    facts: HostFacts,
    f0: Seq<Effect>,
    f1: Seq<Effect>,
    r: Flow<ApiResult<CommandOutcome>>,
) -> bool {
    &&& access_frame(before, after)
    &&& extends(f0, f1)
    &&& match flags_read(args@, grep_defs(), Positionals::NonDash(9)) {
        Err(e) => r matches Flow::Ready(Err(x)) && x.code == scan_error_code(e)
            && scan_message_fits(e, x.message@, "grep"@, "grep takes a single pattern argument"@),
        Ok(raw) => match last_value(raw, 9) {
            None => r matches Flow::Ready(Err(x)) && x.code == ErrorCode::InvalidArgs && x.message@
            == "grep requires a <pattern> argument"@,
            Some(pattern) => {
                let fixed = last_value(raw, 5) is Some;
                let ic = last_value(raw, 4) is Some;
                let compiled = search_pattern(pattern, fixed);
                if regex_build(compiled, ic) is Err {
                    r matches Flow::Ready(Err(x)) && x.code == ErrorCode::InvalidRegex
                } else {
                    match last_value(raw, 1) {
                        None => r matches Flow::Ready(Err(x)) && x.code
                            == ErrorCode::InvalidArgs && x.message@ == "grep requires --pane <name>"@,
                        Some(name) => match resolved(before, name) {
                            Err(c) => r matches Flow::Ready(Err(x)) && x.code == c
                                && x.message@ == resolve_message(name, c),
                            Ok(p) => if !access_granted(
                                before,
                                facts,
                                last_value(raw, 8),
                                p,
                            ) {
                                access_refused(before, after, facts, last_value(raw, 8), p, f0, f1, r)
                            } else {
                                match scrollback_for(facts.scrollbacks@, p) {
                                    None => r matches Flow::Need(
                                        HostRequest::Scrollback { pane_id },
                                    ) && pane_id == p,
                                    Some(Err(_)) => r matches Flow::Ready(Err(x)) && x.code
                                        == ErrorCode::ScrollbackError,
                                    Some(Ok(c)) => {
                                        let since = match last_value(raw, 7) {
                                            None => Some(None),
                                            Some(t) => match since_count(before, t, p) {
                                                None => None,
                                                Some(n) => Some(Some(n as nat)),
                                            },
                                        };
                                        match since {
                                            None => r matches Flow::Ready(Err(x)) && x.code
                                                == ErrorCode::InvalidMark && x.message@
                                                == since_message(before, last_value(raw, 7)->0),
                                            Some(since) => {
                                                let found = grep_found(
                                                    pane_lines_of(c, true),
                                                    since,
                                                    count_or(raw, 6, 2000),
                                                    compiled,
                                                    ic,
                                                    count_or(raw, 3, 0),
                                                );
                                                let json_only = last_value(raw, 0) is Some;
                                                let numbers = last_value(raw, 2) is Some;
                                                r matches Flow::Ready(
                                                    Ok(
                                                        CommandOutcome::Immediate {
                                                            json_only: j,
                                                            human: h,
                                                            payload: Payload::Grep {
                                                                pane_id,
                                                                pattern: pt,
                                                                matches,
                                                            },
                                                        },
                                                    ),
                                                ) && j == json_only && pane_id == p && pt@
                                                    == pattern && match_views(matches@)
                                                    == found && human_view(h) == human_text(
                                                    json_only,
                                                    join(
                                                        found.map_values(
                                                            |m: GrepMatchView|
                                                                grep_line(m, numbers),
                                                        ),
                                                        "\n"@,
                                                    ),
                                                )
                                            },
                                        }
                                    },
                                }
                            },
                        },
                    }
                }
            },
        },
    }
}

/// The matches `grep` finds among the lines `all`: of those after the mark,
/// the last `last`, numbered from the first line after the mark.
fn grep_in_lines(
    all: &Vec<String>,
    since_count: Option<usize>,
    last: usize,
    regex: &SearchRegex,
    context: usize,
) -> (r: Vec<GrepMatch>)
    ensures
        match_views(r@) == grep_found(
            strs(all@),
            match since_count {
                Some(c) => Some(c as nat),
                None => None,
            },
            last as nat,
            regex.pattern(),
            regex.ignore_case(),
            context as nat,
        ),
{
    let n = all.len();
    let lo = match since_count {
        None => 0,
        Some(c) => if c > n {
            n
        } else {
            c
        },
    };
    let len = n - lo;
    let offset = if len <= last {
        0
    } else {
        len - last
    };
    let candidates = copy_strings(all.as_slice(), lo + offset, n);
    let matches = build_grep_matches(candidates.as_slice(), regex, context, offset);
    proof {
        let sv: Seq<Seq<char>> = strs(all@);
        let sn: Option<nat> = match since_count {
            Some(c) => Some(c as nat),
            None => None,
        };
        let lines = lines_since(sv, sn);
        assert(lines =~= sv.skip(lo as int));
        assert(strs(candidates@) =~= lines.skip(offset as int));
    }
    matches
}

impl QuillPlugin {
    /// `grep`: the lines of a pane that match a pattern, with context.
    #[verifier::rlimit(50)]
    #[verifier::spinoff_prover]
    pub fn cmd_grep(&mut self, args: &Vec<String>, facts: &HostFacts, fx: &mut Vec<Effect>) -> (r: Flow<
        ApiResult<CommandOutcome>,
    >)
        requires
            old(self).wf(),
        ensures
            grep_outcome(
                *old(self),
                *final(self),
                *args,
                *facts,
                old(fx)@,
                final(fx)@,
                r,
            ),
    {
        let defs = grep_flags();
        let hits = match read_flags(
            args,
            &defs,
            Positionals::NonDash(9),
            "grep",
            "grep takes a single pattern argument",
        ) {
            Ok(h) => h,
            Err(e) => {
                return Flow::Ready(Err(e));
            },
        };
        let ghost raw = flags_read(args@, defs@, Positionals::NonDash(9))->Ok_0;
        let json_only = switch_at(&hits, 0, Ghost(raw));
        let pane = text_at(&hits, 1, Ghost(defs@), Ghost(raw));
        let numbers = switch_at(&hits, 2, Ghost(raw));
        let context = count_at(&hits, 3, 0, Ghost(defs@), Ghost(raw));
        let ignore_case = switch_at(&hits, 4, Ghost(raw));
        let fixed = switch_at(&hits, 5, Ghost(raw));
        let last = count_at(&hits, 6, 2000, Ghost(defs@), Ghost(raw));
        let since = text_at(&hits, 7, Ghost(defs@), Ghost(raw));
        let token = text_at(&hits, 8, Ghost(defs@), Ghost(raw));
        let pattern = match text_at(&hits, 9, Ghost(defs@), Ghost(raw)) {
            Some(p) => p,
            None => {
                return Flow::Ready(
                    Err(ApiError::with_text(ErrorCode::InvalidArgs, "grep requires a <pattern> argument")),
                );
            },
        };
        let regex = match compile_search_regex(pattern.as_str(), ignore_case, fixed) {
            Ok(re) => re,
            Err(e) => {
                return Flow::Ready(Err(e));
            },
        };
        let pane_name = match pane {
            Some(p) => p,
            None => {
                return Flow::Ready(
                    Err(ApiError::with_text(ErrorCode::InvalidArgs, "grep requires --pane <name>")),
                );
            },
        };
        let pane_id = match self.resolve_pane_name(pane_name.as_str()) {
            Ok(p) => p,
            Err(e) => {
                return Flow::Ready(Err(e));
            },
        };
        let tok: Option<&str> = match &token {
            Some(t) => Some(t.as_str()),
            None => None,
        };
        assert(opt_view(tok) == last_value(raw, 8));
        let ghost access_from = *self;
        let ghost access_fx = fx@;
        let access = self.ensure_token_can_access_pane(tok, pane_id, facts, fx);
        let ghost access_result = access;
        match access {
            Flow::Need(n) => {
                proof {
                    lemma_approval_asked_same(access_from, *self, *facts, opt_view(tok), pane_id, access_fx, fx@, access_result, Flow::<ApiResult<CommandOutcome>>::Need(n));
                }
                return Flow::Need(n);
            },
            Flow::Ready(Err(e)) => {
                proof {
                    lemma_approval_asked_same(access_from, *self, *facts, opt_view(tok), pane_id, access_fx, fx@, access_result, Flow::<ApiResult<CommandOutcome>>::Ready(Err(e)));
                }
                return Flow::Ready(Err(e));
            },
            Flow::Ready(Ok(_)) => {},
        }
        let pl = match self.read_pane_lines(pane_id, true, facts) {
            Flow::Need(n) => {
                return Flow::Need(n);
            },
            Flow::Ready(Err(e)) => {
                return Flow::Ready(Err(e));
            },
            Flow::Ready(Ok(l)) => l,
        };
        let since_count = match since {
            None => None,
            Some(t) => match self.resolve_since_line_count(t.as_str(), pane_id) {
                Ok(n) => Some(n),
                Err(e) => {
                    return Flow::Ready(Err(e));
                },
            },
        };
        let matches = grep_in_lines(&pl.all, since_count, last, &regex, context);
        proof {
            assert(last as nat == count_or(raw, 6, 2000));
            assert(context as nat == count_or(raw, 3, 0));
        }
        let human = if json_only {
            None
        } else {
            let lines = numbered_lines(&matches, numbers);
            Some(join_strings(&lines, "\n"))
        };
        Flow::Ready(
            Ok(
                CommandOutcome::Immediate {
                    json_only,
                    human,
                    payload: Payload::Grep { pane_id, pattern, matches },
                },
            ),
        )
    }
}

/// The lines `wait` looks at: those after the mark (none when it lies at or
/// past their end), the last `window` of them, and of those the last
/// `last_n`.
pub open spec fn wait_sample(all: Seq<Seq<char>>, since: Option<nat>, window: nat, count: nat) -> Seq<
    Seq<char>,
> {
    let after = match since {
        None => all,
        Some(c) => if c >= all.len() {
            Seq::empty()
        } else {
            all.skip(c as int)
        },
    };
    last_items(last_items(after, window), count)
}

/// Whether the sample satisfies the wait: it is not empty, and some line of
/// it (`Any`) or every line (`All`) matches.
pub open spec fn wait_satisfied(sample: Seq<Seq<char>>, pattern: Seq<char>, ignore_case: bool, mode: WaitMode) -> bool {
    sample.len() > 0 && match mode {
        WaitMode::Any => exists|i: int|
            0 <= i < sample.len() && #[trigger] regex_is_match(pattern, ignore_case, sample[i]),
        WaitMode::All => forall|i: int|
            0 <= i < sample.len() ==> #[trigger] regex_is_match(pattern, ignore_case, sample[i]),
    }
}

/// A sample that satisfies a wait for all lines satisfies it for any line.
pub proof fn wait_all_implies_any(sample: Seq<Seq<char>>, pattern: Seq<char>, ignore_case: bool)
    requires
        wait_satisfied(sample, pattern, ignore_case, WaitMode::All),
    ensures
        wait_satisfied(sample, pattern, ignore_case, WaitMode::Any),
{
    assert(regex_is_match(pattern, ignore_case, sample[0]));
}

/// The start of the last `n` of `len` items.
fn tail_start(len: usize, n: usize) -> (r: usize)
    ensures
        r as nat == last_start(len as nat, n as nat),
{
    if len <= n {
        0
    } else {
        len - n
    }
}

impl QuillPlugin {
    /// Whether a pane's latest lines satisfy a wait; the sample when they do.
    pub fn wait_condition_matches(
        &self,
        pane_id: PaneId,
        regex: &SearchRegex,
        last_n: usize,
        window: usize,
        mode: WaitMode,
        since_line_count: Option<usize>,
        facts: &HostFacts,
    ) -> (r: Flow<ApiResult<Option<Vec<String>>>>)
        ensures
            match scrollback_for(facts.scrollbacks@, pane_id) {
                None => r matches Flow::Need(HostRequest::Scrollback { pane_id: q }) && q == pane_id,
                Some(Err(_)) => r matches Flow::Ready(Err(e)) && e.code == ErrorCode::ScrollbackError,
                Some(Ok(c)) => {
                    let sample = wait_sample(
                        pane_lines_of(c, true),
                        match since_line_count {
                            Some(n) => Some(n as nat),
                            None => None,
                        },
                        window as nat,
                        last_n as nat,
                    );
                    if wait_satisfied(sample, regex.pattern(), regex.ignore_case(), mode) {
                        r matches Flow::Ready(Ok(Some(v))) && strs(v@) == sample
                    } else {
                        r == Flow::Ready(Ok::<Option<Vec<String>>, ApiError>(None))
                    }
                },
            },
    {
        let pl = match self.read_pane_lines(pane_id, true, facts) {
            Flow::Need(n) => {
                return Flow::Need(n);
            },
            Flow::Ready(Err(e)) => {
                return Flow::Ready(Err(e));
            },
            Flow::Ready(Ok(l)) => l,
        };
        let n = pl.all.len();
        let lo = match since_line_count {
            None => 0,
            Some(c) => if c >= n {
                n
            } else {
                c
            },
        };
        let w = tail_start(n - lo, window);
        let s = tail_start(n - lo - w, last_n);
        let start = lo + w + s;
        let sample = copy_strings(pl.all.as_slice(), start, n);
        let ghost all = strs(pl.all@);
        proof {
            let sn: Option<nat> = match since_line_count {
                Some(c) => Some(c as nat),
                None => None,
            };
            let after = if lo == 0 && since_line_count is None { all } else { all.skip(lo as int) };
            assert(all.skip(0) =~= all);
            assert(last_items(after, window as nat) =~= all.skip(lo + w));
            assert(last_items(last_items(after, window as nat), last_n as nat) =~= all.skip(start as int));
            assert(strs(sample@) =~= all.skip(start as int));
            assert(wait_sample(all, sn, window as nat, last_n as nat) == strs(sample@));
        }
        if sample.len() == 0 {
            return Flow::Ready(Ok(None));
        }
        let mut k: usize = 0;
        let mut any = false;
        let mut every = true;
        while k < sample.len()
            invariant
                k <= sample@.len(),
                any == exists|i: int| 0 <= i < k && #[trigger] regex_is_match(regex.pattern(), regex.ignore_case(), strs(sample@)[i]),
                every == forall|i: int| 0 <= i < k ==> #[trigger] regex_is_match(regex.pattern(), regex.ignore_case(), strs(sample@)[i]),
            decreases sample@.len() - k,
        {
            let m = regex.is_match(sample[k].as_str());
            assert(strs(sample@)[k as int] == sample@[k as int]@);
            if m {
                any = true;
            } else {
                every = false;
            }
            k = k + 1;
        }
        let matched = match mode {
            WaitMode::Any => any,
            WaitMode::All => every,
        };
        if matched {
            Flow::Ready(Ok(Some(sample)))
        } else {
            Flow::Ready(Ok(None))
        }
    }
}

/// The flags of `wait`; a positional pattern fills `--regex`'s slot.
pub open spec fn wait_defs() -> Seq<FlagDef> {
    seq![
        FlagDef { long: "--json", short: None, kind: ValueKind::Switch },
        FlagDef { long: "--pane", short: None, kind: ValueKind::Text },
        FlagDef { long: "--regex", short: None, kind: ValueKind::Text },
        FlagDef { long: "--last", short: None, kind: ValueKind::Count },
        FlagDef { long: "--timeout", short: None, kind: ValueKind::Duration },
        FlagDef { long: "--interval", short: None, kind: ValueKind::Duration },
        FlagDef { long: "--window", short: None, kind: ValueKind::Count },
        FlagDef { long: "--mode", short: None, kind: ValueKind::Mode },
        FlagDef { long: "--since", short: None, kind: ValueKind::Text },
        FlagDef { long: "--token", short: None, kind: ValueKind::Text },
    ]
}

fn wait_flags() -> (r: Vec<FlagDef>)
    ensures
        r@ == wait_defs(),
{
    let mut v: Vec<FlagDef> = Vec::new();
    v.push(FlagDef { long: "--json", short: None, kind: ValueKind::Switch });
    v.push(FlagDef { long: "--pane", short: None, kind: ValueKind::Text });
    v.push(FlagDef { long: "--regex", short: None, kind: ValueKind::Text });
    v.push(FlagDef { long: "--last", short: None, kind: ValueKind::Count });
    v.push(FlagDef { long: "--timeout", short: None, kind: ValueKind::Duration });
    v.push(FlagDef { long: "--interval", short: None, kind: ValueKind::Duration });
    v.push(FlagDef { long: "--window", short: None, kind: ValueKind::Count });
    v.push(FlagDef { long: "--mode", short: None, kind: ValueKind::Mode });
    v.push(FlagDef { long: "--since", short: None, kind: ValueKind::Text });
    v.push(FlagDef { long: "--token", short: None, kind: ValueKind::Text });
    assert(v@ =~= wait_defs());
    v
}

/// How long `wait` waits in all, by default: thirty seconds.
pub const DEFAULT_WAIT_TIMEOUT: Nanos = 30_000_000_000;

/// A duration flag's value, or its default.
pub open spec fn duration_or(raw: Seq<crate::flags::RawHit>, index: int, default: nat) -> nat {
    match last_value(raw, index) {
        None => default,
        Some(v) => duration_nanos(v)->0,
    }
}

/// `a + b`, or the largest value when that does not fit.
pub open spec fn sat_add(a: u128, b: u128) -> u128 {
    if a + b > u128::MAX {
        u128::MAX
    } else {
        (a + b) as u128
    }
}

pub fn saturating_sum(a: u128, b: u128) -> (r: u128)
    ensures
        r == sat_add(a, b),
{
    if a > u128::MAX - b {
        u128::MAX
    } else {
        a + b
    }
}

/// The wait a job carries out, as `wait` set it up.
pub open spec fn wait_job_is(
    w: WaitJob,
    pipe: Seq<char>,
    pane_id: PaneId,
    pattern: Seq<char>,
    count: nat,
    window: nat,
    mode: WaitMode,
    deadline: u128,
    next_poll_at: u128,
    interval: u128,
    json_only: bool,
    since: Option<usize>,
) -> bool {
    &&& w.pipe_id@ == pipe
    &&& w.pane_id == pane_id
    &&& w.regex.pattern() == pattern
    &&& !w.regex.ignore_case()
    &&& w.last_n == count
    &&& w.window == window
    &&& w.mode == mode
    &&& w.deadline == deadline
    &&& w.next_poll_at == next_poll_at
    &&& w.interval == interval
    &&& w.json_only == json_only
    &&& w.since_line_count == since
}

/// The parts of the plugin a command that may start a job leaves as they
/// were, beyond a permission check's.
pub open spec fn job_frame(s: QuillPlugin, f: QuillPlugin) -> bool {
    &&& f.wf()
    &&& f.token_pane_permissions == s.token_pane_permissions
    &&& f.require_token == s.require_token
    &&& f.enforce_pane_permissions == s.enforce_pane_permissions
    &&& f.configured_token == s.configured_token
    &&& f.current_pipe_origin_pane_id == s.current_pipe_origin_pane_id
    &&& f.pane_manifest == s.pane_manifest
    &&& f.marks == s.marks
    &&& f.recent_terminal_panes == s.recent_terminal_panes
    &&& f.pending_permission_commands == s.pending_permission_commands
    &&& forall|k: Seq<char>| has_key(s.jobs@, k) ==> #[trigger] has_key(f.jobs@, k)
}

/// What `wait` does: answers at once when the pane already matches, else starts
/// a job that looks again until its deadline.
pub open spec fn wait_outcome(
    before: QuillPlugin,
    after: QuillPlugin,
    args: Vec<String>,
    pipe_id: Option<&str>,
    facts: HostFacts,
    f0: Seq<Effect>,
    f1: Seq<Effect>,
    r: Flow<ApiResult<CommandOutcome>>,
) -> bool {
    &&& job_frame(before, after)
    &&& extends(f0, f1)
    &&& r is Need ==> after.jobs == before.jobs
    &&& match flags_read(args@, wait_defs(), Positionals::NonDash(2)) {
        Err(e) => r matches Flow::Ready(Err(x)) && x.code == scan_error_code(e)
            && scan_message_fits(e, x.message@, "wait"@, "wait accepts a single regex positional argument"@) && left_alone(before, after, facts, f0, f1),
        Ok(raw) => match last_value(raw, 2) {
            None => r matches Flow::Ready(Err(x)) && x.code == ErrorCode::InvalidArgs && x.message@
            == "wait requires --regex <pattern>"@ && left_alone(before, after, facts, f0, f1),
            Some(pattern) => if regex_build(pattern, false) is Err {
                r matches Flow::Ready(Err(x)) && x.code == ErrorCode::InvalidRegex && left_alone(before, after, facts, f0, f1)
            } else {
                match last_value(raw, 1) {
                    None => r matches Flow::Ready(Err(x)) && x.code == ErrorCode::InvalidArgs && x.message@
            == "wait requires --pane <name>"@ && left_alone(before, after, facts, f0, f1),
                    Some(name) => match resolved(before, name) {
                        Err(c) => r matches Flow::Ready(Err(x)) && x.code == c
                            && x.message@ == resolve_message(name, c) && left_alone(before, after, facts, f0, f1),
                        Ok(p) => if !access_granted(before, facts, last_value(raw, 9), p) {
                            access_refused(before, after, facts, last_value(raw, 9), p, f0, f1, r)
                        } else {
                            let since = match last_value(raw, 8) {
                                None => Some(None),
                                Some(t) => match since_count(before, t, p) {
                                    None => None,
                                    Some(n) => Some(Some(n)),
                                },
                            };
                            match since {
                                None => r matches Flow::Ready(Err(x)) && x.code
                                    == ErrorCode::InvalidMark && x.message@
                                    == since_message(before, last_value(raw, 8)->0) && left_alone(before, after, facts, f0, f1),
                                Some(since) => match scrollback_for(facts.scrollbacks@, p) {
                                    None => r matches Flow::Need(
                                        HostRequest::Scrollback { pane_id },
                                    ) && pane_id == p && left_alone(before, after, facts, f0, f1),
                                    Some(Err(_)) => r matches Flow::Ready(Err(x)) && x.code
                                        == ErrorCode::ScrollbackError && left_alone(before, after, facts, f0, f1),
                                    Some(Ok(c)) => {
                                        let count = count_or(raw, 3, 1);
                                        let window = count_or(raw, 6, 400);
                                        let mode = match last_value(raw, 7) {
                                            None => WaitMode::Any,
                                            Some(v) => wait_mode_of(v)->0,
                                        };
                                        let sample = wait_sample(
                                            pane_lines_of(c, true),
                                            match since {
                                                Some(n) => Some(n as nat),
                                                None => None,
                                            },
                                            window,
                                            count,
                                        );
                                        let json_only = last_value(raw, 0) is Some;
                                        if wait_satisfied(sample, pattern, false, mode) {
                                            r matches Flow::Ready(
                                                Ok(
                                                    CommandOutcome::Immediate {
                                                        json_only: j,
                                                        human: h,
                                                        payload: Payload::WaitMatched {
                                                            pane_id,
                                                            lines,
                                                        },
                                                    },
                                                ),
                                            ) && j == json_only && pane_id == p && strs(
                                                lines@,
                                            ) == sample && human_view(h) == human_text(
                                                json_only,
                                                "match found"@,
                                            ) && left_alone(before, after, facts, f0, f1)
                                        } else {
                                            match pipe_id {
                                                None => r matches Flow::Ready(Err(x))
                                                    && x.code == ErrorCode::PipeRequired && x.message@
                                                        == "wait requires a CLI pipe source for asynchronous response"@ && left_alone(before, after, facts, f0, f1),
                                                Some(pipe) => {
                                                    let id = "job-"@ + dec(
                                                        after.next_job_id as nat,
                                                    );
                                                    &&& r matches Flow::Ready(
                                                        Ok(CommandOutcome::Async),
                                                    )
                                                    &&& blocks(f1, pipe@)
                                                    &&& f1.len() == f0.len() + 2
                                                    &&& f1.take(f0.len() as int) == f0
                                                    &&& holds_pipe(f1[f0.len() as int], pipe@)
                                                    &&& job_added(before, after, facts, id)
                                                    &&& after.next_job_id == bumped(
                                                        before.next_job_id,
                                                    )
                                                    &&& lookup(after.jobs@, id) matches Some(
                                                        Job::Wait(w),
                                                    ) && wait_job_is(
                                                        w,
                                                        pipe@,
                                                        p,
                                                        pattern,
                                                        count,
                                                        window,
                                                        mode,
                                                        sat_add(
                                                            facts.now,
                                                            duration_or(
                                                                raw,
                                                                4,
                                                                DEFAULT_WAIT_TIMEOUT as nat,
                                                            ) as u128,
                                                        ),
                                                        sat_add(
                                                            facts.now,
                                                            duration_or(
                                                                raw,
                                                                5,
                                                                DEFAULT_WAIT_INTERVAL as nat,
                                                            ) as u128,
                                                        ),
                                                        duration_or(
                                                            raw,
                                                            5,
                                                            DEFAULT_WAIT_INTERVAL as nat,
                                                        ) as u128,
                                                        json_only,
                                                        since,
                                                    )
                                                    &&& f1.last() == Effect::ScheduleTimer
                                                },
                                            }
                                        }
                                    },
                                },
                            }
                        },
                    },
                }
            },
        },
    }
}

impl QuillPlugin {
    /// `wait`: answers once a pane's latest lines match a pattern, at once if
    /// they already do, else from a job that looks again until the timeout.
    #[verifier::rlimit(50)]
    #[verifier::spinoff_prover]
    pub fn cmd_wait(
        &mut self,
        args: &Vec<String>,
        pipe_id: Option<&str>,
        facts: &HostFacts,
        fx: &mut Vec<Effect>,
    ) -> (r: Flow<ApiResult<CommandOutcome>>)
        requires
            old(self).wf(),
        ensures
            wait_outcome(
                *old(self),
                *final(self),
                *args,
                pipe_id,
                *facts,
                old(fx)@,
                final(fx)@,
                r,
            ),
    {
        let defs = wait_flags();
        let hits = match read_flags(
            args,
            &defs,
            Positionals::NonDash(2),
            "wait",
            "wait accepts a single regex positional argument",
        ) {
            Ok(h) => h,
            Err(e) => {
                return Flow::Ready(Err(e));
            },
        };
        let ghost raw = flags_read(args@, defs@, Positionals::NonDash(2))->Ok_0;
        let json_only = switch_at(&hits, 0, Ghost(raw));
        let pane = text_at(&hits, 1, Ghost(defs@), Ghost(raw));
        let pattern = text_at(&hits, 2, Ghost(defs@), Ghost(raw));
        let count = count_at(&hits, 3, 1, Ghost(defs@), Ghost(raw));
        let timeout = duration_at(&hits, 4, DEFAULT_WAIT_TIMEOUT, Ghost(defs@), Ghost(raw));
        let interval = duration_at(&hits, 5, DEFAULT_WAIT_INTERVAL, Ghost(defs@), Ghost(raw));
        let window = count_at(&hits, 6, 400, Ghost(defs@), Ghost(raw));
        let mode = mode_at(&hits, 7, WaitMode::Any, Ghost(defs@), Ghost(raw));
        let since = text_at(&hits, 8, Ghost(defs@), Ghost(raw));
        let token = text_at(&hits, 9, Ghost(defs@), Ghost(raw));
        let pattern = match pattern {
            Some(p) => p,
            None => {
                return Flow::Ready(
                    Err(ApiError::with_text(ErrorCode::InvalidArgs, "wait requires --regex <pattern>")),
                );
            },
        };
        let regex = match compile_search_regex(pattern.as_str(), false, false) {
            Ok(re) => re,
            Err(e) => {
                return Flow::Ready(Err(e));
            },
        };
        let pane_name = match pane {
            Some(p) => p,
            None => {
                return Flow::Ready(
                    Err(ApiError::with_text(ErrorCode::InvalidArgs, "wait requires --pane <name>")),
                );
            },
        };
        let pane_id = match self.resolve_pane_name(pane_name.as_str()) {
            Ok(p) => p,
            Err(e) => {
                return Flow::Ready(Err(e));
            },
        };
        let tok: Option<&str> = match &token {
            Some(t) => Some(t.as_str()),
            None => None,
        };
        assert(opt_view(tok) == last_value(raw, 9));
        let ghost access_from = *self;
        let ghost access_fx = fx@;
        let access = self.ensure_token_can_access_pane(tok, pane_id, facts, fx);
        let ghost access_result = access;
        match access {
            Flow::Need(n) => {
                proof {
                    lemma_approval_asked_same(access_from, *self, *facts, opt_view(tok), pane_id, access_fx, fx@, access_result, Flow::<ApiResult<CommandOutcome>>::Need(n));
                }
                return Flow::Need(n);
            },
            Flow::Ready(Err(e)) => {
                proof {
                    lemma_approval_asked_same(access_from, *self, *facts, opt_view(tok), pane_id, access_fx, fx@, access_result, Flow::<ApiResult<CommandOutcome>>::Ready(Err(e)));
                }
                return Flow::Ready(Err(e));
            },
            Flow::Ready(Ok(_)) => {},
        }
        let since_count = match since {
            None => None,
            Some(t) => match self.resolve_since_line_count(t.as_str(), pane_id) {
                Ok(n) => Some(n),
                Err(e) => {
                    return Flow::Ready(Err(e));
                },
            },
        };
        let found = match self.wait_condition_matches(
            pane_id,
            &regex,
            count,
            window,
            mode,
            since_count,
            facts,
        ) {
            Flow::Need(n) => {
                return Flow::Need(n);
            },
            Flow::Ready(Err(e)) => {
                return Flow::Ready(Err(e));
            },
            Flow::Ready(Ok(f)) => f,
        };
        match found {
            Some(lines) => {
                let human = if json_only {
                    None
                } else {
                    Some(String::from_str("match found"))
                };
                return Flow::Ready(
                    Ok(
                        CommandOutcome::Immediate {
                            json_only,
                            human,
                            payload: Payload::WaitMatched { pane_id, lines },
                        },
                    ),
                );
            },
            None => {},
        }
        let pipe = match pipe_id {
            Some(p) => p,
            None => {
                return Flow::Ready(
                    Err(
                        ApiError::with_text(
                            ErrorCode::PipeRequired,
                            "wait requires a CLI pipe source for asynchronous response",
                        ),
                    ),
                );
            },
        };
        let ghost mid = *self;
        let ghost f0 = fx@;
        self.block_pipe(pipe, fx);
        let ghost held = fx@.len() - 1;
        proof {
            lemma_extends_trans(old(fx)@, f0, fx@);
            assert(fx@[held] == fx@.last());
            assert(holds_pipe(fx@[held], pipe@));
        }
        let job_id = self.next_job_id();
        let job = WaitJob {
            pipe_id: String::from_str(pipe),
            pane_id,
            regex,
            last_n: count,
            window,
            mode,
            deadline: saturating_sum(facts.now, timeout),
            next_poll_at: saturating_sum(facts.now, interval),
            interval,
            json_only,
            since_line_count: since_count,
        };
        let ghost jid = job_id@;
        insert(&mut self.jobs, job_id, Job::Wait(job));
        assert(lookup(self.jobs@, jid) matches Some(Job::Wait(_)));
        let ghost f1 = fx@;
        self.schedule_job_timer(fx);
        proof {
            assert(has_key(self.jobs@, jid));
            assert(self.jobs@.len() > 0);
            assert(extends(f1, fx@));
            lemma_extends_trans(old(fx)@, f1, fx@);
            assert(fx@[held] == f1[held]);
            assert(f0 == old(fx)@);
            assert(fx@.take(f0.len() as int) =~= f0);
            assert(QuillPlugin { jobs: old(self).jobs, next_job_id: old(self).next_job_id, ..*self } == mid);
            assert(kept(*old(self), mid, *facts));
            if job_ids_issued(*old(self)) && old(self).next_job_id < u64::MAX {
                lemma_job_id_fresh(*old(self), *self, jid);
            }
        }
        Flow::Ready(Ok(CommandOutcome::Async))
    }
}

/// `line` is one of `all` at or past position `n`.
pub open spec fn comes_from(all: Seq<Seq<char>>, n: int, line: Seq<char>) -> bool {
    exists|j: int| n <= j < all.len() && #[trigger] all[j] == line
}

/// Every line of a wait's sample is one of the pane's lines at or past the
/// mark, when there is one.
pub proof fn wait_sample_after_mark(all: Seq<Seq<char>>, n: nat, window: nat, count: nat)
    ensures
        forall|i: int|
            0 <= i < wait_sample(all, Some(n), window, count).len() ==> comes_from(
                all,
                n as int,
                #[trigger] wait_sample(all, Some(n), window, count)[i],
            ),
{
    let sample = wait_sample(all, Some(n), window, count);
    if n < all.len() {
        let a = all.skip(n as int);
        let s1: int = if a.len() <= window { 0 } else { a.len() - window };
        let b = a.skip(s1);
        assert(b =~= last_items(a, window));
        let s2: int = if b.len() <= count { 0 } else { b.len() - count };
        assert(sample =~= b.skip(s2));
        assert forall|i: int| 0 <= i < sample.len() implies comes_from(all, n as int, #[trigger] sample[i]) by {
            let j = n + s1 + s2 + i;
            assert(sample[i] == b[s2 + i]);
            assert(b[s2 + i] == a[s1 + s2 + i]);
            assert(a[s1 + s2 + i] == all[j]);
        }
    } else {
        assert(sample.len() == 0);
    }
}

/// A wait with `--since` that matches at once answers only with lines that
/// came after the mark.
pub proof fn wait_answers_after_mark(
    before: QuillPlugin,
    after: QuillPlugin,
    args: Vec<String>,
    pipe_id: Option<&str>,
    facts: HostFacts,
    f0: Seq<Effect>,
    f1: Seq<Effect>,
    r: Flow<ApiResult<CommandOutcome>>,
    p: PaneId,
    n: usize,
    c: PaneContents,
)
    requires
        wait_outcome(before, after, args, pipe_id, facts, f0, f1, r),
        flags_read(args@, wait_defs(), Positionals::NonDash(2)) matches Ok(raw) && (last_value(raw, 1) matches Some(
            name,
        ) && resolved(before, name) == Ok::<PaneId, ErrorCode>(p) && (last_value(raw, 8) matches Some(t)
            && since_count(before, t, p) == Some(n))),
        scrollback_for(facts.scrollbacks@, p) == Some(Ok::<PaneContents, String>(c)),
        r matches Flow::Ready(Ok(CommandOutcome::Immediate { payload: Payload::WaitMatched { .. }, .. })),
    ensures
        r matches Flow::Ready(Ok(CommandOutcome::Immediate { payload: Payload::WaitMatched { lines, .. }, .. }))
            && forall|i: int|
            0 <= i < lines@.len() ==> comes_from(pane_lines_of(c, true), n as int, #[trigger] lines@[i]@),
{
    let raw = flags_read(args@, wait_defs(), Positionals::NonDash(2))->Ok_0;
    let all = pane_lines_of(c, true);
    let sample = wait_sample(all, Some(n as nat), count_or(raw, 6, 400), count_or(raw, 3, 1));
    wait_sample_after_mark(all, n as nat, count_or(raw, 6, 400), count_or(raw, 3, 1));
    let lines = r->Ready_0->Ok_0->Immediate_payload->WaitMatched_lines;
    assert(strs(lines@) == sample);
    assert forall|i: int| 0 <= i < lines@.len() implies comes_from(all, n as int, #[trigger] lines@[i]@) by {
        assert(strs(lines@)[i] == lines@[i]@);
        assert(sample[i] == lines@[i]@);
    }
}

/// `tail` answers with no more lines than it was asked for.
pub proof fn tail_returns_at_most_count(
    all: Seq<Seq<char>>,
    viewport_start: nat,
    viewport_end: nat,
    since: Option<nat>,
    count: nat,
    from: TailFrom,
)
    ensures
        tail_selection(all, viewport_start, viewport_end, since, count, from).0.len() <= count,
{
    lemma_tail_range(all, viewport_start, viewport_end, since, count, from);
    assert(tail_selection(all, viewport_start, viewport_end, since, count, from).0
        == tail_selection_of(all, viewport_start, viewport_end, since, count, from));
}

/// Every match `grep` reports is a line that the regex matches, numbered
/// after the lines before it.
pub proof fn grep_reports_matching_lines(
    lines: Seq<Seq<char>>,
    pattern: Seq<char>,
    ignore_case: bool,
    context: int,
    offset: int,
    n: int,
)
    requires
        0 <= n <= lines.len(),
    ensures
        forall|k: int|
            0 <= k < grep_matches(lines, pattern, ignore_case, context, offset, n).len() ==> {
                let m = #[trigger] grep_matches(lines, pattern, ignore_case, context, offset, n)[k];
                regex_is_match(pattern, ignore_case, m.line) && exists|i: int|
                    0 <= i < n && m.line == lines[i] && m.line_number == offset + i + 1
            },
    decreases n,
{
    if n > 0 {
        grep_reports_matching_lines(lines, pattern, ignore_case, context, offset, n - 1);
        let prev = grep_matches(lines, pattern, ignore_case, context, offset, n - 1);
        let all = grep_matches(lines, pattern, ignore_case, context, offset, n);
        assert forall|k: int| 0 <= k < all.len() implies {
            let m = #[trigger] all[k];
            regex_is_match(pattern, ignore_case, m.line) && exists|i: int|
                0 <= i < n && m.line == lines[i] && m.line_number == offset + i + 1
        } by {
            if k < prev.len() {
                assert(all[k] == prev[k]);
                let m = prev[k];
                let i = choose|i: int| 0 <= i < n - 1 && m.line == lines[i] && m.line_number == offset + i + 1;
            } else {
                assert(all[k] == crate::util::grep_match_at(lines, n - 1, context, offset));
            }
        }
    }
}

} // verus!
