//! Answers, timers, focus tracking and identifiers.
use super::{QuillPlugin, MAX_RECENT_TERMINAL_PANES};
use crate::error::ApiError;
use crate::host::Effect;
use crate::response::Payload;
use crate::text::{dec, decimal};
use crate::types::{
    pane_id_from_info, spec_pane_id_from_info, PaneId, PaneInfo, PaneManifest, TabPanes,
};
use vstd::prelude::*;

verus! {

/// The first focused terminal pane among `panes`.
pub open spec fn first_focused_terminal(panes: Seq<PaneInfo>) -> Option<PaneInfo>
    decreases panes.len(),
{
    if panes.len() == 0 {
        None
    } else if panes[0].is_focused && !panes[0].is_plugin {
        Some(panes[0])
    } else {
        first_focused_terminal(panes.drop_first())
    }
}

/// The first focused pane among `panes`, terminal or plugin.
pub open spec fn first_focused(panes: Seq<PaneInfo>) -> Option<PaneInfo>
    decreases panes.len(),
{
    if panes.len() == 0 {
        None
    } else if panes[0].is_focused {
        Some(panes[0])
    } else {
        first_focused(panes.drop_first())
    }
}

/// The panes of the tab at `position`.
pub open spec fn tab_panes(tabs: Seq<TabPanes>, position: usize) -> Option<Seq<PaneInfo>>
    decreases tabs.len(),
{
    if tabs.len() == 0 {
        None
    } else if tabs[0].position == position {
        Some(tabs[0].panes@)
    } else {
        tab_panes(tabs.drop_first(), position)
    }
}

/// The focused terminal pane of the tab at `position`, as
/// `get_focused_pane` finds it.
pub open spec fn focused_pane_in_tab(m: PaneManifest, position: usize) -> Option<PaneInfo> {
    match tab_panes(m.tabs@, position) {
        Some(ps) => first_focused_terminal(ps),
        None => None,
    }
}

/// The first tab with a focused pane, and that pane.
pub open spec fn first_focused_tab(tabs: Seq<TabPanes>) -> Option<(usize, PaneInfo)>
    decreases tabs.len(),
{
    if tabs.len() == 0 {
        None
    } else {
        match first_focused(tabs[0].panes@) {
            Some(p) => Some((tabs[0].position, p)),
            None => first_focused_tab(tabs.drop_first()),
        }
    }
}

/// Whether the manifest reports the pane.
pub open spec fn manifest_has(m: PaneManifest, p: PaneId) -> bool {
    exists|t: int, i: int|
        0 <= t < m.tabs@.len() && 0 <= i < m.tabs@[t].panes@.len() && spec_pane_id_from_info(
            #[trigger] m.tabs@[t].panes@[i],
        ) == p
}

/// `s` without `p`.
pub open spec fn without(s: Seq<PaneId>, p: PaneId) -> Seq<PaneId>
    decreases s.len(),
{
    if s.len() == 0 {
        Seq::empty()
    } else if s.last() == p {
        without(s.drop_last(), p)
    } else {
        without(s.drop_last(), p).push(s.last())
    }
}

/// The recent panes after `p` has been seen: `p` first, then the others in
/// their order, cut to the limit.
pub open spec fn touched(s: Seq<PaneId>, p: PaneId) -> Seq<PaneId> {
    let t = seq![p] + without(s, p);
    if t.len() > MAX_RECENT_TERMINAL_PANES {
        t.take(MAX_RECENT_TERMINAL_PANES as int)
    } else {
        t
    }
}

pub proof fn lemma_without(s: Seq<PaneId>, p: PaneId)
    ensures
        without(s, p).len() <= s.len(),
        forall|q: PaneId| #[trigger] without(s, p).contains(q) <==> (s.contains(q) && q != p),
        s.no_duplicates() ==> without(s, p).no_duplicates(),
    decreases s.len(),
{
    if s.len() > 0 {
        let t = s.drop_last();
        lemma_without(t, p);
        assert forall|q: PaneId| #[trigger] s.contains(q) <==> (t.contains(q) || q == s.last()) by {
            if s.contains(q) {
                let i = choose|i: int| 0 <= i < s.len() && s[i] == q;
                if i < s.len() - 1 {
                    assert(t[i] == q);
                }
            }
            if t.contains(q) {
                let i = choose|i: int| 0 <= i < t.len() && t[i] == q;
                assert(s[i] == q);
            }
            if q == s.last() {
                assert(s[s.len() - 1] == q);
            }
        }
        if s.last() != p {
            let w = without(t, p);
            assert forall|q: PaneId| #[trigger] w.push(s.last()).contains(q) <==> (w.contains(q)
                || q == s.last()) by {
                if w.push(s.last()).contains(q) {
                    let i = choose|i: int| 0 <= i < w.len() + 1 && w.push(s.last())[i] == q;
                    if i < w.len() {
                        assert(w[i] == q);
                    }
                }
                if w.contains(q) {
                    let i = choose|i: int| 0 <= i < w.len() && w[i] == q;
                    assert(w.push(s.last())[i] == q);
                }
                if q == s.last() {
                    assert(w.push(s.last())[w.len() as int] == q);
                }
            }
            if s.no_duplicates() {
                assert(t.no_duplicates()) by {
                    assert forall|i: int, j: int| 0 <= i < t.len() && 0 <= j < t.len() && i != j implies t[i] != t[j] by {
                        assert(t[i] == s[i] && t[j] == s[j]);
                    }
                }
                assert(!t.contains(s.last())) by {
                    if t.contains(s.last()) {
                        let i = choose|i: int| 0 <= i < t.len() && t[i] == s.last();
                        assert(s[i] == s[s.len() - 1]);
                    }
                }
                assert(w.push(s.last()).no_duplicates()) by {
                    assert forall|i: int, j: int| 0 <= i < w.len() + 1 && 0 <= j < w.len() + 1 && i != j implies w.push(s.last())[i] != w.push(s.last())[j] by {
                        if i < w.len() && j < w.len() {
                        } else if i < w.len() {
                            assert(w.contains(w[i]));
                        } else {
                            assert(w.contains(w[j]));
                        }
                    }
                }
            }
        } else {
            if s.no_duplicates() {
                assert(t.no_duplicates()) by {
                    assert forall|i: int, j: int| 0 <= i < t.len() && 0 <= j < t.len() && i != j implies t[i] != t[j] by {
                        assert(t[i] == s[i] && t[j] == s[j]);
                    }
                }
            }
        }
    }
}

/// `t` cut to the limit of remembered panes.
pub open spec fn capped(t: Seq<PaneId>) -> Seq<PaneId> {
    if t.len() > MAX_RECENT_TERMINAL_PANES {
        t.take(MAX_RECENT_TERMINAL_PANES as int)
    } else {
        t
    }
}

/// The counter after one more identifier.
pub open spec fn bumped(n: u64) -> u64 {
    if n == u64::MAX {
        0
    } else {
        (n + 1) as u64
    }
}

fn bump(n: u64) -> (r: u64)
    ensures
        r == bumped(n),
{
    if n == u64::MAX {
        0
    } else {
        n + 1
    }
}

/// The id of the focused terminal pane of the tab at `position`.
pub fn focused_pane_id_in_tab(m: &PaneManifest, position: usize) -> (r: Option<PaneId>)
    ensures
        r == match focused_pane_in_tab(*m, position) {
            Some(p) => Some(spec_pane_id_from_info(p)),
            None => None,
        },
{
    let mut t: usize = 0;
    assert(m.tabs@.skip(0) =~= m.tabs@);
    while t < m.tabs.len()
        invariant
            t <= m.tabs@.len(),
            tab_panes(m.tabs@, position) == tab_panes(m.tabs@.skip(t as int), position),
        decreases m.tabs@.len() - t,
    {
        assert(m.tabs@.skip(t as int)[0] == m.tabs@[t as int]);
        if m.tabs[t].position == position {
            let panes = &m.tabs[t].panes;
            let mut i: usize = 0;
            assert(panes@.skip(0) =~= panes@);
            while i < panes.len()
                invariant
                    i <= panes@.len(),
                    t < m.tabs@.len(),
                    panes == m.tabs@[t as int].panes,
                    tab_panes(m.tabs@, position) == Some(panes@),
                    first_focused_terminal(panes@) == first_focused_terminal(panes@.skip(i as int)),
                decreases panes@.len() - i,
            {
                assert(panes@.skip(i as int)[0] == panes@[i as int]);
                if panes[i].is_focused && !panes[i].is_plugin {
                    return Some(pane_id_from_info(&panes[i]));
                }
                assert(panes@.skip(i as int).drop_first() =~= panes@.skip(i + 1));
                i = i + 1;
            }
            return None;
        }
        assert(m.tabs@.skip(t as int).drop_first() =~= m.tabs@.skip(t + 1));
        t = t + 1;
    }
    None
}

/// The first tab with a focused pane, and that pane's id.
pub fn first_focused_tab_id(m: &PaneManifest) -> (r: Option<(usize, PaneId)>)
    ensures
        r == match first_focused_tab(m.tabs@) {
            Some((t, p)) => Some((t, spec_pane_id_from_info(p))),
            None => None,
        },
{
    let mut t: usize = 0;
    assert(m.tabs@.skip(0) =~= m.tabs@);
    while t < m.tabs.len()
        invariant
            t <= m.tabs@.len(),
            first_focused_tab(m.tabs@) == first_focused_tab(m.tabs@.skip(t as int)),
        decreases m.tabs@.len() - t,
    {
        assert(m.tabs@.skip(t as int)[0] == m.tabs@[t as int]);
        let panes = &m.tabs[t].panes;
        let mut i: usize = 0;
        assert(panes@.skip(0) =~= panes@);
        while i < panes.len()
            invariant
                i <= panes@.len(),
                t < m.tabs@.len(),
                panes == m.tabs@[t as int].panes,
                first_focused_tab(m.tabs@) == first_focused_tab(m.tabs@.skip(t as int)),
                first_focused(panes@) == first_focused(panes@.skip(i as int)),
            decreases panes@.len() - i,
        {
            assert(panes@.skip(i as int)[0] == panes@[i as int]);
            if panes[i].is_focused {
                return Some((m.tabs[t].position, pane_id_from_info(&panes[i])));
            }
            assert(panes@.skip(i as int).drop_first() =~= panes@.skip(i + 1));
            i = i + 1;
        }
        assert(m.tabs@.skip(t as int).drop_first() =~= m.tabs@.skip(t + 1));
        t = t + 1;
    }
    None
}

/// Where focus is: the focused terminal of the remembered tab, or else the
/// first focused pane of any tab.
pub open spec fn focus_choice(m: PaneManifest, tab_index: Option<usize>) -> Option<(usize, PaneId)> {
    match tab_index {
        Some(t) if focused_pane_in_tab(m, t) is Some => Some(
            (t, spec_pane_id_from_info(focused_pane_in_tab(m, t)->0)),
        ),
        _ => match first_focused_tab(m.tabs@) {
            Some((t, p)) => Some((t, spec_pane_id_from_info(p))),
            None => None,
        },
    }
}

/// The focus after a look at the manifest: the focused pane of the
/// focused tab, or else of the first tab that has one; a terminal pane that
/// gets the focus becomes the most recent one. Without a manifest, or a
/// focused pane in it, the focus stays.
pub open spec fn focus_refreshed(s: QuillPlugin, f: QuillPlugin) -> bool {
    match s.pane_manifest {
        Some(m) => match focus_choice(m, s.focused_tab_index) {
            Some((t, p)) => f.focused_tab_index == Some(t) && f.focused_pane_id == Some(p)
                && f.recent_terminal_panes@ == (if p is Terminal {
                touched(s.recent_terminal_panes@, p)
            } else {
                s.recent_terminal_panes@
            }),
            None => f.focused_tab_index == s.focused_tab_index && f.focused_pane_id == s.focused_pane_id
                && f.recent_terminal_panes == s.recent_terminal_panes,
        },
        None => f.focused_tab_index == s.focused_tab_index && f.focused_pane_id == s.focused_pane_id
            && f.recent_terminal_panes == s.recent_terminal_panes,
    }
}

impl QuillPlugin {
    /// Puts `pane_id` first among the recent panes.
    pub fn touch_recent_pane(&mut self, pane_id: PaneId)
        requires
            old(self).wf(),
        ensures
            final(self).wf(),
            final(self).recent_terminal_panes@ == touched(old(self).recent_terminal_panes@, pane_id),
            final(self).recent_terminal_panes@[0] == pane_id,
            *final(self) == (QuillPlugin {
                recent_terminal_panes: final(self).recent_terminal_panes,
                ..*old(self)
            }),
    {
        let ghost s = self.recent_terminal_panes@;
        let mut out: Vec<PaneId> = Vec::new();
        out.push(pane_id);
        let mut i: usize = 0;
        let n = self.recent_terminal_panes.len();
        assert(without(s.take(0), pane_id) =~= Seq::<PaneId>::empty());
        assert(out@ =~= capped(seq![pane_id] + without(s.take(0), pane_id)));
        while i < n
            invariant
                i <= n,
                n == s.len(),
                s == self.recent_terminal_panes@,
                out@ == capped(seq![pane_id] + without(s.take(i as int), pane_id)),
            decreases n - i,
        {
            let q = self.recent_terminal_panes[i];
            assert(s.take(i + 1).drop_last() =~= s.take(i as int));
            assert(s.take(i + 1).last() == q);
            let ghost w = seq![pane_id] + without(s.take(i as int), pane_id);
            if q != pane_id {
                assert(seq![pane_id] + without(s.take(i + 1), pane_id) =~= w.push(q));
                if out.len() < MAX_RECENT_TERMINAL_PANES {
                    out.push(q);
                    assert(out@ =~= capped(w.push(q)));
                } else {
                    assert(capped(w.push(q)) =~= capped(w));
                }
            } else {
                assert(seq![pane_id] + without(s.take(i + 1), pane_id) =~= w);
            }
            i = i + 1;
        }
        assert(s.take(n as int) =~= s);
        proof {
            lemma_without(s, pane_id);
            let t = seq![pane_id] + without(s, pane_id);
            assert(t.no_duplicates()) by {
                assert forall|a: int, b: int| 0 <= a < t.len() && 0 <= b < t.len() && a != b implies t[a] != t[b] by {
                    if a > 0 && b > 0 {
                        assert(t[a] == without(s, pane_id)[a - 1]);
                        assert(t[b] == without(s, pane_id)[b - 1]);
                    } else if a == 0 {
                        assert(without(s, pane_id).contains(t[b]));
                    } else {
                        assert(without(s, pane_id).contains(t[a]));
                    }
                }
            }
            assert(out@.no_duplicates()) by {
                assert forall|a: int, b: int| 0 <= a < out@.len() && 0 <= b < out@.len() && a != b implies out@[a] != out@[b] by {
                    assert(out@[a] == t[a] && out@[b] == t[b]);
                }
            }
            assert(out@[0] == pane_id);
        }
        self.recent_terminal_panes = out;
    }

    /// Forgets a closed pane.
    pub fn forget_recent_pane(&mut self, pane_id: PaneId)
        requires
            old(self).wf(),
        ensures
            final(self).wf(),
            final(self).recent_terminal_panes@ == without(old(self).recent_terminal_panes@, pane_id),
            *final(self) == (QuillPlugin {
                recent_terminal_panes: final(self).recent_terminal_panes,
                ..*old(self)
            }),
    {
        let ghost s = self.recent_terminal_panes@;
        let mut out: Vec<PaneId> = Vec::new();
        let mut i: usize = 0;
        let n = self.recent_terminal_panes.len();
        assert(without(s.take(0), pane_id) =~= Seq::<PaneId>::empty());
        while i < n
            invariant
                i <= n,
                n == s.len(),
                s == self.recent_terminal_panes@,
                out@ == without(s.take(i as int), pane_id),
            decreases n - i,
        {
            let q = self.recent_terminal_panes[i];
            assert(s.take(i + 1).drop_last() =~= s.take(i as int));
            if q != pane_id {
                out.push(q);
            }
            i = i + 1;
        }
        assert(s.take(n as int) =~= s);
        proof {
            lemma_without(s, pane_id);
        }
        self.recent_terminal_panes = out;
    }

    /// Updates focus from the manifest, as `focus_choice` finds it, and
    /// remembers a focused terminal pane as recent.
    pub fn refresh_focus_from_manifest(&mut self)
        requires
            old(self).wf(),
        ensures
            final(self).wf(),
            focus_refreshed(*old(self), *final(self)),
            *final(self) == (QuillPlugin {
                recent_terminal_panes: final(self).recent_terminal_panes,
                focused_tab_index: final(self).focused_tab_index,
                focused_pane_id: final(self).focused_pane_id,
                ..*old(self)
            }),
    {
        let choice = match &self.pane_manifest {
            None => None,
            Some(m) => {
                let in_tab = match self.focused_tab_index {
                    Some(t) => match focused_pane_id_in_tab(m, t) {
                        Some(p) => Some((t, p)),
                        None => None,
                    },
                    None => None,
                };
                match in_tab {
                    Some(c) => Some(c),
                    None => first_focused_tab_id(m),
                }
            },
        };
        match choice {
            Some((t, p)) => {
                self.focused_tab_index = Some(t);
                self.focused_pane_id = Some(p);
                if let PaneId::Terminal(_) = p {
                    self.touch_recent_pane(p);
                }
            },
            None => {},
        }
    }

    /// Where focus is, from what is remembered, or else from the manifest.
    pub fn current_focus_info(&self) -> (r: Option<(usize, PaneId)>)
        ensures
            r == match (self.focused_tab_index, self.focused_pane_id) {
                (Some(t), Some(p)) => Some((t, p)),
                _ => match self.pane_manifest {
                    Some(m) => focus_choice(m, self.focused_tab_index),
                    None => None,
                },
            },
    {
        match (self.focused_tab_index, self.focused_pane_id) {
            (Some(t), Some(p)) => {
                return Some((t, p));
            },
            _ => {},
        }
        match &self.pane_manifest {
            None => None,
            Some(m) => {
                let in_tab = match self.focused_tab_index {
                    Some(t) => match focused_pane_id_in_tab(m, t) {
                        Some(p) => Some((t, p)),
                        None => None,
                    },
                    None => None,
                };
                match in_tab {
                    Some(c) => Some(c),
                    None => first_focused_tab_id(m),
                }
            },
        }
    }

    /// A fresh job id: `job-` and the job counter.
    pub fn next_job_id(&mut self) -> (r: String)
        ensures
            final(self).next_job_id == bumped(old(self).next_job_id),
            r@ == "job-"@ + dec(final(self).next_job_id as nat),
            *final(self) == (QuillPlugin { next_job_id: final(self).next_job_id, ..*old(self) }),
    {
        self.next_job_id = bump(self.next_job_id);
        let mut s = String::from_str("job-");
        let d = decimal(self.next_job_id as u128);
        s.append(d.as_str());
        s
    }

    /// A fresh request id: `req-`, the time in milliseconds, `-` and the
    /// request counter.
    pub fn next_request_id(&mut self, ms: u128) -> (r: String)
        ensures
            final(self).next_request_id == bumped(old(self).next_request_id),
            r@ == "req-"@ + dec(ms as nat) + "-"@ + dec(final(self).next_request_id as nat),
            *final(self) == (QuillPlugin { next_request_id: final(self).next_request_id, ..*old(self) }),
    {
        self.next_request_id = bump(self.next_request_id);
        stamped_id("req-", ms, self.next_request_id)
    }

    /// A fresh mark token: `mark-`, the time in milliseconds, `-` and the
    /// mark counter.
    pub fn next_mark_token(&mut self, ms: u128) -> (r: String)
        ensures
            final(self).next_mark_id == bumped(old(self).next_mark_id),
            r@ == "mark-"@ + dec(ms as nat) + "-"@ + dec(final(self).next_mark_id as nat),
            *final(self) == (QuillPlugin { next_mark_id: final(self).next_mark_id, ..*old(self) }),
    {
        self.next_mark_id = bump(self.next_mark_id);
        stamped_id("mark-", ms, self.next_mark_id)
    }
}

/// `prefix`, the time, `-` and the counter.
pub fn stamped_id(prefix: &str, ms: u128, n: u64) -> (r: String)
    ensures
        r@ == prefix@ + dec(ms as nat) + "-"@ + dec(n as nat),
{
    let mut s = String::from_str(prefix);
    let a = decimal(ms);
    s.append(a.as_str());
    s.append("-");
    let b = decimal(n as u128);
    s.append(b.as_str());
    s
}

pub fn bump_counter(n: u64) -> (r: u64)
    ensures
        r == bumped(n),
{
    bump(n)
}

impl QuillPlugin {
    /// Answers on the pipe, if the request came through one.
    pub fn send_response(
        &self,
        pipe_id: Option<&str>,
        json_only: bool,
        human: Option<String>,
        payload: Payload,
        unblock_after: bool,
        fx: &mut Vec<Effect>,
    )
        ensures
            match pipe_id {
                Some(p) => final(fx)@.len() == old(fx)@.len() + 1 && final(fx)@.take(
                    old(fx)@.len() as int,
                ) == old(fx)@ && (final(fx)@.last() matches Effect::Respond {
                    pipe_id: q,
                    json_only: j,
                    human: h,
                    payload: pl,
                    unblock: u,
                } && q@ == p@ && j == json_only && h == human && pl == payload && u
                    == unblock_after),
                None => final(fx)@ == old(fx)@,
            },
    {
        match pipe_id {
            Some(p) => {
                fx.push(
                    Effect::Respond {
                        pipe_id: String::from_str(p),
                        json_only,
                        human,
                        payload,
                        unblock: unblock_after,
                    },
                );
                assert(fx@.take(old(fx)@.len() as int) =~= old(fx)@);
            },
            None => {},
        }
    }

    /// Answers with an error.
    pub fn send_error_with_unblock(
        &self,
        pipe_id: Option<&str>,
        json_only: bool,
        error: ApiError,
        unblock_after: bool,
        fx: &mut Vec<Effect>,
    )
        ensures
            match pipe_id {
                Some(p) => final(fx)@.len() == old(fx)@.len() + 1 && final(fx)@.take(
                    old(fx)@.len() as int,
                ) == old(fx)@ && (final(fx)@.last() matches Effect::Respond {
                    pipe_id: q,
                    json_only: j,
                    human: h,
                    payload: Payload::Error(e),
                    unblock: u,
                } && q@ == p@ && j == json_only && h is None && e == error && u == unblock_after),
                None => final(fx)@ == old(fx)@,
            },
    {
        self.send_response(pipe_id, json_only, None, Payload::Error(error), unblock_after, fx);
    }

    /// Answers with an error, leaving the pipe as it is.
    pub fn send_error(&self, pipe_id: Option<&str>, json_only: bool, error: ApiError, fx: &mut Vec<Effect>)
        ensures
            match pipe_id {
                Some(p) => final(fx)@.len() == old(fx)@.len() + 1 && final(fx)@.take(
                    old(fx)@.len() as int,
                ) == old(fx)@ && (final(fx)@.last() matches Effect::Respond {
                    pipe_id: q,
                    payload: Payload::Error(e),
                    unblock: u,
                    ..
                } && q@ == p@ && e == error && !u),
                None => final(fx)@ == old(fx)@,
            },
    {
        self.send_error_with_unblock(pipe_id, json_only, error, false, fx);
    }

    /// Holds the pipe open until it is answered.
    pub fn block_pipe(&self, pipe_id: &str, fx: &mut Vec<Effect>)
        ensures
            final(fx)@.len() == old(fx)@.len() + 1,
            final(fx)@.take(old(fx)@.len() as int) == old(fx)@,
            final(fx)@.last() matches Effect::BlockPipe { pipe_id: q } && q@ == pipe_id@,
    {
        fx.push(Effect::BlockPipe { pipe_id: String::from_str(pipe_id) });
        assert(fx@.take(old(fx)@.len() as int) =~= old(fx)@);
    }

    /// Asks for a timer call while jobs are running.
    pub fn schedule_job_timer(&self, fx: &mut Vec<Effect>)
        ensures
            self.jobs@.len() > 0 ==> final(fx)@ == old(fx)@.push(Effect::ScheduleTimer),
            self.jobs@.len() == 0 ==> final(fx)@ == old(fx)@,
    {
        if self.jobs.len() > 0 {
            fx.push(Effect::ScheduleTimer);
        }
    }

    /// Every pane the manifest reports.
    pub fn collect_known_pane_ids(&self) -> (r: Vec<PaneId>)
        ensures
            forall|p: PaneId| #[trigger] r@.contains(p) <==> (self.pane_manifest matches Some(m)
                && manifest_has(m, p)),
    {
        let mut out: Vec<PaneId> = Vec::new();
        match &self.pane_manifest {
            None => {},
            Some(m) => {
                let mut t: usize = 0;
                while t < m.tabs.len()
                    invariant
                        t <= m.tabs@.len(),
                        forall|p: PaneId| #[trigger] out@.contains(p) <==> exists|a: int, i: int|
                            0 <= a < t && 0 <= i < m.tabs@[a].panes@.len()
                                && spec_pane_id_from_info(#[trigger] m.tabs@[a].panes@[i]) == p,
                    decreases m.tabs@.len() - t,
                {
                    let panes = &m.tabs[t].panes;
                    let mut i: usize = 0;
                    while i < panes.len()
                        invariant
                            t < m.tabs@.len(),
                            panes == m.tabs@[t as int].panes,
                            i <= panes@.len(),
                            forall|p: PaneId| #[trigger] out@.contains(p) <==> (exists|a: int, j: int|
                                0 <= a < t && 0 <= j < m.tabs@[a].panes@.len()
                                    && spec_pane_id_from_info(#[trigger] m.tabs@[a].panes@[j])
                                    == p) || (exists|j: int|
                                0 <= j < i && spec_pane_id_from_info(#[trigger] panes@[j]) == p),
                        decreases panes@.len() - i,
                    {
                        let ghost before = out@;
                        let id = pane_id_from_info(&panes[i]);
                        out.push(id);
                        proof {
                            assert forall|p: PaneId| #[trigger] out@.contains(p) <==> (before.contains(p) || p == id) by {
                                if out@.contains(p) {
                                    let k = choose|k: int| 0 <= k < out@.len() && out@[k] == p;
                                    if k < before.len() {
                                        assert(before[k] == p);
                                    }
                                }
                                if before.contains(p) {
                                    let k = choose|k: int| 0 <= k < before.len() && before[k] == p;
                                    assert(out@[k] == p);
                                }
                                if p == id {
                                    assert(out@[before.len() as int] == p);
                                }
                            }
                            assert forall|p: PaneId| #[trigger] out@.contains(p) <==> (exists|a: int, j: int|
                                0 <= a < t && 0 <= j < m.tabs@[a].panes@.len()
                                    && spec_pane_id_from_info(#[trigger] m.tabs@[a].panes@[j])
                                    == p) || (exists|j: int|
                                0 <= j < i + 1 && spec_pane_id_from_info(#[trigger] panes@[j]) == p) by {
                                if p == id {
                                    assert(spec_pane_id_from_info(panes@[i as int]) == p);
                                }
                                if exists|j: int| 0 <= j < i + 1 && spec_pane_id_from_info(#[trigger] panes@[j]) == p {
                                    let j = choose|j: int| 0 <= j < i + 1 && spec_pane_id_from_info(#[trigger] panes@[j]) == p;
                                    if j == i {
                                        assert(p == id);
                                    }
                                }
                            }
                        }
                        i = i + 1;
                    }
                    proof {
                        assert forall|p: PaneId| #[trigger] out@.contains(p) <==> exists|a: int, j: int|
                            0 <= a < t + 1 && 0 <= j < m.tabs@[a].panes@.len()
                                && spec_pane_id_from_info(#[trigger] m.tabs@[a].panes@[j]) == p by {
                            if exists|a: int, j: int|
                                0 <= a < t + 1 && 0 <= j < m.tabs@[a].panes@.len()
                                    && spec_pane_id_from_info(#[trigger] m.tabs@[a].panes@[j]) == p {
                                let (a, j) = choose|a: int, j: int|
                                    0 <= a < t + 1 && 0 <= j < m.tabs@[a].panes@.len()
                                        && spec_pane_id_from_info(#[trigger] m.tabs@[a].panes@[j]) == p;
                                if a == t {
                                    assert(spec_pane_id_from_info(panes@[j]) == p);
                                }
                            }
                            if exists|j: int| 0 <= j < i && spec_pane_id_from_info(#[trigger] panes@[j]) == p {
                                let j = choose|j: int| 0 <= j < i && spec_pane_id_from_info(#[trigger] panes@[j]) == p;
                                assert(spec_pane_id_from_info(m.tabs@[t as int].panes@[j]) == p);
                            }
                        }
                    }
                    t = t + 1;
                }
            },
        }
        out
    }
}

} // verus!
