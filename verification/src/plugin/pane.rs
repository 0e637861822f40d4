//! Panes by name, their scrollback, and access tokens.
use super::QuillPlugin;
use crate::error::{error_with, ApiError, ApiResult, ErrorCode};
use crate::host::{Flow, HostFacts, HostRequest};
use crate::pattern::{ansi_csi_pattern, ansi_osc_pattern, ansi_stripped, regex_build, AnsiStripper};
use crate::table::{lookup, position};
use crate::text::{chars_of, string_of, strs, trim, trim_chars};
use crate::types::{PaneContents, PaneId, PaneInfo, PaneLines, TabPanes};
use vstd::prelude::*;

verus! {

/// The ids of the terminal panes titled `name` among `panes`, in order.
pub open spec fn named_in(panes: Seq<PaneInfo>, name: Seq<char>) -> Seq<u32>
    decreases panes.len(),
{
    if panes.len() == 0 {
        Seq::empty()
    } else {
        let p = panes.last();
        let rest = named_in(panes.drop_last(), name);
        if !p.is_plugin && p.title@ == name {
            rest.push(p.id)
        } else {
            rest
        }
    }
}

/// The ids of the terminal panes titled `name` in all tabs, in order.
pub open spec fn named_terminals(tabs: Seq<TabPanes>, name: Seq<char>) -> Seq<u32>
    decreases tabs.len(),
{
    if tabs.len() == 0 {
        Seq::empty()
    } else {
        named_terminals(tabs.drop_last(), name) + named_in(tabs.last().panes@, name)
    }
}

/// The scrollback the host reported for a pane.
pub open spec fn scrollback_for(
    s: Seq<(PaneId, Result<PaneContents, String>)>,
    p: PaneId,
) -> Option<Result<PaneContents, String>>
    decreases s.len(),
{
    if s.len() == 0 {
        None
    } else if s[0].0 == p {
        Some(s[0].1)
    } else {
        scrollback_for(s.drop_first(), p)
    }
}

/// A scrollback line as read: without escape sequences when stripping.
pub open spec fn read_line(s: Seq<char>, strip: bool) -> Seq<char> {
    if strip && regex_build(ansi_osc_pattern(), false) is Ok && regex_build(ansi_csi_pattern(), false) is Ok {
        ansi_stripped(s)
    } else {
        s
    }
}

pub open spec fn read_lines(v: Seq<String>, strip: bool) -> Seq<Seq<char>> {
    strs(v).map_values(|s: Seq<char>| read_line(s, strip))
}

/// The lines of a pane: those above the viewport, the viewport's, those
/// below.
pub open spec fn pane_lines_of(c: PaneContents, strip: bool) -> Seq<Seq<char>> {
    read_lines(c.lines_above_viewport@, strip) + read_lines(c.viewport@, strip) + read_lines(
        c.lines_below_viewport@,
        strip,
    )
}

/// A session variable's value, unless it is blank.
pub open spec fn env_token(v: Option<String>) -> Option<String> {
    match v {
        Some(s) => if trim(s@).len() > 0 {
            Some(s)
        } else {
            None
        },
        None => None,
    }
}

pub fn clone_opt(o: &Option<String>) -> (r: Option<String>)
    ensures
        r == *o,
{
    match o {
        Some(s) => Some(s.clone()),
        None => None,
    }
}

fn append_lines(
    out: &mut Vec<String>,
    src: &Vec<String>,
    stripper: &Option<AnsiStripper>,
    strip: bool,
)
    requires
        stripper matches Some(s) ==> s.wf(),
        stripper is Some <==> (regex_build(ansi_osc_pattern(), false) is Ok && regex_build(ansi_csi_pattern(), false) is Ok),
    ensures
        strs(final(out)@) == strs(old(out)@) + read_lines(src@, strip),
{
    let mut i: usize = 0;
    while i < src.len()
        invariant
            i <= src@.len(),
            stripper matches Some(s) ==> s.wf(),
            stripper is Some <==> (regex_build(ansi_osc_pattern(), false) is Ok && regex_build(ansi_csi_pattern(), false) is Ok),
            strs(out@) == strs(old(out)@) + read_lines(src@.take(i as int), strip),
        decreases src@.len() - i,
    {
        let ghost before = out@;
        let line = match stripper {
            Some(s) if strip => s.strip(src[i].as_str()),
            _ => src[i].clone(),
        };
        assert(line@ == read_line(src@[i as int]@, strip));
        assert(read_lines(src@.take(i + 1), strip) =~= read_lines(src@.take(i as int), strip).push(
            read_line(src@[i as int]@, strip),
        ));
        out.push(line);
        assert(strs(out@) =~= strs(before).push(line@));
        i = i + 1;
        assert(strs(out@) =~= strs(old(out)@) + read_lines(src@.take(i as int), strip));
    }
    assert(src@.take(src@.len() as int) =~= src@);
}

/// The terminal pane a name stands for, or the code of the error that says
/// why there is none: the name, trimmed, must title exactly one terminal
/// pane.
pub open spec fn resolved(s: QuillPlugin, name: Seq<char>) -> Result<PaneId, ErrorCode> {
    if trim(name).len() == 0 {
        Err(ErrorCode::InvalidArgs)
    } else {
        match s.pane_manifest {
            None => Err(ErrorCode::NoPaneState),
            Some(m) => {
                let ids = named_terminals(m.tabs@, trim(name));
                if ids.len() == 0 {
                    Err(ErrorCode::PaneNotFound)
                } else if ids.len() > 1 {
                    Err(ErrorCode::AmbiguousPaneName)
                } else {
                    Ok(PaneId::Terminal(ids[0]))
                }
            },
        }
    }
}

/// What a failed lookup of the pane named `name` says.
pub open spec fn resolve_message(name: Seq<char>, code: ErrorCode) -> Seq<char> {
    match code {
        ErrorCode::InvalidArgs => "Pane name cannot be empty"@,
        ErrorCode::NoPaneState => "Pane state is not available yet"@,
        ErrorCode::PaneNotFound => "No terminal pane named `"@ + trim(name) + "`"@,
        _ => "More than one terminal pane is named `"@ + trim(name) + "`"@,
    }
}

/// What a `--since` token that does not serve says: that it is unknown, or
/// that it marks another pane.
pub open spec fn since_message(s: QuillPlugin, token: Seq<char>) -> Seq<char> {
    if lookup(s.marks@, token) is None {
        "Unknown --since token"@
    } else {
        "--since token belongs to a different pane"@
    }
}

/// The line count a `--since` mark gives for a pane, if it is a mark of that
/// pane.
pub open spec fn since_count(s: QuillPlugin, token: Seq<char>, pane_id: PaneId) -> Option<usize> {
    match lookup(s.marks@, token) {
        None => None,
        Some(m) => if m.pane_id != pane_id {
            None
        } else {
            Some(m.line_count)
        },
    }
}

impl QuillPlugin {
    /// The terminal pane with exactly the given title.
    pub fn resolve_pane_name(&self, pane_name: &str) -> (r: ApiResult<PaneId>)
        ensures
            match resolved(*self, pane_name@) {
                Ok(p) => r == Ok::<PaneId, ApiError>(p),
                Err(c) => r matches Err(e) && e.code == c && e.message@ == resolve_message(pane_name@, c),
            },
            trim(pane_name@).len() == 0 ==> (r matches Err(e) && e.code == ErrorCode::InvalidArgs),
            trim(pane_name@).len() > 0 ==> match self.pane_manifest {
                None => r matches Err(e) && e.code == ErrorCode::NoPaneState,
                Some(m) => {
                    let ids = named_terminals(m.tabs@, trim(pane_name@));
                    if ids.len() == 0 {
                        r matches Err(e) && e.code == ErrorCode::PaneNotFound
                    } else if ids.len() > 1 {
                        r matches Err(e) && e.code == ErrorCode::AmbiguousPaneName
                    } else {
                        r == Ok::<PaneId, ApiError>(PaneId::Terminal(ids[0]))
                    }
                },
            },
    {
        let c = chars_of(pane_name);
        let name = trim_chars(&c);
        if name.len() == 0 {
            return Err(ApiError::with_text(ErrorCode::InvalidArgs, "Pane name cannot be empty"));
        }
        let m = match &self.pane_manifest {
            Some(m) => m,
            None => {
                return Err(
                    ApiError::with_text(ErrorCode::NoPaneState, "Pane state is not available yet"),
                );
            },
        };
        let name_s = string_of(&name);
        let mut ids: Vec<u32> = Vec::new();
        let mut t: usize = 0;
        while t < m.tabs.len()
            invariant
                t <= m.tabs@.len(),
                name_s@ == name@,
                ids@ == named_terminals(m.tabs@.take(t as int), name@),
            decreases m.tabs@.len() - t,
        {
            assert(m.tabs@.take(t + 1).drop_last() =~= m.tabs@.take(t as int));
            let panes = &m.tabs[t].panes;
            let ghost base = ids@;
            let mut i: usize = 0;
            while i < panes.len()
                invariant
                    i <= panes@.len(),
                    name_s@ == name@,
                    ids@ == base + named_in(panes@.take(i as int), name@),
                decreases panes@.len() - i,
            {
                assert(panes@.take(i + 1).drop_last() =~= panes@.take(i as int));
                if !panes[i].is_plugin && panes[i].title == name_s {
                    ids.push(panes[i].id);
                }
                i = i + 1;
                assert(ids@ =~= base + named_in(panes@.take(i as int), name@));
            }
            assert(panes@.take(panes@.len() as int) =~= panes@);
            t = t + 1;
        }
        assert(m.tabs@.take(m.tabs@.len() as int) =~= m.tabs@);
        if ids.len() == 0 {
            let mut m = String::from_str("No terminal pane named `");
            m.append(name_s.as_str());
            m.append("`");
            return Err(ApiError::new(ErrorCode::PaneNotFound, m));
        }
        if ids.len() > 1 {
            let mut m = String::from_str("More than one terminal pane is named `");
            m.append(name_s.as_str());
            m.append("`");
            return Err(
                ApiError::new(ErrorCode::AmbiguousPaneName, m).hint(
                    "Rename panes to unique names and retry.",
                ),
            );
        }
        Ok(PaneId::Terminal(ids[0]))
    }

    /// The lines of a pane, from the scrollback the host reported for it.
    pub fn read_pane_lines(&self, pane_id: PaneId, strip_ansi: bool, facts: &HostFacts) -> (r: Flow<
        ApiResult<PaneLines>,
    >)
        ensures
            match scrollback_for(facts.scrollbacks@, pane_id) {
                None => r matches Flow::Need(HostRequest::Scrollback { pane_id: p }) && p == pane_id,
                Some(Err(_)) => r matches Flow::Ready(Err(e)) && e.code == ErrorCode::ScrollbackError,
                Some(Ok(c)) => r matches Flow::Ready(Ok(l)) && strs(l.all@) == pane_lines_of(
                    c,
                    strip_ansi,
                ) && l.viewport_start == c.lines_above_viewport@.len()
                    && l.viewport_end_exclusive == c.lines_above_viewport@.len()
                    + c.viewport@.len(),
            },
    {
        let mut k: usize = 0;
        let sb = &facts.scrollbacks;
        assert(sb@.skip(0) =~= sb@);
        while k < sb.len()
            invariant
                k <= sb@.len(),
                sb@ == facts.scrollbacks@,
                scrollback_for(sb@, pane_id) == scrollback_for(sb@.skip(k as int), pane_id),
            decreases sb@.len() - k,
        {
            assert(sb@.skip(k as int)[0] == sb@[k as int]);
            if sb[k].0 == pane_id {
                assert(scrollback_for(sb@, pane_id) == Some(sb@[k as int].1));
                match &sb[k].1 {
                    Err(e) => {
                        return Flow::Ready(
                            Err(
                                error_with(
                                    ErrorCode::ScrollbackError,
                                    "Failed to read pane scrollback: ",
                                    e.as_str(),
                                ),
                            ),
                        );
                    },
                    Ok(c) => {
                        let stripper = AnsiStripper::new();
                        let mut all: Vec<String> = Vec::new();
                        append_lines(&mut all, &c.lines_above_viewport, &stripper, strip_ansi);
                        let viewport_start = all.len();
                        append_lines(&mut all, &c.viewport, &stripper, strip_ansi);
                        let viewport_end_exclusive = all.len();
                        append_lines(&mut all, &c.lines_below_viewport, &stripper, strip_ansi);
                        assert(strs(all@) =~= pane_lines_of(*c, strip_ansi));
                        return Flow::Ready(Ok(PaneLines { all, viewport_start, viewport_end_exclusive }));
                    },
                }
            }
            assert(sb@.skip(k as int).drop_first() =~= sb@.skip(k + 1));
            k = k + 1;
        }
        Flow::Need(HostRequest::Scrollback { pane_id })
    }

    /// The token in the session's environment, when the plugin may read it;
    /// otherwise the one read before.
    pub fn session_env_token(&mut self, facts: &HostFacts) -> (r: Flow<Option<String>>)
        ensures
            !old(self).session_env_permission_granted ==> r == Flow::Ready(
                old(self).token_from_session_env,
            ) && *final(self) == *old(self),
            old(self).session_env_permission_granted ==> match facts.session_token {
                None => r == Flow::<Option<String>>::Need(HostRequest::SessionEnv)
                    && *final(self) == *old(self),
                Some(v) => r == Flow::Ready(env_token(v)) && *final(self) == (QuillPlugin {
                    token_from_session_env: if env_token(v) is Some {
                        env_token(v)
                    } else {
                        old(self).token_from_session_env
                    },
                    ..*old(self)
                }),
            },
    {
        if !self.session_env_permission_granted {
            return Flow::Ready(clone_opt(&self.token_from_session_env));
        }
        match &facts.session_token {
            None => Flow::Need(HostRequest::SessionEnv),
            Some(v) => {
                let token = match v {
                    Some(s) => {
                        let c = chars_of(s.as_str());
                        let t = trim_chars(&c);
                        if t.len() > 0 {
                            Some(s.clone())
                        } else {
                            None
                        }
                    },
                    None => None,
                };
                if token.is_some() {
                    self.token_from_session_env = clone_opt(&token);
                }
                Flow::Ready(token)
            },
        }
    }

    /// The line count a `--since` mark recorded for the pane.
    pub fn resolve_since_line_count(&self, token: &str, pane_id: PaneId) -> (r: ApiResult<usize>)
        requires
            self.wf(),
        ensures
            match since_count(*self, token@, pane_id) {
                Some(n) => r == Ok::<usize, ApiError>(n),
                None => r matches Err(e) && e.code == ErrorCode::InvalidMark && e.message@ == since_message(
                    *self,
                    token@,
                ),
            },
            match lookup(self.marks@, token@) {
                None => r matches Err(e) && e.code == ErrorCode::InvalidMark,
                Some(m) => if m.pane_id != pane_id {
                    r matches Err(e) && e.code == ErrorCode::InvalidMark
                } else {
                    r == Ok::<usize, ApiError>(m.line_count)
                },
            },
    {
        let key = String::from_str(token);
        match position(&self.marks, &key) {
            None => Err(
                ApiError::with_text(ErrorCode::InvalidMark, "Unknown --since token").hint(
                    "Create a token with `mark --pane ...`",
                ),
            ),
            Some(i) => {
                let mark = &self.marks[i].1;
                if mark.pane_id != pane_id {
                    return Err(
                        ApiError::with_text(
                            ErrorCode::InvalidMark,
                            "--since token belongs to a different pane",
                        ),
                    );
                }
                Ok(mark.line_count)
            },
        }
    }
}

} // verus!
