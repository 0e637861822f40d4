//! Listing panes: `panes`.
use super::super::state::focus_choice;
use super::super::QuillPlugin;
use super::{human_text, human_view};
use crate::error::{ApiError, ApiResult, ErrorCode};
use crate::flags::{
    columns_at, flags_read, last_value, read_flags, scan_error_code, scan_message_fits, switch_at,
    tab_at, tab_of, take_last, FlagDef, FlagValue, Positionals, RawHit, ValueKind,
};
use crate::host::{Flow, HostFacts, HostRequest};
use crate::parsing::columns_of;
use crate::pattern::regex_is_match;
use crate::response::{CommandOutcome, Payload};
use crate::text::{join, join_strings, split_char, strs};
use crate::types::{tab_matches, PaneId, PaneInfo, PaneRow, TabSelector, TabPanes};
use crate::util::{column_text, column_value};
use vstd::prelude::*;

verus! {

/// The flags of `panes`.
pub open spec fn panes_defs() -> Seq<FlagDef> {
    seq![
        FlagDef { long: "--json", short: None, kind: ValueKind::Switch },
        FlagDef { long: "--focused", short: None, kind: ValueKind::Switch },
        FlagDef { long: "--all", short: None, kind: ValueKind::Switch },
        FlagDef { long: "--tab", short: None, kind: ValueKind::Tab },
        FlagDef { long: "--match-title", short: None, kind: ValueKind::Title },
        FlagDef { long: "--columns", short: None, kind: ValueKind::Columns },
    ]
}

fn panes_flags() -> (r: Vec<FlagDef>)
    ensures
        r@ == panes_defs(),
{
    let mut v: Vec<FlagDef> = Vec::new();
    v.push(FlagDef { long: "--json", short: None, kind: ValueKind::Switch });
    v.push(FlagDef { long: "--focused", short: None, kind: ValueKind::Switch });
    v.push(FlagDef { long: "--all", short: None, kind: ValueKind::Switch });
    v.push(FlagDef { long: "--tab", short: None, kind: ValueKind::Tab });
    v.push(FlagDef { long: "--match-title", short: None, kind: ValueKind::Title });
    v.push(FlagDef { long: "--columns", short: None, kind: ValueKind::Columns });
    assert(v@ =~= panes_defs());
    v
}

/// Whether `panes` lists a pane: only focused terminals with `--focused`,
/// plugins only with `--all`, and only titles the `--match-title` regex
/// matches.
pub open spec fn keep_pane(p: PaneInfo, only_focused: bool, with_plugins: bool, title: Option<Seq<char>>) -> bool {
    &&& !(only_focused && !(p.is_focused && !p.is_plugin))
    &&& !(!with_plugins && p.is_plugin)
    &&& match title {
        Some(t) => regex_is_match(t, false, p.title@),
        None => true,
    }
}

/// The panes of one tab that `panes` lists, with the tab's position.
pub open spec fn listed_in(
    tab: usize,
    panes: Seq<PaneInfo>,
    only_focused: bool,
    with_plugins: bool,
    title: Option<Seq<char>>,
) -> Seq<(usize, PaneInfo)>
    decreases panes.len(),
{
    if panes.len() == 0 {
        Seq::empty()
    } else {
        let rest = listed_in(tab, panes.drop_last(), only_focused, with_plugins, title);
        if keep_pane(panes.last(), only_focused, with_plugins, title) {
            rest.push((tab, panes.last()))
        } else {
            rest
        }
    }
}

/// The panes `panes` lists, tab by tab.
pub open spec fn listed(
    tabs: Seq<TabPanes>,
    selector: TabSelector,
    focused_tab: usize,
    only_focused: bool,
    with_plugins: bool,
    title: Option<Seq<char>>,
) -> Seq<(usize, PaneInfo)>
    decreases tabs.len(),
{
    if tabs.len() == 0 {
        Seq::empty()
    } else {
        let t = tabs.last();
        listed(tabs.drop_last(), selector, focused_tab, only_focused, with_plugins, title) + if tab_matches(
            selector,
            t.position,
            focused_tab,
        ) {
            listed_in(t.position, t.panes@, only_focused, with_plugins, title)
        } else {
            Seq::empty()
        }
    }
}

/// The process id the host reported for a pane.
pub open spec fn pid_for(pids: Seq<(PaneId, Option<i32>)>, p: PaneId) -> Option<i32>
    decreases pids.len(),
{
    if pids.len() == 0 {
        None
    } else if pids[0].0 == p {
        pids[0].1
    } else {
        pid_for(pids.drop_first(), p)
    }
}

/// The row of a listed pane.
pub open spec fn row_of(tab: usize, p: PaneInfo, pids: Seq<(PaneId, Option<i32>)>) -> PaneRow {
    PaneRow {
        pane_id: if p.is_plugin {
            PaneId::Plugin(p.id)
        } else {
            PaneId::Terminal(p.id)
        },
        id: p.id,
        is_plugin: p.is_plugin,
        tab,
        title: p.title,
        focused: p.is_focused,
        floating: p.is_floating,
        suppressed: p.is_suppressed,
        pid: if p.is_plugin {
            None
        } else {
            pid_for(pids, PaneId::Terminal(p.id))
        },
    }
}

/// Rows come in the order of their tab, then of their id.
pub open spec fn row_before(a: PaneRow, b: PaneRow) -> bool {
    a.tab < b.tab || (a.tab == b.tab && a.id <= b.id)
}

pub open spec fn rows_sorted(rows: Seq<PaneRow>) -> bool {
    forall|i: int, j: int| 0 <= i < j < rows.len() ==> row_before(#[trigger] rows[i], #[trigger] rows[j])
}

/// The tab `panes` takes as focused: the focused pane's, else the
/// remembered one, else the first.
pub open spec fn focused_tab_of(s: QuillPlugin) -> usize {
    let focus = match (s.focused_tab_index, s.focused_pane_id) {
        (Some(t), Some(p)) => Some((t, p)),
        _ => match s.pane_manifest {
            Some(m) => focus_choice(m, s.focused_tab_index),
            None => None,
        },
    };
    match focus {
        Some((t, _)) => t,
        None => match s.focused_tab_index {
            Some(t) => t,
            None => 0,
        },
    }
}

/// The columns the human table shows by default.
pub open spec fn default_columns() -> Seq<Seq<char>> {
    seq!["pane_id"@, "tab"@, "focused"@, "kind"@, "title"@]
}

/// The human table: a header of column names, then one line per row, the
/// cells separated by tabs.
pub open spec fn table_text(columns: Seq<Seq<char>>, rows: Seq<PaneRow>) -> Seq<char> {
    join(
        seq![join(columns, "\t"@)] + rows.map_values(
            |r: PaneRow| join(columns.map_values(|c: Seq<char>| column_text(r, c)), "\t"@),
        ),
        "\n"@,
    )
}

/// The terminal panes among those listed.
pub open spec fn terminal_ids(l: Seq<(usize, PaneInfo)>) -> Seq<PaneId>
    decreases l.len(),
{
    if l.len() == 0 {
        Seq::empty()
    } else {
        let rest = terminal_ids(l.drop_last());
        if l.last().1.is_plugin {
            rest
        } else {
            rest.push(PaneId::Terminal(l.last().1.id))
        }
    }
}

pub fn copy_info(p: &PaneInfo) -> (r: PaneInfo)
    ensures
        r == *p,
{
    PaneInfo {
        id: p.id,
        is_plugin: p.is_plugin,
        is_focused: p.is_focused,
        is_floating: p.is_floating,
        is_suppressed: p.is_suppressed,
        title: p.title.clone(),
    }
}

fn lookup_pid(pids: &Vec<(PaneId, Option<i32>)>, p: PaneId) -> (r: Option<i32>)
    ensures
        r == pid_for(pids@, p),
{
    let mut i: usize = 0;
    assert(pids@.skip(0) =~= pids@);
    while i < pids.len()
        invariant
            i <= pids@.len(),
            pid_for(pids@, p) == pid_for(pids@.skip(i as int), p),
        decreases pids@.len() - i,
    {
        assert(pids@.skip(i as int)[0] == pids@[i as int]);
        if pids[i].0 == p {
            return pids[i].1;
        }
        assert(pids@.skip(i as int).drop_first() =~= pids@.skip(i + 1));
        i = i + 1;
    }
    None
}

/// Inserts a row after every row that does not come after it.
fn insert_sorted(rows: &mut Vec<PaneRow>, row: PaneRow)
    requires
        rows_sorted(old(rows)@),
    ensures
        rows_sorted(final(rows)@),
        final(rows)@.to_multiset() == old(rows)@.to_multiset().insert(row),
{
    let mut i: usize = 0;
    while i < rows.len() && comes_before(&rows[i], &row)
        invariant
            i <= rows@.len(),
            rows@ == old(rows)@,
            forall|k: int| 0 <= k < i ==> row_before(#[trigger] rows@[k], row),
        decreases rows@.len() - i,
    {
        i = i + 1;
    }
    proof {
        vstd::seq_lib::to_multiset_insert(rows@, i as int, row);
    }
    let ghost before = rows@;
    rows.insert(i, row);
    assert forall|a: int, b: int| 0 <= a < b < rows@.len() implies row_before(
        #[trigger] rows@[a],
        #[trigger] rows@[b],
    ) by {
        if b < i {
        } else if b == i {
        } else if a < i {
            assert(rows@[b] == before[b - 1]);
            if i < before.len() {
                assert(!row_before(before[i as int], row));
                assert(row_before(before[a], before[i as int]) || a == i);
            }
        } else if a == i {
            assert(rows@[b] == before[b - 1]);
            assert(!row_before(before[i as int], row));
            if b - 1 > i {
                assert(row_before(before[i as int], before[b - 1]));
            }
        } else {
            assert(rows@[a] == before[a - 1]);
            assert(rows@[b] == before[b - 1]);
        }
    }
}

fn comes_before(a: &PaneRow, b: &PaneRow) -> (r: bool)
    ensures
        r == row_before(*a, *b),
{
    a.tab < b.tab || (a.tab == b.tab && a.id <= b.id)
}

/// The columns of the human table, as `--columns` gives them.
pub open spec fn columns_shown(raw: Seq<RawHit>) -> Seq<Seq<char>> {
    match last_value(raw, 5) {
        None => default_columns(),
        Some(v) => columns_of(split_char(v, ',')),
    }
}

fn table_lines(columns: &Vec<String>, rows: &Vec<PaneRow>) -> (r: String)
    ensures
        r@ == table_text(strs(columns@), rows@),
{
    let mut lines: Vec<String> = Vec::new();
    lines.push(join_strings(columns, "\t"));
    let ghost cs = strs(columns@);
    let mut k: usize = 0;
    while k < rows.len()
        invariant
            k <= rows@.len(),
            cs == strs(columns@),
            strs(lines@) == seq![join(cs, "\t"@)] + rows@.take(k as int).map_values(
                |r: PaneRow| join(cs.map_values(|c: Seq<char>| column_text(r, c)), "\t"@),
            ),
        decreases rows@.len() - k,
    {
        let row = &rows[k];
        let mut cells: Vec<String> = Vec::new();
        let mut c: usize = 0;
        while c < columns.len()
            invariant
                c <= columns@.len(),
                cs == strs(columns@),
                strs(cells@) == cs.take(c as int).map_values(|x: Seq<char>| column_text(*row, x)),
            decreases columns@.len() - c,
        {
            let v = column_value(row, columns[c].as_str());
            let ghost before = cells@;
            cells.push(v);
            assert(strs(cells@) =~= strs(before).push(v@));
            assert(cs.take(c + 1) =~= cs.take(c as int).push(cs[c as int]));
            assert(cs.take(c + 1).map_values(|x: Seq<char>| column_text(*row, x)) =~= cs.take(
                c as int,
            ).map_values(|x: Seq<char>| column_text(*row, x)).push(column_text(*row, cs[c as int])));
            c = c + 1;
        }
        assert(cs.take(cs.len() as int) =~= cs);
        let line = join_strings(&cells, "\t");
        let ghost before = lines@;
        lines.push(line);
        proof {
            assert(strs(lines@) =~= strs(before).push(line@));
            assert(rows@.take(k + 1) =~= rows@.take(k as int).push(rows@[k as int]));
            assert(rows@.take(k + 1).map_values(
                |r: PaneRow| join(cs.map_values(|c: Seq<char>| column_text(r, c)), "\t"@),
            ) =~= rows@.take(k as int).map_values(
                |r: PaneRow| join(cs.map_values(|c: Seq<char>| column_text(r, c)), "\t"@),
            ).push(join(cs.map_values(|c: Seq<char>| column_text(rows@[k as int], c)), "\t"@)));
            assert(strs(lines@) =~= seq![join(cs, "\t"@)] + rows@.take(k + 1).map_values(
                |r: PaneRow| join(cs.map_values(|c: Seq<char>| column_text(r, c)), "\t"@),
            ));
        }
        k = k + 1;
    }
    assert(rows@.take(rows@.len() as int) =~= rows@);
    join_strings(&lines, "\n")
}

fn default_column_names() -> (r: Vec<String>)
    ensures
        strs(r@) == default_columns(),
{
    let mut v: Vec<String> = Vec::new();
    v.push(String::from_str("pane_id"));
    v.push(String::from_str("tab"));
    v.push(String::from_str("focused"));
    v.push(String::from_str("kind"));
    v.push(String::from_str("title"));
    assert(strs(v@) =~= default_columns());
    v
}

/// What `panes` does: lists the panes, as rows or as a table.
pub open spec fn panes_outcome(
    before: QuillPlugin,
    args: Vec<String>,
    facts: HostFacts,
    r: Flow<ApiResult<CommandOutcome>>,
) -> bool {
    &&& match flags_read(args@, panes_defs(), Positionals::Forbidden) {
        Err(e) => r matches Flow::Ready(Err(x)) && x.code == scan_error_code(e)
            && scan_message_fits(e, x.message@, "panes"@, ""@),
        Ok(raw) => match before.pane_manifest {
            None => r matches Flow::Ready(Err(x)) && x.code == ErrorCode::NoPaneState && x.message@
                == "Pane state is not available yet"@,
            Some(m) => {
                let selector = match last_value(raw, 3) {
                    None => TabSelector::Focused,
                    Some(v) => tab_of(v)->0,
                };
                let l = listed(
                    m.tabs@,
                    selector,
                    focused_tab_of(before),
                    last_value(raw, 1) is Some,
                    last_value(raw, 2) is Some,
                    last_value(raw, 4),
                );
                match facts.pids {
                    None => r matches Flow::Need(HostRequest::PanePids { pane_ids })
                        && pane_ids@ == terminal_ids(l),
                    Some(pids) => {
                        let json_only = last_value(raw, 0) is Some;
                        r matches Flow::Ready(
                            Ok(
                                CommandOutcome::Immediate {
                                    json_only: j,
                                    human: h,
                                    payload: Payload::Panes { focused_tab, panes },
                                },
                            ),
                        ) && j == json_only && focused_tab == focused_tab_of(before)
                            && rows_sorted(panes@) && panes@.to_multiset() == l.map_values(
                            |e: (usize, PaneInfo)| row_of(e.0, e.1, pids@),
                        ).to_multiset() && human_view(h) == human_text(
                            json_only,
                            table_text(columns_shown(raw), panes@),
                        )
                    },
                }
            },
        },
    }
}

proof fn lemma_listed_in_focused(tab: usize, panes: Seq<PaneInfo>, with_plugins: bool, title: Option<Seq<char>>)
    ensures
        forall|i: int|
            0 <= i < listed_in(tab, panes, true, with_plugins, title).len() ==> (#[trigger] listed_in(
                tab,
                panes,
                true,
                with_plugins,
                title,
            )[i]).1.is_focused && !listed_in(tab, panes, true, with_plugins, title)[i].1.is_plugin,
    decreases panes.len(),
{
    if panes.len() > 0 {
        lemma_listed_in_focused(tab, panes.drop_last(), with_plugins, title);
        let rest = listed_in(tab, panes.drop_last(), true, with_plugins, title);
        let l = listed_in(tab, panes, true, with_plugins, title);
        if keep_pane(panes.last(), true, with_plugins, title) {
            assert(l == rest.push((tab, panes.last())));
            assert forall|i: int| 0 <= i < l.len() implies (#[trigger] l[i]).1.is_focused && !l[i].1.is_plugin by {
                if i < rest.len() {
                    assert(l[i] == rest[i]);
                }
            }
        } else {
            assert(l == rest);
        }
    }
}

proof fn lemma_listed_focused(
    tabs: Seq<TabPanes>,
    selector: TabSelector,
    focused_tab: usize,
    with_plugins: bool,
    title: Option<Seq<char>>,
)
    ensures
        forall|i: int|
            0 <= i < listed(tabs, selector, focused_tab, true, with_plugins, title).len() ==> (#[trigger] listed(
                tabs,
                selector,
                focused_tab,
                true,
                with_plugins,
                title,
            )[i]).1.is_focused && !listed(tabs, selector, focused_tab, true, with_plugins, title)[i].1.is_plugin,
    decreases tabs.len(),
{
    if tabs.len() > 0 {
        let t = tabs.last();
        lemma_listed_focused(tabs.drop_last(), selector, focused_tab, with_plugins, title);
        lemma_listed_in_focused(t.position, t.panes@, with_plugins, title);
        let a = listed(tabs.drop_last(), selector, focused_tab, true, with_plugins, title);
        let b = if tab_matches(selector, t.position, focused_tab) {
            listed_in(t.position, t.panes@, true, with_plugins, title)
        } else {
            Seq::empty()
        };
        let l = listed(tabs, selector, focused_tab, true, with_plugins, title);
        assert(l == a + b);
        assert forall|i: int| 0 <= i < l.len() implies (#[trigger] l[i]).1.is_focused && !l[i].1.is_plugin by {
            if i < a.len() {
                assert(l[i] == a[i]);
            } else {
                assert(l[i] == b[i - a.len()]);
            }
        }
    }
}

/// With `--focused`, `panes` lists focused terminal panes only.
pub proof fn panes_focused_lists_only_focused_terminals(
    before: QuillPlugin,
    args: Vec<String>,
    facts: HostFacts,
    r: Flow<ApiResult<CommandOutcome>>,
)
    requires
        panes_outcome(before, args, facts, r),
        flags_read(args@, panes_defs(), Positionals::Forbidden) matches Ok(raw) && last_value(raw, 1) is Some,
        r matches Flow::Ready(Ok(CommandOutcome::Immediate { payload: Payload::Panes { .. }, .. })),
    ensures
        r matches Flow::Ready(Ok(CommandOutcome::Immediate { payload: Payload::Panes { panes, .. }, .. }))
            && forall|i: int| 0 <= i < panes@.len() ==> (#[trigger] panes@[i]).focused && !panes@[i].is_plugin,
{
    let raw = flags_read(args@, panes_defs(), Positionals::Forbidden)->Ok_0;
    let m = before.pane_manifest->0;
    let selector = match last_value(raw, 3) {
        None => TabSelector::Focused,
        Some(v) => tab_of(v)->0,
    };
    let with_plugins = last_value(raw, 2) is Some;
    let title = last_value(raw, 4);
    let l = listed(m.tabs@, selector, focused_tab_of(before), true, with_plugins, title);
    lemma_listed_focused(m.tabs@, selector, focused_tab_of(before), with_plugins, title);
    let pids = facts.pids->0;
    let rows = l.map_values(|e: (usize, PaneInfo)| row_of(e.0, e.1, pids@));
    let panes = r->Ready_0->Ok_0->Immediate_payload->Panes_panes;
    assert forall|i: int| 0 <= i < panes@.len() implies (#[trigger] panes@[i]).focused && !panes@[i].is_plugin by {
        panes@.to_multiset_ensures();
        rows.to_multiset_ensures();
        assert(panes@.to_multiset() == rows.to_multiset());
        assert(panes@.contains(panes@[i]));
        assert(panes@.to_multiset().count(panes@[i]) > 0);
        assert(rows.to_multiset().count(panes@[i]) > 0);
        assert(rows.contains(panes@[i]));
        let j = choose|j: int| 0 <= j < rows.len() && rows[j] == panes@[i];
        assert(rows[j] == row_of(l[j].0, l[j].1, pids@));
    }
}

impl QuillPlugin {
    /// `panes`: the panes of the selected tabs, sorted by tab and id, with
    /// the process id of each terminal.
    #[verifier::rlimit(50)]
    #[verifier::spinoff_prover]
    pub fn cmd_panes(&self, args: &Vec<String>, facts: &HostFacts) -> (r: Flow<ApiResult<CommandOutcome>>)
        ensures
            panes_outcome(
                *self,
                *args,
                *facts,
                r,
            ),
    {
        let defs = panes_flags();
        let hits = match read_flags(args, &defs, Positionals::Forbidden, "panes", "") {
            Ok(h) => h,
            Err(e) => {
                return Flow::Ready(Err(e));
            },
        };
        let ghost raw = flags_read(args@, defs@, Positionals::Forbidden)->Ok_0;
        let json_only = switch_at(&hits, 0, Ghost(raw));
        let only_focused = switch_at(&hits, 1, Ghost(raw));
        let with_plugins = switch_at(&hits, 2, Ghost(raw));
        let selector = tab_at(&hits, 3, TabSelector::Focused, Ghost(defs@), Ghost(raw));
        let columns = columns_at(&hits, 5, Ghost(defs@), Ghost(raw));
        let title = match take_last(hits, 4, Ghost(defs@), Ghost(raw)) {
            Some(FlagValue::Title(re)) => Some(re),
            _ => None,
        };
        let ghost tview: Option<Seq<char>> = last_value(raw, 4);
        assert(match title {
            Some(re) => tview == Some(re.pattern()) && !re.ignore_case(),
            None => tview is None,
        });
        let m = match &self.pane_manifest {
            Some(m) => m,
            None => {
                return Flow::Ready(
                    Err(ApiError::with_text(ErrorCode::NoPaneState, "Pane state is not available yet")),
                );
            },
        };
        let focused_tab = match self.current_focus_info() {
            Some((t, _)) => t,
            None => match self.focused_tab_index {
                Some(t) => t,
                None => 0,
            },
        };
        let mut entries: Vec<(usize, PaneInfo)> = Vec::new();
        let mut t: usize = 0;
        while t < m.tabs.len()
            invariant
                t <= m.tabs@.len(),
                entries@ == listed(m.tabs@.take(t as int), selector, focused_tab, only_focused, with_plugins, tview),
                match title {
                    Some(re) => tview == Some(re.pattern()) && !re.ignore_case(),
                    None => tview is None,
                },
            decreases m.tabs@.len() - t,
        {
            assert(m.tabs@.take(t + 1).drop_last() =~= m.tabs@.take(t as int));
            let tab = &m.tabs[t];
            if selector.matches(tab.position, focused_tab) {
                let ghost base = entries@;
                let mut i: usize = 0;
                while i < tab.panes.len()
                    invariant
                        i <= tab.panes@.len(),
                        entries@ == base + listed_in(tab.position, tab.panes@.take(i as int), only_focused, with_plugins, tview),
                        match title {
                            Some(re) => tview == Some(re.pattern()) && !re.ignore_case(),
                            None => tview is None,
                        },
                    decreases tab.panes@.len() - i,
                {
                    assert(tab.panes@.take(i + 1).drop_last() =~= tab.panes@.take(i as int));
                    let p = &tab.panes[i];
                    let keep = !(only_focused && !(p.is_focused && !p.is_plugin)) && !(!with_plugins && p.is_plugin) && match &title {
                        Some(re) => re.is_match(p.title.as_str()),
                        None => true,
                    };
                    if keep {
                        entries.push((tab.position, copy_info(p)));
                    }
                    i = i + 1;
                    assert(entries@ =~= base + listed_in(tab.position, tab.panes@.take(i as int), only_focused, with_plugins, tview));
                }
                assert(tab.panes@.take(tab.panes@.len() as int) =~= tab.panes@);
            } else {
                assert(entries@ =~= listed(m.tabs@.take(t + 1), selector, focused_tab, only_focused, with_plugins, tview));
            }
            t = t + 1;
        }
        assert(m.tabs@.take(m.tabs@.len() as int) =~= m.tabs@);
        let pids = match &facts.pids {
            Some(p) => p,
            None => {
                let mut ids: Vec<PaneId> = Vec::new();
                let mut k: usize = 0;
                while k < entries.len()
                    invariant
                        k <= entries@.len(),
                        ids@ == terminal_ids(entries@.take(k as int)),
                    decreases entries@.len() - k,
                {
                    assert(entries@.take(k + 1).drop_last() =~= entries@.take(k as int));
                    if !entries[k].1.is_plugin {
                        ids.push(PaneId::Terminal(entries[k].1.id));
                    }
                    k = k + 1;
                }
                assert(entries@.take(entries@.len() as int) =~= entries@);
                return Flow::Need(HostRequest::PanePids { pane_ids: ids });
            },
        };
        let mut rows: Vec<PaneRow> = Vec::new();
        let mut k: usize = 0;
        proof {
            let f = |e: (usize, PaneInfo)| row_of(e.0, e.1, pids@);
            assert(entries@.take(0).map_values(f) =~= rows@);
        }
        while k < entries.len()
            invariant
                k <= entries@.len(),
                rows_sorted(rows@),
                rows@.to_multiset() == entries@.take(k as int).map_values(
                    |e: (usize, PaneInfo)| row_of(e.0, e.1, pids@),
                ).to_multiset(),
            decreases entries@.len() - k,
        {
            let e = &entries[k];
            let p = &e.1;
            let pane_id = if p.is_plugin {
                PaneId::Plugin(p.id)
            } else {
                PaneId::Terminal(p.id)
            };
            let pid = if p.is_plugin {
                None
            } else {
                lookup_pid(pids, PaneId::Terminal(p.id))
            };
            let row = PaneRow {
                pane_id,
                id: p.id,
                is_plugin: p.is_plugin,
                tab: e.0,
                title: p.title.clone(),
                focused: p.is_focused,
                floating: p.is_floating,
                suppressed: p.is_suppressed,
                pid,
            };
            assert(row == row_of(e.0, e.1, pids@));
            proof {
                let f = |e: (usize, PaneInfo)| row_of(e.0, e.1, pids@);
                assert(entries@.take(k + 1).map_values(f) =~= entries@.take(k as int).map_values(f).push(row));
                vstd::seq_lib::to_multiset_build(entries@.take(k as int).map_values(f), row);
            }
            insert_sorted(&mut rows, row);
            k = k + 1;
        }
        assert(entries@.take(entries@.len() as int) =~= entries@);
        let human = if json_only {
            None
        } else {
            let cols = match columns {
                Some(c) => c,
                None => default_column_names(),
            };
            Some(table_lines(&cols, &rows))
        };
        Flow::Ready(
            Ok(
                CommandOutcome::Immediate {
                    json_only,
                    human,
                    payload: Payload::Panes { focused_tab, panes: rows },
                },
            ),
        )
    }
}

} // verus!
