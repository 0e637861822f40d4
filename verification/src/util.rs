//! Line utilities: escape-sequence stripping, grep matches with context,
//! table cells of the pane listing, and the wall clock.
use crate::pattern::{
    ansi_csi_pattern, ansi_osc_pattern, ansi_stripped, regex_build, regex_is_match, AnsiStripper,
    SearchRegex,
};
use crate::text::{dec, decimal, strs};
use crate::types::{pane_id_text, pane_id_to_string, GrepMatch, GrepMatchView, PaneRow};
use vstd::prelude::*;
use vstd::utf8::{decode_utf8, valid_utf8};

verus! {

/// `input` without its terminal escape sequences.
pub fn strip_ansi_sequences(input: &str) -> (r: String)
    ensures
        regex_build(ansi_osc_pattern(), false) is Ok && regex_build(ansi_csi_pattern(), false) is Ok
            ==> r@ == ansi_stripped(input@),
        regex_build(ansi_osc_pattern(), false) is Err || regex_build(ansi_csi_pattern(), false) is Err
            ==> r@ == input@,
{
    match AnsiStripper::new() {
        Some(s) => s.strip(input),
        None => String::from_str(input),
    }
}

/// The strings of `v` from `start` to `end`.
pub fn copy_strings(v: &[String], start: usize, end: usize) -> (r: Vec<String>)
    requires
        start <= end <= v@.len(),
    ensures
        r@ == v@.subrange(start as int, end as int),
{
    let mut out: Vec<String> = Vec::new();
    let mut k: usize = start;
    while k < end
        invariant
            start <= k <= end <= v@.len(),
            out@ == v@.subrange(start as int, k as int),
        decreases end - k,
    {
        out.push(v[k].clone());
        k = k + 1;
        assert(out@ =~= v@.subrange(start as int, k as int));
    }
    out
}

/// The match of the line at `idx`, with up to `context` lines on each side.
pub open spec fn grep_match_at(
    lines: Seq<Seq<char>>,
    idx: int,
    context: int,
    offset: int,
) -> GrepMatchView {
    let before_start = if idx >= context { idx - context } else { 0 };
    let after_end = if idx + context + 1 <= lines.len() { idx + context + 1 } else { lines.len() as int };
    GrepMatchView {
        line_number: offset + idx + 1,
        line: lines[idx],
        before: lines.subrange(before_start, idx),
        after: if idx + 1 >= after_end { Seq::empty() } else { lines.subrange(idx + 1, after_end) },
    }
}

/// The matches among the first `n` lines, in order.
pub open spec fn grep_matches(
    lines: Seq<Seq<char>>,
    pattern: Seq<char>,
    ignore_case: bool,
    context: int,
    offset: int,
    n: int,
) -> Seq<GrepMatchView>
    decreases n,
{
    if n <= 0 {
        Seq::empty()
    } else {
        let prev = grep_matches(lines, pattern, ignore_case, context, offset, n - 1);
        if regex_is_match(pattern, ignore_case, lines[n - 1]) {
            prev.push(grep_match_at(lines, n - 1, context, offset))
        } else {
            prev
        }
    }
}

pub open spec fn match_views(v: Seq<GrepMatch>) -> Seq<GrepMatchView> {
    v.map_values(|m: GrepMatch| m.view())
}

/// Every line that the regex matches, numbered from `line_number_offset + 1`,
/// with up to `context` lines before and after it.
pub fn build_grep_matches(
    lines: &[String],
    regex: &SearchRegex,
    context: usize,
    line_number_offset: usize,
) -> (r: Vec<GrepMatch>)
    requires
        line_number_offset + lines@.len() <= usize::MAX,
    ensures
        match_views(r@) == grep_matches(
            strs(lines@),
            regex.pattern(),
            regex.ignore_case(),
            context as int,
            line_number_offset as int,
            lines@.len() as int,
        ),
{
    let mut out: Vec<GrepMatch> = Vec::new();
    let n = lines.len();
    let ghost ls = strs(lines@);
    let mut idx: usize = 0;
    while idx < n
        invariant
            idx <= n,
            n == lines@.len(),
            ls == strs(lines@),
            line_number_offset + n <= usize::MAX,
            match_views(out@) == grep_matches(
                ls,
                regex.pattern(),
                regex.ignore_case(),
                context as int,
                line_number_offset as int,
                idx as int,
            ),
        decreases n - idx,
    {
        let line = &lines[idx];
        if regex.is_match(line.as_str()) {
            let before_start = if idx >= context { idx - context } else { 0 };
            let before = copy_strings(lines, before_start, idx);
            let after_end = if context < n - idx { idx + context + 1 } else { n };
            let after = if idx + 1 >= after_end {
                Vec::new()
            } else {
                copy_strings(lines, idx + 1, after_end)
            };
            let m = GrepMatch {
                line_number: line_number_offset + idx + 1,
                line: line.clone(),
                before,
                after,
            };
            let ghost before_out = out@;
            out.push(m);
            proof {
                let g = grep_match_at(ls, idx as int, context as int, line_number_offset as int);
                assert(m.view().before =~= g.before);
                assert(m.view().after =~= g.after);
                assert(match_views(out@) =~= match_views(before_out).push(m.view()));
            }
        }
        idx = idx + 1;
    }
    out
}

/// Signed decimal rendering.
pub open spec fn idec(i: int) -> Seq<char> {
    if i < 0 {
        seq!['-'] + dec((-i) as nat)
    } else {
        dec(i as nat)
    }
}

/// The text of one cell of the `panes` table.
pub open spec fn column_text(row: PaneRow, column: Seq<char>) -> Seq<char> {
    if column == "pane_id"@ {
        pane_id_text(row.pane_id)
    } else if column == "id"@ {
        dec(row.id as nat)
    } else if column == "kind"@ {
        if row.is_plugin { "plugin"@ } else { "terminal"@ }
    } else if column == "tab"@ {
        dec(row.tab as nat)
    } else if column == "title"@ {
        row.title@
    } else if column == "focused"@ {
        if row.focused { "true"@ } else { "false"@ }
    } else if column == "floating"@ {
        if row.floating { "true"@ } else { "false"@ }
    } else if column == "suppressed"@ {
        if row.suppressed { "true"@ } else { "false"@ }
    } else if column == "pid"@ {
        match row.pid {
            Some(p) => idec(p as int),
            None => Seq::empty(),
        }
    } else {
        Seq::empty()
    }
}

fn bool_text(b: bool) -> (r: String)
    ensures
        r@ == (if b { "true"@ } else { "false"@ }),
{
    if b {
        String::from_str("true")
    } else {
        String::from_str("false")
    }
}

/// The text of one cell of the `panes` table: strings as they are, numbers
/// and booleans as JSON writes them, nothing for an absent pid or an unknown
/// column.
pub fn column_value(row: &PaneRow, column: &str) -> (r: String)
    ensures
        r@ == column_text(*row, column@),
{
    let c = crate::text::chars_of(column);
    if crate::text::eq_str(&c, "pane_id") {
        pane_id_to_string(row.pane_id)
    } else if crate::text::eq_str(&c, "id") {
        decimal(row.id as u128)
    } else if crate::text::eq_str(&c, "kind") {
        if row.is_plugin {
            String::from_str("plugin")
        } else {
            String::from_str("terminal")
        }
    } else if crate::text::eq_str(&c, "tab") {
        decimal(row.tab as u128)
    } else if crate::text::eq_str(&c, "title") {
        row.title.clone()
    } else if crate::text::eq_str(&c, "focused") {
        bool_text(row.focused)
    } else if crate::text::eq_str(&c, "floating") {
        bool_text(row.floating)
    } else if crate::text::eq_str(&c, "suppressed") {
        bool_text(row.suppressed)
    } else if crate::text::eq_str(&c, "pid") {
        match row.pid {
            Some(p) => {
                if p < 0 {
                    proof {
                        reveal_strlit("-");
                    }
                    let mut s = String::from_str("-");
                    let mag = (0 - (p as i64)) as u128;
                    let d = decimal(mag);
                    s.append(d.as_str());
                    s
                } else {
                    decimal(p as u128)
                }
            },
            None => String::new(),
        }
    } else {
        String::new()
    }
}


/// What `String::from_utf8_lossy` makes of some bytes: their text, with
/// each invalid sequence replaced by U+FFFD.
pub uninterp spec fn utf8_lossy(bytes: Seq<u8>) -> Seq<char>;

/// The text of some bytes, by `String::from_utf8_lossy`: the decoded text
/// when they are valid UTF-8. What replaces invalid sequences is left to the
/// name.
#[verifier::external_body]
pub(crate) fn lossy_text(bytes: &[u8]) -> (r: String)
    ensures
        r@ == utf8_lossy(bytes@),
        valid_utf8(bytes@) ==> r@ == decode_utf8(bytes@),
{
    String::from_utf8_lossy(bytes).into_owned()
}

#[verifier::external_type_specification]
#[verifier::external_body]
pub struct ExSystemTime(std::time::SystemTime);

/// `SystemTime::now`: the system clock's reading. Nothing is promised of
/// it: it is the time.
#[verifier::external_body]
fn system_now() -> std::time::SystemTime {
    std::time::SystemTime::now()
}

/// `SystemTime::duration_since(UNIX_EPOCH)`: how long after the Unix epoch
/// a reading lies, or nothing when it lies before. Nothing is promised of
/// the value.
#[verifier::external_body]
fn since_epoch(t: &std::time::SystemTime) -> Option<core::time::Duration> {
    t.duration_since(std::time::UNIX_EPOCH).ok()
}

/// `Duration::as_millis`: the whole milliseconds of a duration.
#[verifier::external_body]
fn whole_millis(d: &core::time::Duration) -> u128 {
    d.as_millis()
}

/// Milliseconds since the Unix epoch, by the system clock; zero when the
/// clock reads a time before the epoch.
pub fn unix_time_ms() -> u128 {
    let now = system_now();
    match since_epoch(&now) {
        Some(d) => whole_millis(&d),
        None => 0,
    }
}

} // verus!
