//! The flag grammar shared by the plugin's hand-parsed commands: switches,
//! flags that take the next argument or an inline `--flag=value`, and at
//! most one positional argument.
use crate::error::{error_with, ApiError, ApiResult, ErrorCode};
use crate::parsing::{
    columns_of, duration_nanos, opt_value, parse_columns, parse_duration, parse_tab_selector,
    parse_tail_from, parse_usize_literal, parse_wait_mode, Nanos,
};
use crate::pattern::{build_regex, regex_build, SearchRegex};
use crate::text::{chars_of, eq_str, parse_unsigned, split_char, strip_prefix, strs, trim};
use crate::types::{TabSelector, TailFrom, WaitMode};
use vstd::prelude::*;

verus! {

/// How a flag's value is read.
#[derive(Debug, Clone, Copy, PartialEq, Eq, Structural)]
pub enum ValueKind {
    /// A switch: no value.
    Switch,
    Text,
    Count,
    From,
    Mode,
    Duration,
    Tab,
    Columns,
    Title,
}

/// A flag: its long name, an optional short name, and how its value is read.
pub struct FlagDef {
    pub long: &'static str,
    pub short: Option<&'static str>,
    pub kind: ValueKind,
}

/// What may stand besides flags.
#[derive(Debug, Clone, Copy, PartialEq, Eq, Structural)]
pub enum Positionals {
    /// Nothing: every other argument is an unknown flag.
    Forbidden,
    /// One argument that does not start with `-`; it fills the given slot.
    NonDash(usize),
    /// One argument of any form; it fills the given slot.
    Any(usize),
}

/// A flag's value, read.
pub enum FlagValue {
    On,
    Text(String),
    Count(usize),
    From(TailFrom),
    Mode(WaitMode),
    Duration(Nanos),
    Tab(TabSelector),
    Columns(Vec<String>),
    Title(SearchRegex),
}

/// One flag or positional argument, read: the flag's index, or the slot's.
pub struct Hit {
    pub index: usize,
    pub value: FlagValue,
}

/// One flag or positional argument as written.
pub struct RawHit {
    pub index: int,
    pub value: Seq<char>,
}

/// Why reading the flags stopped.
pub enum ScanError {
    /// A flag at the end, without its value.
    Missing(Seq<char>),
    /// An argument that is no flag of the command.
    Unknown(Seq<char>),
    /// A second positional argument.
    Extra,
    /// A value that does not read as its flag's kind.
    Bad(ValueKind, Seq<char>),
}

pub open spec fn is_exact(d: FlagDef, arg: Seq<char>) -> bool {
    arg == d.long@ || (d.short matches Some(s) && arg == s@)
}

pub open spec fn is_inline(d: FlagDef, arg: Seq<char>) -> bool {
    d.kind != ValueKind::Switch && strip_prefix(arg, d.long@.push('=')) is Some
}

/// The index of the first flag an argument names, or `defs.len()`.
pub open spec fn first_match(defs: Seq<FlagDef>, arg: Seq<char>, j: int) -> int
    decreases defs.len() - j,
{
    if j >= defs.len() || j < 0 {
        defs.len() as int
    } else if is_exact(defs[j], arg) || is_inline(defs[j], arg) {
        j
    } else {
        first_match(defs, arg, j + 1)
    }
}

pub open spec fn tail_from_of(v: Seq<char>) -> Option<TailFrom> {
    if v == "end"@ {
        Some(TailFrom::End)
    } else if v == "viewport"@ {
        Some(TailFrom::Viewport)
    } else if v == "top"@ {
        Some(TailFrom::Top)
    } else {
        None
    }
}

pub open spec fn wait_mode_of(v: Seq<char>) -> Option<WaitMode> {
    if v == "any"@ {
        Some(WaitMode::Any)
    } else if v == "all"@ {
        Some(WaitMode::All)
    } else {
        None
    }
}

pub open spec fn tab_of(v: Seq<char>) -> Option<TabSelector> {
    if v == "focused"@ {
        Some(TabSelector::Focused)
    } else if v == "all"@ {
        Some(TabSelector::All)
    } else {
        match parse_unsigned(trim(v), usize::MAX as nat) {
            Some(n) => Some(TabSelector::Index(n as usize)),
            None => None,
        }
    }
}

/// Whether a value reads as the kind.
pub open spec fn converts(kind: ValueKind, v: Seq<char>) -> bool {
    match kind {
        ValueKind::Count => parse_unsigned(trim(v), usize::MAX as nat) is Some,
        ValueKind::From => tail_from_of(v) is Some,
        ValueKind::Mode => wait_mode_of(v) is Some,
        ValueKind::Duration => trim(v).len() > 0 && duration_nanos(v) is Some,
        ValueKind::Tab => tab_of(v) is Some,
        ValueKind::Title => regex_build(v, false) is Ok,
        _ => true,
    }
}

/// Whether `x` is what the value reads as.
pub open spec fn value_of(kind: ValueKind, v: Seq<char>, x: FlagValue) -> bool {
    match kind {
        ValueKind::Switch => x is On,
        ValueKind::Text => x matches FlagValue::Text(s) && s@ == v,
        ValueKind::Count => x matches FlagValue::Count(n) && parse_unsigned(
            trim(v),
            usize::MAX as nat,
        ) == Some(n as nat),
        ValueKind::From => x matches FlagValue::From(f) && tail_from_of(v) == Some(f),
        ValueKind::Mode => x matches FlagValue::Mode(m) && wait_mode_of(v) == Some(m),
        ValueKind::Duration => x matches FlagValue::Duration(n) && duration_nanos(v) == Some(
            n as nat,
        ),
        ValueKind::Tab => x matches FlagValue::Tab(t) && tab_of(v) == Some(t),
        ValueKind::Columns => x matches FlagValue::Columns(c) && strs(c@) == columns_of(split_char(v, ',')),
        ValueKind::Title => x matches FlagValue::Title(re) && re.pattern() == v
            && !re.ignore_case(),
    }
}

/// The slot a positional argument fills.
pub open spec fn slot_of(p: Positionals) -> int {
    match p {
        Positionals::Forbidden => -1,
        Positionals::NonDash(s) => s as int,
        Positionals::Any(s) => s as int,
    }
}

/// The kind of the value at an index: a flag's, or text for a slot past the
/// flags.
pub open spec fn kind_at(defs: Seq<FlagDef>, index: int) -> ValueKind {
    if 0 <= index < defs.len() {
        defs[index].kind
    } else {
        ValueKind::Text
    }
}

/// Whether some hit fills the index.
pub open spec fn filled(hits: Seq<RawHit>, index: int) -> bool {
    exists|k: int| 0 <= k < hits.len() && (#[trigger] hits[k]).index == index
}

/// Reads the arguments from `i` on, after `hits`, as the command's loop does:
/// each argument is a flag, a flag's value, or the positional argument;
/// the first one that is none of these stops the reading.
pub open spec fn scan(
    args: Seq<Seq<char>>,
    defs: Seq<FlagDef>,
    pos: Positionals,
    i: int,
    hits: Seq<RawHit>,
) -> Result<Seq<RawHit>, ScanError>
    decreases args.len() - i,
{
    if i >= args.len() || i < 0 {
        Ok(hits)
    } else {
        let arg = args[i];
        let m = first_match(defs, arg, 0);
        if m < defs.len() {
            let d = defs[m];
            if d.kind == ValueKind::Switch {
                scan(args, defs, pos, i + 1, hits.push(RawHit { index: m, value: Seq::empty() }))
            } else if is_exact(d, arg) {
                if i + 1 >= args.len() {
                    Err(ScanError::Missing(d.long@))
                } else if !converts(d.kind, args[i + 1]) {
                    Err(ScanError::Bad(d.kind, args[i + 1]))
                } else {
                    scan(args, defs, pos, i + 2, hits.push(RawHit { index: m, value: args[i + 1] }))
                }
            } else {
                let v = strip_prefix(arg, d.long@.push('='))->0;
                if !converts(d.kind, v) {
                    Err(ScanError::Bad(d.kind, v))
                } else {
                    scan(args, defs, pos, i + 1, hits.push(RawHit { index: m, value: v }))
                }
            }
        } else if pos is Forbidden || (pos is NonDash && arg.len() > 0 && arg[0] == '-') {
            Err(ScanError::Unknown(arg))
        } else if filled(hits, slot_of(pos)) {
            Err(ScanError::Extra)
        } else {
            scan(args, defs, pos, i + 1, hits.push(RawHit { index: slot_of(pos), value: arg }))
        }
    }
}

/// The message of a stopped reading: a missing value names its flag, an
/// unknown argument names the command and the argument, and a second
/// positional argument gets the command's own message. A value that does
/// not read gets its reader's message.
pub open spec fn scan_message_fits(e: ScanError, message: Seq<char>, command: Seq<char>, extra: Seq<char>) -> bool {
    match e {
        ScanError::Missing(f) => message == "Missing value for "@ + f,
        ScanError::Unknown(a) => message == "Unknown flag for "@ + command + ": "@ + a,
        ScanError::Extra => message == extra,
        ScanError::Bad(..) => true,
    }
}

/// The error code of a stopped reading.
pub open spec fn scan_error_code(e: ScanError) -> ErrorCode {
    match e {
        ScanError::Bad(ValueKind::Title, _) => ErrorCode::InvalidRegex,
        ScanError::Bad(ValueKind::Duration, v) => if trim(v).len() == 0 {
            ErrorCode::InvalidDuration
        } else {
            ErrorCode::InvalidArgs
        },
        _ => ErrorCode::InvalidArgs,
    }
}

/// The flags of a command, read: what `read_flags` gives.
pub open spec fn flags_read(args: Seq<String>, defs: Seq<FlagDef>, pos: Positionals) -> Result<
    Seq<RawHit>,
    ScanError,
> {
    scan(strs(args), defs, pos, 0, Seq::empty())
}

/// The hits agree with the raw hits, value by value.
pub open spec fn hits_agree(defs: Seq<FlagDef>, hits: Seq<Hit>, raw: Seq<RawHit>) -> bool {
    &&& hits.len() == raw.len()
    &&& forall|k: int|
        0 <= k < hits.len() ==> (#[trigger] hits[k]).index == raw[k].index && value_of(
            kind_at(defs, raw[k].index),
            raw[k].value,
            hits[k].value,
        )
}

/// Reads a value of the given kind; `flag` names it in errors.
pub fn read_value(kind: ValueKind, v: &str, flag: &str) -> (r: ApiResult<FlagValue>)
    ensures
        converts(kind, v@) ==> (r matches Ok(x) && value_of(kind, v@, x)),
        !converts(kind, v@) ==> (r matches Err(e) && e.code == scan_error_code(
            ScanError::Bad(kind, v@),
        )),
{
    match kind {
        ValueKind::Switch => Ok(FlagValue::On),
        ValueKind::Text => Ok(FlagValue::Text(String::from_str(v))),
        ValueKind::Count => match parse_usize_literal(v, flag) {
            Ok(n) => Ok(FlagValue::Count(n)),
            Err(e) => Err(e),
        },
        ValueKind::From => {
            proof {
                reveal_strlit("end");
                reveal_strlit("viewport");
                reveal_strlit("top");
            }
            let r = parse_tail_from(v);
            match r {
                Ok(f) => Ok(FlagValue::From(f)),
                Err(e) => Err(e),
            }
        },
        ValueKind::Mode => match {
            proof {
                reveal_strlit("any");
                reveal_strlit("all");
            }
            parse_wait_mode(v)
        } {
            Ok(m) => Ok(FlagValue::Mode(m)),
            Err(e) => Err(e),
        },
        ValueKind::Duration => match parse_duration(v) {
            Ok(n) => Ok(FlagValue::Duration(n)),
            Err(e) => Err(e),
        },
        ValueKind::Tab => match parse_tab_selector(v) {
            Ok(t) => Ok(FlagValue::Tab(t)),
            Err(e) => Err(e),
        },
        ValueKind::Columns => Ok(FlagValue::Columns(parse_columns(v))),
        ValueKind::Title => match build_regex(v, false) {
            Ok(re) => Ok(FlagValue::Title(re)),
            Err(m) => {
                let mut msg = String::from_str("Invalid --match-title regex: ");
                msg.append(m.as_str());
                Err(ApiError::new(ErrorCode::InvalidRegex, msg))
            },
        },
    }
}

fn exact(d: &FlagDef, arg: &[char]) -> (r: bool)
    ensures
        r == is_exact(*d, arg@),
{
    eq_str(arg, d.long) || match d.short {
        Some(s) => eq_str(arg, s),
        None => false,
    }
}

/// The first flag an argument names, with its inline value if it has one.
fn match_flag(defs: &Vec<FlagDef>, arg: &str) -> (r: (usize, Option<String>))
    ensures
        r.0 == first_match(defs@, arg@, 0),
        r.0 < defs@.len() && is_exact(defs@[r.0 as int], arg@) ==> r.1 is None,
        r.0 < defs@.len() && !is_exact(defs@[r.0 as int], arg@) ==> (r.1 matches Some(v) && v@
            == strip_prefix(arg@, defs@[r.0 as int].long@.push('='))->0),
{
    let a = chars_of(arg);
    let mut j: usize = 0;
    while j < defs.len()
        invariant
            j <= defs@.len(),
            a@ == arg@,
            first_match(defs@, arg@, 0) == first_match(defs@, arg@, j as int),
        decreases defs@.len() - j,
    {
        let d = &defs[j];
        if exact(d, &a) {
            return (j, None);
        }
        if d.kind != ValueKind::Switch {
            match opt_value(arg, d.long) {
                Some(v) => {
                    return (j, Some(v));
                },
                None => {},
            }
        }
        j = j + 1;
    }
    (j, None)
}

/// Reads a command's arguments by its flags. `command` names it in the error
/// for an unknown flag; `extra` is the error for a second positional
/// argument.
pub fn read_flags(
    args: &Vec<String>,
    defs: &Vec<FlagDef>,
    pos: Positionals,
    command: &str,
    extra: &str,
) -> (r: ApiResult<Vec<Hit>>)
    requires
        slot_of(pos) >= defs@.len() || pos is Forbidden || (0 <= slot_of(pos) < defs@.len()
            && defs@[slot_of(pos)].kind == ValueKind::Text),
    ensures
        match flags_read(args@, defs@, pos) {
            Ok(raw) => r matches Ok(h) && hits_agree(defs@, h@, raw),
            Err(e) => r matches Err(x) && x.code == scan_error_code(e) && scan_message_fits(
                e,
                x.message@,
                command@,
                extra@,
            ),
        },
{
    let ghost sargs = strs(args@);
    let mut hits: Vec<Hit> = Vec::new();
    let ghost mut raw: Seq<RawHit> = Seq::empty();
    let mut slot_full = false;
    let mut i: usize = 0;
    while i < args.len()
        invariant
            i <= args@.len(),
            sargs == strs(args@),
            slot_of(pos) >= defs@.len() || pos is Forbidden || (0 <= slot_of(pos) < defs@.len()
                && defs@[slot_of(pos)].kind == ValueKind::Text),
            flags_read(args@, defs@, pos) == scan(sargs, defs@, pos, i as int, raw),
            hits_agree(defs@, hits@, raw),
            slot_full == filled(raw, slot_of(pos)),
        decreases args@.len() - i,
    {
        let arg = &args[i];
        assert(sargs[i as int] == arg@);
        let (m, inline) = match_flag(defs, arg.as_str());
        if m < defs.len() {
            let d = &defs[m];
            if d.kind == ValueKind::Switch {
                let ghost h = RawHit { index: m as int, value: Seq::empty() };
                hits.push(Hit { index: m, value: FlagValue::On });
                proof {
                    if m as int == slot_of(pos) {
                        assert(raw.push(h)[raw.len() as int] == h);
                    }
                    assert(filled(raw.push(h), slot_of(pos)) == (filled(raw, slot_of(pos)) || m
                        as int == slot_of(pos))) by {
                        if filled(raw.push(h), slot_of(pos)) {
                            let k = choose|k: int|
                                0 <= k < raw.push(h).len() && (#[trigger] raw.push(h)[k]).index
                                    == slot_of(pos);
                            if k < raw.len() {
                                assert(raw[k] == raw.push(h)[k]);
                            }
                        }
                        if filled(raw, slot_of(pos)) {
                            let k = choose|k: int|
                                0 <= k < raw.len() && (#[trigger] raw[k]).index == slot_of(pos);
                            assert(raw.push(h)[k] == raw[k]);
                        }
                    }
                    raw = raw.push(h);
                }
                if m == slot_index(pos) {
                    slot_full = true;
                }
                i = i + 1;
            } else {
                let value: String;
                let next: usize;
                match inline {
                    Some(v) => {
                        value = v;
                        next = i + 1;
                    },
                    None => {
                        if i + 1 >= args.len() {
                            return Err(error_with(ErrorCode::InvalidArgs, "Missing value for ", d.long));
                        }
                        assert(sargs[i + 1] == args@[i + 1]@);
                        value = args[i + 1].clone();
                        next = i + 2;
                    },
                }
                let x = read_value(d.kind, value.as_str(), d.long);
                match x {
                    Err(e) => {
                        return Err(e);
                    },
                    Ok(x) => {
                        let ghost h = RawHit { index: m as int, value: value@ };
                        hits.push(Hit { index: m, value: x });
                        proof {
                            assert(filled(raw.push(h), slot_of(pos)) == (filled(raw, slot_of(pos))
                                || m as int == slot_of(pos))) by {
                                if filled(raw.push(h), slot_of(pos)) {
                                    let k = choose|k: int|
                                        0 <= k < raw.push(h).len() && (#[trigger] raw.push(
                                            h,
                                        )[k]).index == slot_of(pos);
                                    if k < raw.len() {
                                        assert(raw[k] == raw.push(h)[k]);
                                    }
                                }
                                if filled(raw, slot_of(pos)) {
                                    let k = choose|k: int|
                                        0 <= k < raw.len() && (#[trigger] raw[k]).index
                                            == slot_of(pos);
                                    assert(raw.push(h)[k] == raw[k]);
                                }
                                if m as int == slot_of(pos) {
                                    assert(raw.push(h)[raw.len() as int] == h);
                                }
                            }
                            raw = raw.push(h);
                        }
                        if m == slot_index(pos) {
                            slot_full = true;
                        }
                        i = next;
                    },
                }
            }
        } else {
            let a = chars_of(arg.as_str());
            let dash = a.len() > 0 && a[0] == '-';
            let unknown = match pos {
                Positionals::Forbidden => true,
                Positionals::NonDash(_) => dash,
                Positionals::Any(_) => false,
            };
            if unknown {
                let mut msg = String::from_str("Unknown flag for ");
                msg.append(command);
                msg.append(": ");
                msg.append(arg.as_str());
                return Err(ApiError::new(ErrorCode::InvalidArgs, msg));
            }
            if slot_full {
                return Err(ApiError::with_text(ErrorCode::InvalidArgs, extra));
            }
            let s = slot_index(pos);
            let ghost h = RawHit { index: slot_of(pos), value: arg@ };
            hits.push(Hit { index: s, value: FlagValue::Text(arg.clone()) });
            proof {
                assert(raw.push(h)[raw.len() as int] == h);
                raw = raw.push(h);
            }
            slot_full = true;
            i = i + 1;
        }
    }
    Ok(hits)
}


/// The value of the last hit at an index.
pub open spec fn last_value(raw: Seq<RawHit>, index: int) -> Option<Seq<char>>
    decreases raw.len(),
{
    if raw.len() == 0 {
        None
    } else if raw.last().index == index {
        Some(raw.last().value)
    } else {
        last_value(raw.drop_last(), index)
    }
}

/// Which of two indices the last hit among them has.
pub open spec fn last_among(raw: Seq<RawHit>, a: int, b: int) -> Option<int>
    decreases raw.len(),
{
    if raw.len() == 0 {
        None
    } else if raw.last().index == a || raw.last().index == b {
        Some(raw.last().index)
    } else {
        last_among(raw.drop_last(), a, b)
    }
}

pub proof fn lemma_last_among(raw: Seq<RawHit>, a: int, b: int)
    ensures
        last_among(raw, a, b) matches Some(i) ==> i == a || i == b,
    decreases raw.len(),
{
    if raw.len() > 0 {
        lemma_last_among(raw.drop_last(), a, b);
    }
}

/// The text of the last hit at an index of text kind.
pub fn text_at(hits: &Vec<Hit>, index: usize, Ghost(defs): Ghost<Seq<FlagDef>>, Ghost(raw): Ghost<Seq<RawHit>>) -> (r: Option<String>)
    requires
        hits_agree(defs, hits@, raw),
        kind_at(defs, index as int) == ValueKind::Text,
    ensures
        match last_value(raw, index as int) {
            None => r is None,
            Some(v) => r matches Some(s) && s@ == v,
        },
{
    let mut r: Option<String> = None;
    let mut k: usize = 0;
    while k < hits.len()
        invariant
            k <= hits@.len(),
            hits_agree(defs, hits@, raw),
            kind_at(defs, index as int) == ValueKind::Text,
            match last_value(raw.take(k as int), index as int) {
                None => r is None,
                Some(v) => r matches Some(s) && s@ == v,
            },
        decreases hits@.len() - k,
    {
        assert(raw.take(k + 1).drop_last() =~= raw.take(k as int));
        if hits[k].index == index {
            match &hits[k].value {
                FlagValue::Text(s) => {
                    r = Some(s.clone());
                },
                _ => {},
            }
        }
        k = k + 1;
    }
    assert(raw.take(raw.len() as int) =~= raw);
    r
}

/// The count of the last hit at an index of count kind, or the default.
pub fn count_at(hits: &Vec<Hit>, index: usize, default: usize, Ghost(defs): Ghost<Seq<FlagDef>>, Ghost(raw): Ghost<Seq<RawHit>>) -> (r: usize)
    requires
        hits_agree(defs, hits@, raw),
        kind_at(defs, index as int) == ValueKind::Count,
    ensures
        match last_value(raw, index as int) {
            None => r == default,
            Some(v) => parse_unsigned(trim(v), usize::MAX as nat) == Some(r as nat),
        },
{
    let mut r: usize = default;
    let mut k: usize = 0;
    while k < hits.len()
        invariant
            k <= hits@.len(),
            hits_agree(defs, hits@, raw),
            kind_at(defs, index as int) == ValueKind::Count,
            match last_value(raw.take(k as int), index as int) {
                None => r == default,
                Some(v) => parse_unsigned(trim(v), usize::MAX as nat) == Some(r as nat),
            },
        decreases hits@.len() - k,
    {
        assert(raw.take(k + 1).drop_last() =~= raw.take(k as int));
        if hits[k].index == index {
            match &hits[k].value {
                FlagValue::Count(n) => {
                    r = *n;
                },
                _ => {},
            }
        }
        k = k + 1;
    }
    assert(raw.take(raw.len() as int) =~= raw);
    r
}

/// The duration of the last hit at an index of duration kind, or the
/// default.
pub fn duration_at(hits: &Vec<Hit>, index: usize, default: Nanos, Ghost(defs): Ghost<Seq<FlagDef>>, Ghost(raw): Ghost<Seq<RawHit>>) -> (r: Nanos)
    requires
        hits_agree(defs, hits@, raw),
        kind_at(defs, index as int) == ValueKind::Duration,
    ensures
        match last_value(raw, index as int) {
            None => r == default,
            Some(v) => duration_nanos(v) == Some(r as nat),
        },
{
    let mut r: Nanos = default;
    let mut k: usize = 0;
    while k < hits.len()
        invariant
            k <= hits@.len(),
            hits_agree(defs, hits@, raw),
            kind_at(defs, index as int) == ValueKind::Duration,
            match last_value(raw.take(k as int), index as int) {
                None => r == default,
                Some(v) => duration_nanos(v) == Some(r as nat),
            },
        decreases hits@.len() - k,
    {
        assert(raw.take(k + 1).drop_last() =~= raw.take(k as int));
        if hits[k].index == index {
            match &hits[k].value {
                FlagValue::Duration(n) => {
                    r = *n;
                },
                _ => {},
            }
        }
        k = k + 1;
    }
    assert(raw.take(raw.len() as int) =~= raw);
    r
}

/// Whether a switch was given.
pub fn switch_at(hits: &Vec<Hit>, index: usize, Ghost(raw): Ghost<Seq<RawHit>>) -> (r: bool)
    requires
        hits@.len() == raw.len(),
        forall|k: int| 0 <= k < hits@.len() ==> (#[trigger] hits@[k]).index == raw[k].index,
    ensures
        r == last_value(raw, index as int) is Some,
{
    let mut r = false;
    let mut k: usize = 0;
    while k < hits.len()
        invariant
            k <= hits@.len(),
            hits@.len() == raw.len(),
            forall|k: int| 0 <= k < hits@.len() ==> (#[trigger] hits@[k]).index == raw[k].index,
            r == last_value(raw.take(k as int), index as int) is Some,
        decreases hits@.len() - k,
    {
        assert(raw.take(k + 1).drop_last() =~= raw.take(k as int));
        if hits[k].index == index {
            r = true;
        }
        k = k + 1;
    }
    assert(raw.take(raw.len() as int) =~= raw);
    r
}

/// Which of two switches was given last.
pub fn last_switch(hits: &Vec<Hit>, a: usize, b: usize, Ghost(raw): Ghost<Seq<RawHit>>) -> (r: Option<usize>)
    requires
        hits@.len() == raw.len(),
        forall|k: int| 0 <= k < hits@.len() ==> (#[trigger] hits@[k]).index == raw[k].index,
    ensures
        match last_among(raw, a as int, b as int) {
            None => r is None,
            Some(i) => r == Some(i as usize),
        },
        last_among(raw, a as int, b as int) matches Some(i) ==> i == a || i == b,
{
    proof {
        lemma_last_among(raw, a as int, b as int);
    }
    let mut r: Option<usize> = None;
    let mut k: usize = 0;
    while k < hits.len()
        invariant
            k <= hits@.len(),
            hits@.len() == raw.len(),
            forall|k: int| 0 <= k < hits@.len() ==> (#[trigger] hits@[k]).index == raw[k].index,
            match last_among(raw.take(k as int), a as int, b as int) {
                None => r is None,
                Some(i) => r == Some(i as usize),
            },
        decreases hits@.len() - k,
    {
        assert(raw.take(k + 1).drop_last() =~= raw.take(k as int));
        if hits[k].index == a || hits[k].index == b {
            r = Some(hits[k].index);
        }
        k = k + 1;
    }
    assert(raw.take(raw.len() as int) =~= raw);
    r
}

/// The value of the last hit at an index, taken out of the hits.
pub fn take_last(hits: Vec<Hit>, index: usize, Ghost(defs): Ghost<Seq<FlagDef>>, Ghost(raw): Ghost<Seq<RawHit>>) -> (r: Option<FlagValue>)
    requires
        hits_agree(defs, hits@, raw),
    ensures
        match last_value(raw, index as int) {
            None => r is None,
            Some(v) => r matches Some(x) && value_of(kind_at(defs, index as int), v, x),
        },
{
    let ghost all = hits@;
    let mut hits = hits;
    assert(raw.take(raw.len() as int) =~= raw);
    assert(hits@ =~= all.take(hits@.len() as int));
    while hits.len() > 0
        invariant
            hits@.len() <= raw.len(),
            hits_agree(defs, all, raw),
            hits@ == all.take(hits@.len() as int),
            last_value(raw, index as int) == last_value(raw.take(hits@.len() as int), index as int),
        decreases hits@.len(),
    {
        let n = hits.len();
        assert(raw.take(n as int).drop_last() =~= raw.take(n - 1));
        let h = hits.pop().unwrap();
        assert(h == all[n - 1]);
        assert(hits@ =~= all.take(n - 1));
        if h.index == index {
            assert(raw.take(n as int).last() == raw[n - 1]);
            return Some(h.value);
        }
    }
    None
}


/// The place of the last hit at an index of Fromplace kind, or the default.
pub fn from_at(hits: &Vec<Hit>, index: usize, default: TailFrom, Ghost(defs): Ghost<Seq<FlagDef>>, Ghost(raw): Ghost<Seq<RawHit>>) -> (r: TailFrom)
    requires
        hits_agree(defs, hits@, raw),
        kind_at(defs, index as int) == ValueKind::From,
    ensures
        match last_value(raw, index as int) {
            None => r == default,
            Some(v) => tail_from_of(v) == Some(r),
        },
{
    let mut r: TailFrom = default;
    let mut k: usize = 0;
    while k < hits.len()
        invariant
            k <= hits@.len(),
            hits_agree(defs, hits@, raw),
            kind_at(defs, index as int) == ValueKind::From,
            match last_value(raw.take(k as int), index as int) {
                None => r == default,
                Some(v) => tail_from_of(v) == Some(r),
            },
        decreases hits@.len() - k,
    {
        assert(raw.take(k + 1).drop_last() =~= raw.take(k as int));
        if hits[k].index == index {
            match &hits[k].value {
                FlagValue::From(x) => {
                    r = *x;
                },
                _ => {},
            }
        }
        k = k + 1;
    }
    assert(raw.take(raw.len() as int) =~= raw);
    r
}

/// The mode of the last hit at an index of Modemode kind, or the default.
pub fn mode_at(hits: &Vec<Hit>, index: usize, default: WaitMode, Ghost(defs): Ghost<Seq<FlagDef>>, Ghost(raw): Ghost<Seq<RawHit>>) -> (r: WaitMode)
    requires
        hits_agree(defs, hits@, raw),
        kind_at(defs, index as int) == ValueKind::Mode,
    ensures
        match last_value(raw, index as int) {
            None => r == default,
            Some(v) => wait_mode_of(v) == Some(r),
        },
{
    let mut r: WaitMode = default;
    let mut k: usize = 0;
    while k < hits.len()
        invariant
            k <= hits@.len(),
            hits_agree(defs, hits@, raw),
            kind_at(defs, index as int) == ValueKind::Mode,
            match last_value(raw.take(k as int), index as int) {
                None => r == default,
                Some(v) => wait_mode_of(v) == Some(r),
            },
        decreases hits@.len() - k,
    {
        assert(raw.take(k + 1).drop_last() =~= raw.take(k as int));
        if hits[k].index == index {
            match &hits[k].value {
                FlagValue::Mode(x) => {
                    r = *x;
                },
                _ => {},
            }
        }
        k = k + 1;
    }
    assert(raw.take(raw.len() as int) =~= raw);
    r
}

/// The selector of the last hit at an index of Tabselector kind, or the default.
pub fn tab_at(hits: &Vec<Hit>, index: usize, default: TabSelector, Ghost(defs): Ghost<Seq<FlagDef>>, Ghost(raw): Ghost<Seq<RawHit>>) -> (r: TabSelector)
    requires
        hits_agree(defs, hits@, raw),
        kind_at(defs, index as int) == ValueKind::Tab,
    ensures
        match last_value(raw, index as int) {
            None => r == default,
            Some(v) => tab_of(v) == Some(r),
        },
{
    let mut r: TabSelector = default;
    let mut k: usize = 0;
    while k < hits.len()
        invariant
            k <= hits@.len(),
            hits_agree(defs, hits@, raw),
            kind_at(defs, index as int) == ValueKind::Tab,
            match last_value(raw.take(k as int), index as int) {
                None => r == default,
                Some(v) => tab_of(v) == Some(r),
            },
        decreases hits@.len() - k,
    {
        assert(raw.take(k + 1).drop_last() =~= raw.take(k as int));
        if hits[k].index == index {
            match &hits[k].value {
                FlagValue::Tab(x) => {
                    r = *x;
                },
                _ => {},
            }
        }
        k = k + 1;
    }
    assert(raw.take(raw.len() as int) =~= raw);
    r
}

/// The columns of the last hit at an index of columns kind.
pub fn columns_at(hits: &Vec<Hit>, index: usize, Ghost(defs): Ghost<Seq<FlagDef>>, Ghost(raw): Ghost<Seq<RawHit>>) -> (r: Option<Vec<String>>)
    requires
        hits_agree(defs, hits@, raw),
        kind_at(defs, index as int) == ValueKind::Columns,
    ensures
        match last_value(raw, index as int) {
            None => r is None,
            Some(v) => r matches Some(c) && strs(c@) == columns_of(split_char(v, ',')),
        },
{
    let mut r: Option<Vec<String>> = None;
    let mut k: usize = 0;
    while k < hits.len()
        invariant
            k <= hits@.len(),
            hits_agree(defs, hits@, raw),
            kind_at(defs, index as int) == ValueKind::Columns,
            match last_value(raw.take(k as int), index as int) {
                None => r is None,
                Some(v) => r matches Some(c) && strs(c@) == columns_of(split_char(v, ',')),
            },
        decreases hits@.len() - k,
    {
        assert(raw.take(k + 1).drop_last() =~= raw.take(k as int));
        if hits[k].index == index {
            match &hits[k].value {
                FlagValue::Columns(c) => {
                    r = Some(copy_all(c));
                },
                _ => {},
            }
        }
        k = k + 1;
    }
    assert(raw.take(raw.len() as int) =~= raw);
    r
}

fn copy_all(v: &Vec<String>) -> (r: Vec<String>)
    ensures
        r@ == v@,
{
    crate::util::copy_strings(v.as_slice(), 0, v.len())
}

/// The slot of the positional argument, as an index.
fn slot_index(pos: Positionals) -> (r: usize)
    ensures
        pos !is Forbidden ==> r as int == slot_of(pos),
        pos is Forbidden ==> r == usize::MAX,
{
    match pos {
        Positionals::Forbidden => usize::MAX,
        Positionals::NonDash(s) => s,
        Positionals::Any(s) => s,
    }
}

} // verus!
