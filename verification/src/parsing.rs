//! Parsers for command payloads and command-line values: the quoted-argument
//! tokenizer, JSON payloads, key specs, hex bytes, and the small value
//! grammars of flags.
use crate::error::{error_with, ApiError, ApiResult, ErrorCode};
use crate::text::{
    join, ascii_lower, ascii_lower_chars, chars_of, encode_char, eq_str, is_whitespace, is_ws,
    all_digits, digit_val, digits_value, is_digit, parse_unsigned, parse_unsigned_chars,
    strip_suffix, strip_suffix_chars, unsigned_body, slice_chars, split_char, split_chars,
    string_of, strip_prefix, strip_prefix_chars, strs, trim, trim_chars, upper, upper_char,
    replace_char, replace_chars, trim_start,
};
use crate::json::JsonValue;
use crate::types::{SpawnKind, SpawnWhere, TabSelector, TailFrom, WaitMode};
use vstd::prelude::*;
use vstd::utf8::encode_scalar;

verus! {

/// The tokens of a command payload, read from `s` onwards, where `quoted`
/// says whether a double-quoted section is open, `cur` is the token being
/// built and `toks` the tokens already complete. Outside quotes, whitespace
/// separates tokens and `"` opens a quoted section; inside, `"` closes it and
/// a backslash escapes a following `"` or backslash. `None` when a quoted
/// section is still open at the end.
pub open spec fn lex(s: Seq<char>, quoted: bool, cur: Seq<char>, toks: Seq<Seq<char>>) -> Option<
    Seq<Seq<char>>,
>
    decreases s.len(),
{
    if s.len() == 0 {
        if quoted {
            None
        } else if cur.len() > 0 {
            Some(toks.push(cur))
        } else {
            Some(toks)
        }
    } else {
        let c = s[0];
        if quoted {
            if c == '"' {
                lex(s.drop_first(), false, cur, toks)
            } else if c == '\\' && s.len() > 1 && (s[1] == '"' || s[1] == '\\') {
                lex(s.skip(2), true, cur.push(s[1]), toks)
            } else {
                lex(s.drop_first(), true, cur.push(c), toks)
            }
        } else if c == '"' {
            lex(s.drop_first(), true, cur, toks)
        } else if is_ws(c) {
            lex(s.drop_first(), false, Seq::empty(), if cur.len() > 0 { toks.push(cur) } else { toks })
        } else {
            lex(s.drop_first(), false, cur.push(c), toks)
        }
    }
}

/// The tokens of a command payload, or `None` for an unterminated quote.
pub open spec fn argv_of(s: Seq<char>) -> Option<Seq<Seq<char>>> {
    lex(s, false, Seq::empty(), Seq::empty())
}

/// A plain word: no whitespace and no double quote in it.
pub open spec fn plain(w: Seq<char>) -> bool {
    forall|i: int| 0 <= i < w.len() ==> !is_ws(#[trigger] w[i]) && w[i] != '"'
}

proof fn lemma_lex_word(w: Seq<char>, rest: Seq<char>, cur: Seq<char>, toks: Seq<Seq<char>>)
    requires
        plain(w),
    ensures
        lex(w + rest, false, cur, toks) == lex(rest, false, cur + w, toks),
    decreases w.len(),
{
    if w.len() == 0 {
        assert(w + rest =~= rest);
        assert(cur + w =~= cur);
    } else {
        let c = w[0];
        assert((w + rest)[0] == c);
        assert((w + rest).drop_first() =~= w.drop_first() + rest);
        assert(plain(w.drop_first())) by {
            assert forall|i: int| 0 <= i < w.drop_first().len() implies !is_ws(#[trigger] w.drop_first()[i])
                && w.drop_first()[i] != '"' by {
                assert(w.drop_first()[i] == w[i + 1]);
            }
        }
        lemma_lex_word(w.drop_first(), rest, cur.push(c), toks);
        assert(cur.push(c) + w.drop_first() =~= cur + w);
    }
}

/// Joining two or more parts puts the first in front of the rest, joined.
pub proof fn lemma_join_front(ws: Seq<Seq<char>>, sep: Seq<char>)
    requires
        ws.len() >= 2,
    ensures
        join(ws, sep) == ws[0] + sep + join(ws.drop_first(), sep),
    decreases ws.len(),
{
    if ws.len() == 2 {
        assert(ws.drop_last().len() == 1);
        assert(ws.drop_first().len() == 1);
        assert(join(ws.drop_last(), sep) == ws[0]);
        assert(join(ws.drop_first(), sep) == ws[1]);
    } else {
        lemma_join_front(ws.drop_last(), sep);
        assert(ws.drop_last().drop_first() =~= ws.drop_first().drop_last());
        assert(ws.drop_first().last() == ws.last());
        assert(ws.drop_last()[0] == ws[0]);
        assert(join(ws, sep) =~= ws[0] + sep + join(ws.drop_first(), sep));
    }
}

proof fn lemma_lex_words(words: Seq<Seq<char>>, toks: Seq<Seq<char>>)
    requires
        forall|i: int| 0 <= i < words.len() ==> (#[trigger] words[i]).len() > 0 && plain(words[i]),
    ensures
        lex(join(words, " "@), false, Seq::empty(), toks) == Some(toks + words),
    decreases words.len(),
{
    reveal_strlit(" ");
    if words.len() == 0 {
        assert(toks + words =~= toks);
    } else if words.len() == 1 {
        let w = words[0];
        assert(w + Seq::<char>::empty() =~= w);
        lemma_lex_word(w, Seq::empty(), Seq::empty(), toks);
        assert(Seq::<char>::empty() + w =~= w);
        assert(toks.push(w) =~= toks + words);
    } else {
        let w = words[0];
        let rest = words.drop_first();
        lemma_join_front(words, " "@);
        let j = join(rest, " "@);
        assert(w + " "@ + j =~= w + (" "@ + j));
        lemma_lex_word(w, " "@ + j, Seq::empty(), toks);
        assert(Seq::<char>::empty() + w =~= w);
        assert((" "@ + j)[0] == ' ');
        assert((" "@ + j).drop_first() =~= j);
        assert forall|i: int| 0 <= i < rest.len() implies (#[trigger] rest[i]).len() > 0 && plain(rest[i]) by {
            assert(rest[i] == words[i + 1]);
        }
        lemma_lex_words(rest, toks.push(w));
        assert(toks.push(w) + rest =~= toks + words);
    }
}

/// Words without whitespace or quotes, joined by spaces, split back into
/// the same words.
pub proof fn tokenizer_splits_joined_words(words: Seq<Seq<char>>)
    requires
        forall|i: int| 0 <= i < words.len() ==> (#[trigger] words[i]).len() > 0 && plain(words[i]),
    ensures
        argv_of(join(words, " "@)) == Some(words),
{
    lemma_lex_words(words, Seq::empty());
    assert(Seq::<Seq<char>>::empty() + words =~= words);
}

/// Splits a command payload into arguments, honouring double quotes.
pub fn parse_argv(input: &str) -> (r: ApiResult<Vec<String>>)
    ensures
        r matches Ok(v) ==> argv_of(input@) == Some(strs(v@)),
        r matches Err(e) ==> argv_of(input@) is None && e.code == ErrorCode::InvalidArgs,
{
    let s = chars_of(input);
    let mut tokens: Vec<String> = Vec::new();
    let mut current: Vec<char> = Vec::new();
    let mut in_quotes = false;
    let mut i: usize = 0;
    assert(s@.skip(0) =~= s@);
    assert(strs(tokens@) =~= Seq::<Seq<char>>::empty());
    assert(current@ =~= Seq::<char>::empty());
    while i < s.len()
        invariant
            i <= s@.len(),
            s@ == input@,
            argv_of(input@) == lex(s@.skip(i as int), in_quotes, current@, strs(tokens@)),
        decreases s@.len() - i,
    {
        let ch = s[i];
        let ghost rest = s@.skip(i as int);
        assert(rest[0] == ch);
        assert(rest.drop_first() =~= s@.skip(i + 1));
        if in_quotes {
            if ch == '"' {
                in_quotes = false;
                i = i + 1;
            } else if ch == '\\' && i + 1 < s.len() && (s[i + 1] == '"' || s[i + 1] == '\\') {
                assert(rest[1] == s@[i + 1]);
                assert(rest.skip(2) =~= s@.skip(i + 2));
                current.push(s[i + 1]);
                i = i + 2;
            } else {
                current.push(ch);
                i = i + 1;
            }
        } else if ch == '"' {
            in_quotes = true;
            i = i + 1;
        } else if is_whitespace(ch) {
            if current.len() > 0 {
                let tok = string_of(&current);
                let ghost old_t = tokens@;
                tokens.push(tok);
                assert(strs(tokens@) =~= strs(old_t).push(current@));
            }
            current = Vec::new();
            i = i + 1;
        } else {
            current.push(ch);
            i = i + 1;
        }
    }
    if in_quotes {
        return Err(
            ApiError::with_text(
                ErrorCode::InvalidArgs,
                "Unterminated quoted string in command payload",
            ),
        );
    }
    assert(s@.skip(i as int) =~= Seq::<char>::empty());
    if current.len() > 0 {
        let tok = string_of(&current);
        let ghost old_t = tokens@;
        tokens.push(tok);
        assert(strs(tokens@) =~= strs(old_t).push(current@));
    }
    Ok(tokens)
}


/// The bytes one `<...>` key token stands for: the named keys `Enter`,
/// `Tab`, `Esc` and `Backspace`, `C-x` for the control code of an ASCII
/// character, `A-x` for escape followed by the character. `None` for any
/// other token.
pub open spec fn key_token_bytes(token: Seq<char>) -> Option<Seq<u8>> {
    let t = trim(token);
    if t == "Enter"@ {
        Some(seq![0x0au8])
    } else if t == "Tab"@ {
        Some(seq![0x09u8])
    } else if t == "Esc"@ {
        Some(seq![0x1bu8])
    } else if t == "Backspace"@ {
        Some(seq![0x7fu8])
    } else {
        match strip_prefix(t, "C-"@) {
            Some(r) => if r.len() == 0 || (r[0] as u32) >= 128 {
                None
            } else {
                Some(seq![((upper(r[0]) as u32) & 0x1f) as u8])
            },
            None => match strip_prefix(t, "A-"@) {
                Some(r) => if r.len() == 0 {
                    None
                } else {
                    Some(seq![0x1bu8] + encode_scalar(r[0] as u32))
                },
                None => None,
            },
        }
    }
}

/// Appends the bytes of one key token.
pub fn append_key_token(output: &mut Vec<u8>, token: &[char]) -> (r: ApiResult<()>)
    ensures
        match key_token_bytes(token@) {
            Some(b) => r is Ok && final(output)@ == old(output)@ + b,
            None => r matches Err(e) && e.code == ErrorCode::InvalidKeys && final(output)@ == old(output)@,
        },
{
    let t = trim_chars(token);
    if eq_str(&t, "Enter") {
        output.push(0x0a);
    } else if eq_str(&t, "Tab") {
        output.push(0x09);
    } else if eq_str(&t, "Esc") {
        output.push(0x1b);
    } else if eq_str(&t, "Backspace") {
        output.push(0x7f);
    } else {
        match strip_prefix_chars(&t, "C-") {
            Some(rest) => {
                if rest.len() == 0 {
                    return Err(token_error("Invalid token <", token));
                }
                let ch = rest[0];
                if (ch as u32) >= 128 {
                    return Err(token_error("Ctrl token must be ASCII: <", token));
                }
                let up = upper_char(ch);
                let b = ((up as u32) & 0x1f) as u8;
                output.push(b);
                return Ok(());
            },
            None => {},
        }
        match strip_prefix_chars(&t, "A-") {
            Some(rest) => {
                if rest.len() == 0 {
                    return Err(token_error("Invalid token <", token));
                }
                output.push(0x1b);
                let enc = encode_char(rest[0]);
                let ghost before = output@;
                let mut k: usize = 0;
                while k < enc.len()
                    invariant
                        k <= enc@.len(),
                        output@ == before + enc@.take(k as int),
                    decreases enc@.len() - k,
                {
                    output.push(enc[k]);
                    k = k + 1;
                    assert(output@ =~= before + enc@.take(k as int));
                }
                assert(enc@.take(enc@.len() as int) =~= enc@);
                assert(output@ =~= old(output)@ + (seq![0x1bu8] + encode_scalar(rest@[0] as u32)));
                return Ok(());
            },
            None => {},
        }
        return Err(token_error("Unsupported key token <", token));
    }
    Ok(())
}

/// A key-spec error that names the token in angle brackets.
fn token_error(prefix: &str, token: &[char]) -> (r: ApiError)
    ensures
        r.code == ErrorCode::InvalidKeys,
{
    let mut m = String::from_str(prefix);
    let t = string_of(token);
    m.append(t.as_str());
    m.append(">");
    ApiError::new(ErrorCode::InvalidKeys, m)
}

/// Index of the first `c` in `s` at or after `i`, or the length of `s`.
pub open spec fn find_from(s: Seq<char>, c: char, i: int) -> int
    decreases s.len() - i,
{
    if i >= s.len() {
        s.len() as int
    } else if s[i] == c {
        i
    } else {
        find_from(s, c, i + 1)
    }
}

proof fn lemma_find_from(s: Seq<char>, c: char, i: int, j: int)
    requires
        0 <= i <= j <= s.len(),
        forall|k: int| i <= k < j ==> s[k] != c,
        j == s.len() || s[j] == c,
    ensures
        find_from(s, c, i) == j,
    decreases j - i,
{
    if i < j {
        lemma_find_from(s, c, i + 1, j);
    }
}

proof fn lemma_find_from_bounds(s: Seq<char>, c: char, i: int)
    requires
        0 <= i <= s.len(),
    ensures
        i <= find_from(s, c, i) <= s.len(),
    decreases s.len() - i,
{
    if i < s.len() && s[i] != c {
        lemma_find_from_bounds(s, c, i + 1);
    }
}

proof fn lemma_find_from_skip(s: Seq<char>, c: char, i: int, j: int)
    requires
        0 <= i <= j <= s.len(),
        forall|k: int| i <= k < j ==> s[k] != c,
    ensures
        find_from(s, c, i) == find_from(s, c, j),
    decreases j - i,
{
    if i < j {
        lemma_find_from_skip(s, c, i + 1, j);
    }
}

/// The bytes a `--keys` value stands for: each `<...>` token is read by
/// `key_token_bytes`, every other character stands for its UTF-8 encoding.
/// `None` when a token is unterminated or unknown.
pub open spec fn key_spec_bytes(s: Seq<char>) -> Option<Seq<u8>>
    decreases s.len(),
{
    if s.len() == 0 {
        Some(Seq::empty())
    } else if s[0] == '<' {
        let j = find_from(s, '>', 1);
        if j >= s.len() || j < 1 {
            None
        } else {
            match key_token_bytes(s.subrange(1, j)) {
                None => None,
                Some(b) => match key_spec_bytes(s.skip(j + 1)) {
                    Some(rest) => Some(b + rest),
                    None => None,
                },
            }
        }
    } else {
        match key_spec_bytes(s.drop_first()) {
            Some(rest) => Some(encode_scalar(s[0] as u32) + rest),
            None => None,
        }
    }
}

/// Translates a `--keys` value into the bytes to write.
pub fn parse_key_spec(spec: &str) -> (r: ApiResult<Vec<u8>>)
    ensures
        match key_spec_bytes(spec@) {
            Some(b) => r matches Ok(v) && v@ == b,
            None => r matches Err(e) && e.code == ErrorCode::InvalidKeys,
        },
{
    let chars = chars_of(spec);
    let n = chars.len();
    let mut output: Vec<u8> = Vec::new();
    let mut i: usize = 0;
    assert(chars@.skip(0) =~= chars@);
    assert(output@ + Seq::<u8>::empty() =~= output@);
    while i < n
        invariant
            i <= n,
            n == chars@.len(),
            chars@ == spec@,
            key_spec_bytes(spec@) == match key_spec_bytes(chars@.skip(i as int)) {
                Some(rest) => Some(output@ + rest),
                None => None::<Seq<u8>>,
            },
        decreases n - i,
    {
        let ghost rest = chars@.skip(i as int);
        if chars[i] == '<' {
            let mut j: usize = i + 1;
            while j < n && chars[j] != '>'
                invariant
                    i < j <= n,
                    n == chars@.len(),
                    forall|k: int| i + 1 <= k < j ==> chars@[k] != '>',
                decreases n - j,
            {
                j = j + 1;
            }
            proof {
                assert forall|k: int| 1 <= k < j - i implies rest[k] != '>' by {
                    assert(rest[k] == chars@[k + i]);
                }
                if j < n {
                    assert(rest[j - i] == chars@[j as int]);
                }
                lemma_find_from(rest, '>', 1, (j - i) as int);
            }
            if j >= n {
                return Err(
                    ApiError::with_text(ErrorCode::InvalidKeys, "Unterminated key token in --keys"),
                );
            }
            let token = slice_chars(&chars, i + 1, j);
            assert(token@ =~= rest.subrange(1, (j - i) as int));
            let ghost before = output@;
            let res = append_key_token(&mut output, &token);
            if res.is_err() {
                return Err(res.unwrap_err());
            }
            assert(rest.skip((j - i) + 1) =~= chars@.skip(j + 1));
            i = j + 1;
            proof {
                let b = key_token_bytes(token@).unwrap();
                match key_spec_bytes(chars@.skip(i as int)) {
                    Some(r2) => {
                        assert(before + (b + r2) =~= output@ + r2);
                    },
                    None => {},
                }
            }
        } else {
            let enc = encode_char(chars[i]);
            let ghost before = output@;
            let mut k: usize = 0;
            while k < enc.len()
                invariant
                    k <= enc@.len(),
                    output@ == before + enc@.take(k as int),
                decreases enc@.len() - k,
            {
                output.push(enc[k]);
                k = k + 1;
                assert(output@ =~= before + enc@.take(k as int));
            }
            assert(enc@.take(enc@.len() as int) =~= enc@);
            assert(rest.drop_first() =~= chars@.skip(i + 1));
            i = i + 1;
            proof {
                match key_spec_bytes(chars@.skip(i as int)) {
                    Some(r2) => {
                        assert(before + (enc@ + r2) =~= output@ + r2);
                    },
                    None => {},
                }
            }
        }
    }
    assert(chars@.skip(n as int) =~= Seq::<char>::empty());
    assert(output@ + Seq::<u8>::empty() =~= output@);
    Ok(output)
}


pub open spec fn is_hex(c: char) -> bool {
    ('0' <= c <= '9') || ('a' <= c <= 'f') || ('A' <= c <= 'F')
}

pub open spec fn hex_val(c: char) -> int {
    if '0' <= c <= '9' {
        c as u32 - '0' as u32
    } else if 'a' <= c <= 'f' {
        c as u32 - 'a' as u32 + 10
    } else {
        c as u32 - 'A' as u32 + 10
    }
}

/// The hex digits of `s`, in order, with everything else left out.
pub open spec fn hex_digits(s: Seq<char>) -> Seq<char>
    decreases s.len(),
{
    if s.len() == 0 {
        Seq::empty()
    } else if is_hex(s.last()) {
        hex_digits(s.drop_last()).push(s.last())
    } else {
        hex_digits(s.drop_last())
    }
}

/// The bytes that consecutive pairs of hex digits stand for.
pub open spec fn hex_pairs(h: Seq<char>) -> Seq<u8> {
    Seq::new(h.len() / 2, |i: int| (hex_val(h[2 * i]) * 16 + hex_val(h[2 * i + 1])) as u8)
}

/// What a `--raw-bytes` value stands for: its hex digits, read in pairs;
/// `None` when there is an odd number of them.
pub open spec fn hex_bytes(s: Seq<char>) -> Option<Seq<u8>> {
    let h = hex_digits(s);
    if h.len() % 2 != 0 {
        None
    } else {
        Some(hex_pairs(h))
    }
}

fn hex_digit_value(c: char) -> (r: u8)
    requires
        is_hex(c),
    ensures
        r as int == hex_val(c),
        r < 16,
{
    if '0' <= c && c <= '9' {
        (c as u32 - '0' as u32) as u8
    } else if 'a' <= c && c <= 'f' {
        (c as u32 - 'a' as u32 + 10) as u8
    } else {
        (c as u32 - 'A' as u32 + 10) as u8
    }
}

/// Reads a `--raw-bytes` value: hex digits, ignoring everything else.
pub fn parse_hex_bytes(value: &str) -> (r: ApiResult<Vec<u8>>)
    ensures
        match hex_bytes(value@) {
            Some(b) => r matches Ok(v) && v@ == b,
            None => r matches Err(e) && e.code == ErrorCode::InvalidArgs,
        },
{
    let chars = chars_of(value);
    let mut compact: Vec<char> = Vec::new();
    let mut i: usize = 0;
    while i < chars.len()
        invariant
            i <= chars@.len(),
            compact@ == hex_digits(chars@.take(i as int)),
        decreases chars@.len() - i,
    {
        let c = chars[i];
        assert(chars@.take(i + 1).drop_last() =~= chars@.take(i as int));
        if ('0' <= c && c <= '9') || ('a' <= c && c <= 'f') || ('A' <= c && c <= 'F') {
            compact.push(c);
        }
        i = i + 1;
    }
    assert(chars@.take(chars@.len() as int) =~= chars@);
    assert(chars@ == value@);
    let ghost h = compact@;
    assert forall|k: int| 0 <= k < h.len() implies is_hex(#[trigger] h[k]) by {
        lemma_hex_digits_are_hex(value@, k);
    }
    if compact.len() % 2 != 0 {
        return Err(
            ApiError::with_text(
                ErrorCode::InvalidArgs,
                "--raw-bytes must contain an even number of hex digits",
            ),
        );
    }
    let mut bytes: Vec<u8> = Vec::new();
    let mut j: usize = 0;
    while j < compact.len()
        invariant
            j <= compact@.len(),
            j % 2 == 0,
            compact@.len() % 2 == 0,
            h == compact@,
            forall|k: int| 0 <= k < h.len() ==> is_hex(#[trigger] h[k]),
            bytes@ =~= hex_pairs(h).take((j / 2) as int),
        decreases compact@.len() - j,
    {
        let hi = hex_digit_value(compact[j]);
        let lo = hex_digit_value(compact[j + 1]);
        bytes.push(hi * 16 + lo);
        assert(2 * (j as int / 2) == j);
        j = j + 2;
        assert(bytes@ =~= hex_pairs(h).take((j / 2) as int));
    }
    assert(hex_pairs(h).take((h.len() / 2) as int) =~= hex_pairs(h));
    Ok(bytes)
}

proof fn lemma_hex_digits_are_hex(s: Seq<char>, k: int)
    requires
        0 <= k < hex_digits(s).len(),
    ensures
        is_hex(hex_digits(s)[k]),
    decreases s.len(),
{
    if s.len() > 0 {
        if is_hex(s.last()) {
            if k < hex_digits(s.drop_last()).len() {
                lemma_hex_digits_are_hex(s.drop_last(), k);
            }
        } else {
            lemma_hex_digits_are_hex(s.drop_last(), k);
        }
    }
}


/// Whether a configuration value turns an option on: `1`, `true`, `yes` or
/// `on`, ignoring case and surrounding whitespace.
pub open spec fn truthy(s: Seq<char>) -> bool {
    let v = ascii_lower(trim(s));
    v == "1"@ || v == "true"@ || v == "yes"@ || v == "on"@
}

pub fn parse_bool(value: Option<&str>) -> (r: bool)
    ensures
        r == match value {
            Some(s) => truthy(s@),
            None => false,
        },
{
    match value {
        None => false,
        Some(s) => {
            let c = chars_of(s);
            let t = trim_chars(&c);
            let v = ascii_lower_chars(&t);
            eq_str(&v, "1") || eq_str(&v, "true") || eq_str(&v, "yes") || eq_str(&v, "on")
        },
    }
}

/// Reads a non-negative integer flag value, ignoring surrounding whitespace.
pub fn parse_usize_literal(value: &str, flag: &str) -> (r: ApiResult<usize>)
    ensures
        match parse_unsigned(trim(value@), usize::MAX as nat) {
            Some(n) => r == Ok::<usize, ApiError>(n as usize),
            None => r matches Err(e) && e.code == ErrorCode::InvalidArgs && e.message@
                == "Invalid integer value for "@ + flag@ + ": "@ + value@,
        },
{
    let c = chars_of(value);
    let t = trim_chars(&c);
    match parse_unsigned_chars(&t, usize::MAX) {
        Some(n) => Ok(n),
        None => {
            let mut m = String::from_str("Invalid integer value for ");
            m.append(flag);
            m.append(": ");
            m.append(value);
            Err(ApiError::new(ErrorCode::InvalidArgs, m))
        },
    }
}

/// Reads the value that follows a flag; a missing value is an error.
pub fn parse_usize_arg(value: Option<&String>, flag: &str) -> (r: ApiResult<usize>)
    ensures
        match value {
            None => r matches Err(e) && e.code == ErrorCode::InvalidArgs && e.message@
                == "Missing value for "@ + flag@,
            Some(v) => match parse_unsigned(trim(v@), usize::MAX as nat) {
                Some(n) => r == Ok::<usize, ApiError>(n as usize),
                None => r matches Err(e) && e.code == ErrorCode::InvalidArgs,
            },
        },
{
    match value {
        None => Err(error_with(ErrorCode::InvalidArgs, "Missing value for ", flag)),
        Some(v) => parse_usize_literal(v.as_str(), flag),
    }
}

/// Reads a `--tab` value: `focused`, `all`, or a tab position.
pub fn parse_tab_selector(value: &str) -> (r: ApiResult<TabSelector>)
    ensures
        value@ == "focused"@ ==> r == Ok::<TabSelector, ApiError>(TabSelector::Focused),
        value@ != "focused"@ && value@ == "all"@ ==> r == Ok::<TabSelector, ApiError>(
            TabSelector::All,
        ),
        value@ != "focused"@ && value@ != "all"@ ==> match parse_unsigned(
            trim(value@),
            usize::MAX as nat,
        ) {
            Some(n) => r == Ok::<TabSelector, ApiError>(TabSelector::Index(n as usize)),
            None => r matches Err(e) && e.code == ErrorCode::InvalidArgs,
        },
{
    let c = chars_of(value);
    if eq_str(&c, "focused") {
        Ok(TabSelector::Focused)
    } else if eq_str(&c, "all") {
        Ok(TabSelector::All)
    } else {
        let n = parse_usize_literal(value, "--tab")?;
        Ok(TabSelector::Index(n))
    }
}

/// The column names of a `--columns` value: its comma-separated pieces,
/// trimmed, without the empty ones.
pub open spec fn columns_of(parts: Seq<Seq<char>>) -> Seq<Seq<char>>
    decreases parts.len(),
{
    if parts.len() == 0 {
        Seq::empty()
    } else {
        let rest = columns_of(parts.drop_last());
        let t = trim(parts.last());
        if t.len() > 0 {
            rest.push(t)
        } else {
            rest
        }
    }
}

/// The columns of a `--columns` value are never empty and carry no
/// surrounding whitespace.
pub proof fn columns_are_trimmed_and_not_empty(parts: Seq<Seq<char>>)
    ensures
        forall|i: int|
            0 <= i < columns_of(parts).len() ==> (#[trigger] columns_of(parts)[i]).len() > 0
                && trim(columns_of(parts)[i]) == columns_of(parts)[i],
    decreases parts.len(),
{
    if parts.len() > 0 {
        columns_are_trimmed_and_not_empty(parts.drop_last());
        crate::text::lemma_trim_idempotent(parts.last());
        let rest = columns_of(parts.drop_last());
        let all = columns_of(parts);
        assert forall|i: int| 0 <= i < all.len() implies (#[trigger] all[i]).len() > 0 && trim(all[i])
            == all[i] by {
            if i < rest.len() {
                assert(all[i] == rest[i]);
            }
        }
    }
}

pub fn parse_columns(value: &str) -> (r: Vec<String>)
    ensures
        strs(r@) == columns_of(split_char(value@, ',')),
{
    let c = chars_of(value);
    let parts = split_chars(&c, ',');
    let ghost sp = split_char(value@, ',');
    let mut out: Vec<String> = Vec::new();
    let mut i: usize = 0;
    while i < parts.len()
        invariant
            i <= parts@.len(),
            parts@.len() == sp.len(),
            forall|k: int| 0 <= k < parts@.len() ==> (#[trigger] parts@[k])@ == sp[k],
            strs(out@) == columns_of(sp.take(i as int)),
        decreases parts@.len() - i,
    {
        assert(sp.take(i + 1).drop_last() =~= sp.take(i as int));
        let t = trim_chars(&parts[i]);
        if t.len() > 0 {
            let ghost before = out@;
            out.push(string_of(&t));
            assert(strs(out@) =~= strs(before).push(t@));
        }
        i = i + 1;
    }
    assert(sp.take(sp.len() as int) =~= sp);
    out
}

pub fn parse_tail_from(value: &str) -> (r: ApiResult<TailFrom>)
    ensures
        r matches Ok(f) ==> (f == TailFrom::End && value@ == "end"@) || (f == TailFrom::Viewport
            && value@ == "viewport"@) || (f == TailFrom::Top && value@ == "top"@),
        r matches Err(e) ==> e.code == ErrorCode::InvalidArgs && value@ != "end"@ && value@
            != "viewport"@ && value@ != "top"@,
{
    let c = chars_of(value);
    if eq_str(&c, "end") {
        Ok(TailFrom::End)
    } else if eq_str(&c, "viewport") {
        Ok(TailFrom::Viewport)
    } else if eq_str(&c, "top") {
        Ok(TailFrom::Top)
    } else {
        Err(error_with(ErrorCode::InvalidArgs, "Invalid --from value: ", value))
    }
}

pub fn parse_wait_mode(value: &str) -> (r: ApiResult<WaitMode>)
    ensures
        r matches Ok(m) ==> (m == WaitMode::Any && value@ == "any"@) || (m == WaitMode::All
            && value@ == "all"@),
        r matches Err(e) ==> e.code == ErrorCode::InvalidArgs && value@ != "any"@ && value@
            != "all"@,
{
    let c = chars_of(value);
    if eq_str(&c, "any") {
        Ok(WaitMode::Any)
    } else if eq_str(&c, "all") {
        Ok(WaitMode::All)
    } else {
        Err(error_with(ErrorCode::InvalidArgs, "Invalid --mode value: ", value))
    }
}

pub fn parse_spawn_kind(value: &str) -> (r: ApiResult<SpawnKind>)
    ensures
        r matches Ok(k) ==> (k == SpawnKind::Terminal && value@ == "terminal"@) || (k
            == SpawnKind::Command && value@ == "command"@),
        r matches Err(e) ==> e.code == ErrorCode::InvalidArgs && value@ != "terminal"@ && value@
            != "command"@,
{
    let c = chars_of(value);
    if eq_str(&c, "terminal") {
        Ok(SpawnKind::Terminal)
    } else if eq_str(&c, "command") {
        Ok(SpawnKind::Command)
    } else {
        Err(error_with(ErrorCode::InvalidArgs, "Invalid --kind value: ", value))
    }
}

pub fn parse_spawn_where(value: &str) -> (r: ApiResult<SpawnWhere>)
    ensures
        r matches Ok(w) ==> (w == SpawnWhere::Tiled && value@ == "tiled"@) || (w
            == SpawnWhere::Floating && value@ == "floating"@) || (w == SpawnWhere::NearPlugin
            && value@ == "near-plugin"@) || (w == SpawnWhere::InPlace && value@ == "in-place"@)
            || (w == SpawnWhere::Background && value@ == "background"@),
        r matches Err(e) ==> e.code == ErrorCode::InvalidArgs && value@ != "tiled"@ && value@
            != "floating"@ && value@ != "near-plugin"@ && value@ != "in-place"@ && value@
            != "background"@,
{
    let c = chars_of(value);
    if eq_str(&c, "tiled") {
        Ok(SpawnWhere::Tiled)
    } else if eq_str(&c, "floating") {
        Ok(SpawnWhere::Floating)
    } else if eq_str(&c, "near-plugin") {
        Ok(SpawnWhere::NearPlugin)
    } else if eq_str(&c, "in-place") {
        Ok(SpawnWhere::InPlace)
    } else if eq_str(&c, "background") {
        Ok(SpawnWhere::Background)
    } else {
        Err(error_with(ErrorCode::InvalidArgs, "Invalid --where value: ", value))
    }
}

/// The two sides of the first `c` in `s`, as `str::split_once` gives them.
pub open spec fn split_once(s: Seq<char>, c: char) -> Option<(Seq<char>, Seq<char>)> {
    let j = find_from(s, c, 0);
    if j < s.len() {
        Some((s.take(j), s.skip(j + 1)))
    } else {
        None
    }
}

fn split_once_chars(s: &[char], c: char) -> (r: Option<(Vec<char>, Vec<char>)>)
    ensures
        match split_once(s@, c) {
            Some((a, b)) => r matches Some((x, y)) && x@ == a && y@ == b,
            None => r is None,
        },
{
    let mut j: usize = 0;
    while j < s.len() && s[j] != c
        invariant
            j <= s@.len(),
            forall|k: int| 0 <= k < j ==> s@[k] != c,
        decreases s@.len() - j,
    {
        j = j + 1;
    }
    proof {
        lemma_find_from(s@, c, 0, j as int);
    }
    if j < s.len() {
        Some((slice_chars(s, 0, j), slice_chars(s, j + 1, s.len())))
    } else {
        None
    }
}

/// Reads a `KEY=VAL` pair, splitting at the first `=`.
pub fn parse_env_pair(value: &str) -> (r: ApiResult<(String, String)>)
    ensures
        match split_once(value@, '=') {
            Some((k, v)) => r matches Ok((a, b)) && a@ == k && b@ == v,
            None => r matches Err(e) && e.code == ErrorCode::InvalidArgs,
        },
{
    let c = chars_of(value);
    match split_once_chars(&c, '=') {
        Some((k, v)) => Ok((string_of(&k), string_of(&v))),
        None => Err(
            error_with(ErrorCode::InvalidArgs, "Invalid env pair, expected KEY=VAL: ", value),
        ),
    }
}

/// Reads a `KEY=VAL` pair for `exec --env`, splitting at the first `=`.
pub fn parse_env_pair_str(s: &str) -> (r: Result<(String, String), String>)
    ensures
        match split_once(s@, '=') {
            Some((k, v)) => r matches Ok((a, b)) && a@ == k && b@ == v,
            None => r matches Err(m) && m@ == "Invalid env pair, expected KEY=VAL: "@ + s@,
        },
{
    let c = chars_of(s);
    match split_once_chars(&c, '=') {
        Some((k, v)) => Ok((string_of(&k), string_of(&v))),
        None => {
            let mut m = String::from_str("Invalid env pair, expected KEY=VAL: ");
            m.append(s);
            Err(m)
        },
    }
}

/// The value of an `--option=value` argument, if `arg` has that form.
pub fn opt_value(arg: &str, option: &str) -> (r: Option<String>)
    ensures
        match strip_prefix(arg@, option@.push('=')) {
            Some(v) => r matches Some(x) && x@ == v,
            None => r is None,
        },
{
    let a = chars_of(arg);
    let mut p = chars_of(option);
    p.push('=');
    let ps = string_of(&p);
    match strip_prefix_chars(&a, ps.as_str()) {
        Some(v) => Some(string_of(&v)),
        None => None,
    }
}


/// A length of time in nanoseconds.
pub type Nanos = u128;

/// The longest duration there is: `Duration::MAX`, in nanoseconds.
pub const MAX_DURATION_NANOS: u128 = 18_446_744_073_709_551_615_999_999_999u128;

pub open spec fn pow10(n: nat) -> nat
    decreases n,
{
    if n == 0 {
        1
    } else {
        10 * pow10((n - 1) as nat)
    }
}

/// The whole and fractional digits of a decimal number: an optional `+`,
/// digits, and optionally a `.` followed by digits, with at least one digit
/// in all.
pub open spec fn decimal_parts(s: Seq<char>) -> Option<(Seq<char>, Seq<char>)> {
    let b = unsigned_body(s);
    let dot = find_from(b, '.', 0);
    let ip = b.take(dot);
    let fp = if dot < b.len() { b.skip(dot + 1) } else { Seq::<char>::empty() };
    if all_digits(ip) && all_digits(fp) && ip.len() + fp.len() > 0 {
        Some((ip, fp))
    } else {
        None
    }
}

/// The first nine fractional digits, as billionths.
pub open spec fn frac_billionths(fp: Seq<char>) -> nat {
    let m = if fp.len() < 9 { fp.len() } else { 9 };
    digits_value(fp.take(m as int)) * pow10((9 - m) as nat)
}

/// Whole digits `ip` and fractional digits `fp` of `unit`-nanosecond
/// units, in whole nanoseconds (rounded down), if no longer than
/// `Duration::MAX`.
pub open spec fn parts_nanos(ip: Seq<char>, fp: Seq<char>, unit: nat) -> Option<nat> {
    let ns = digits_value(ip) * unit + frac_billionths(fp) * unit / 1_000_000_000;
    if ns <= MAX_DURATION_NANOS {
        Some(ns)
    } else {
        None
    }
}

/// A decimal number of `unit`-nanosecond units, in whole nanoseconds
/// (rounded down), if it is no longer than `Duration::MAX`.
pub open spec fn decimal_nanos(s: Seq<char>, unit: nat) -> Option<nat> {
    match decimal_parts(trim(s)) {
        Some((ip, fp)) => parts_nanos(ip, fp, unit),
        None => None,
    }
}

/// `n` zero digits.
pub open spec fn zeros(n: nat) -> Seq<char> {
    Seq::new(n, |i: int| '0')
}

/// Where the exponent of a number starts: its first `e` or `E` from `i`
/// on, or its end.
pub open spec fn exp_mark(t: Seq<char>, i: int) -> int
    decreases t.len() - i,
{
    if i >= t.len() {
        t.len() as int
    } else if t[i] == 'e' || t[i] == 'E' {
        i
    } else {
        exp_mark(t, i + 1)
    }
}

/// An exponent: an optional sign, then digits.
pub open spec fn exponent_of(x: Seq<char>) -> Option<int> {
    let signed = x.len() > 0 && (x[0] == '+' || x[0] == '-');
    let d = if signed {
        x.drop_first()
    } else {
        x
    };
    if d.len() > 0 && all_digits(d) {
        Some(
            if signed && x[0] == '-' {
                -(digits_value(d) as int)
            } else {
                digits_value(d) as int
            },
        )
    } else {
        None
    }
}

/// The digits `ip`.`fp` with the point moved `e` places to the right (left
/// when `e` is negative), padded with zeros.
pub open spec fn shift_point(ip: Seq<char>, fp: Seq<char>, e: int) -> (Seq<char>, Seq<char>) {
    let d = ip + fp;
    let pos = ip.len() + e;
    if pos <= 0 {
        (Seq::<char>::empty(), zeros((-pos) as nat) + d)
    } else if pos >= d.len() {
        (d + zeros((pos - d.len()) as nat), Seq::<char>::empty())
    } else {
        (d.take(pos), d.skip(pos))
    }
}

/// A number as the float parser reads it, without a sign: a decimal
/// number, then optionally `e` or `E` and an exponent of ten; in whole
/// nanoseconds of `unit`-nanosecond units, if no longer than
/// `Duration::MAX`.
pub open spec fn number_nanos(s: Seq<char>, unit: nat) -> Option<nat> {
    let t = trim(s);
    let k = exp_mark(t, 0);
    if k >= t.len() {
        decimal_nanos(t, unit)
    } else {
        match (decimal_parts(t.take(k)), exponent_of(t.skip(k + 1))) {
            (Some((ip, fp)), Some(e)) => {
                let (a, b) = shift_point(ip, fp, e);
                parts_nanos(a, b, unit)
            },
            _ => None,
        }
    }
}

/// What a duration value stands for: a number of milliseconds with an `ms`
/// suffix, or of seconds with an `s` suffix or none.
pub open spec fn duration_nanos(value: Seq<char>) -> Option<nat> {
    let v = trim(value);
    match strip_suffix(v, "ms"@) {
        Some(n) => number_nanos(n, 1_000_000),
        None => match strip_suffix(v, "s"@) {
            Some(n) => number_nanos(n, 1_000_000_000),
            None => number_nanos(v, 1_000_000_000),
        },
    }
}

const WHOLE_LIMIT: u128 = 100_000_000_000_000_000_000_000u128;

proof fn lemma_digits_value_bound(s: Seq<char>)
    requires
        all_digits(s),
    ensures
        digits_value(s) < pow10(s.len()),
    decreases s.len(),
{
    if s.len() > 0 {
        let t = s.drop_last();
        assert(all_digits(t)) by {
            assert forall|k: int| 0 <= k < t.len() implies is_digit(#[trigger] t[k]) by {
                assert(t[k] == s[k]);
            }
        }
        lemma_digits_value_bound(t);
        assert(is_digit(s[s.len() - 1]));
        let a = digits_value(t);
        let d = digit_val(s.last());
        let p = pow10(t.len());
        assert(pow10(s.len()) == 10 * p);
        assert(a * 10 + d < 10 * p) by (nonlinear_arith)
            requires
                a < p,
                d <= 9,
        ;
    }
}

proof fn lemma_all_digits_sub(s: Seq<char>, a: int, b: int)
    requires
        0 <= a <= b <= s.len(),
        all_digits(s),
    ensures
        all_digits(s.subrange(a, b)),
{
    assert forall|k: int| 0 <= k < b - a implies is_digit(#[trigger] s.subrange(a, b)[k]) by {
        assert(s.subrange(a, b)[k] == s[a + k]);
    }
}

/// The first nine digits of `t` from `fstart` on, as billionths.
fn fraction_billionths(t: &[char], fstart: usize) -> (frac: u128)
    requires
        fstart <= t@.len(),
        all_digits(t@.skip(fstart as int)),
    ensures
        frac as nat == frac_billionths(t@.skip(fstart as int)),
        frac < 1_000_000_000,
{
    let n = t.len();
    let ghost fp = t@.skip(fstart as int);
    let flen = n - fstart;
    let m: usize = if flen < 9 { flen } else { 9 };
    let mut frac: u128 = 0;
    let mut k: usize = 0;
    while k < m
        invariant
            k <= m <= 9,
            m <= fp.len(),
            fstart + m <= n,
            n == t@.len(),
            fp == t@.skip(fstart as int),
            all_digits(fp),
            frac as nat == digits_value(fp.take(k as int)),
            frac < pow10(k as nat),
        decreases m - k,
    {
        assert(fp[k as int] == t@[fstart + k]);
        assert(is_digit(fp[k as int]));
        let d = (t[fstart + k] as u32 - '0' as u32) as u128;
        assert(fp.take(k + 1).drop_last() =~= fp.take(k as int));
        proof {
            lemma_all_digits_sub(fp, 0, k + 1);
            assert(fp.take(k + 1) =~= fp.subrange(0, k + 1));
            lemma_digits_value_bound(fp.take(k + 1));
            lemma_pow10_mono(k as nat, 8);
            lemma_pow10_values();
        }
        frac = frac * 10 + d;
        k = k + 1;
    }
    let ghost base = frac as nat;
    assert(pow10(0) == 1);
    assert(base * pow10(0) == base);
    let mut p: usize = m;
    while p < 9
        invariant
            m <= p <= 9,
            m as int == if fp.len() < 9 { fp.len() as int } else { 9 },
            base == digits_value(fp.take(m as int)),
            frac as nat == base * pow10((p - m) as nat),
            frac < pow10(p as nat),
        decreases 9 - p,
    {
        proof {
            lemma_pow10_mono(p as nat, 8);
            lemma_pow10_values();
            assert(pow10((p + 1 - m) as nat) == 10 * pow10((p - m) as nat));
            assert(pow10((p + 1) as nat) == 10 * pow10(p as nat));
        }
        frac = frac * 10;
        p = p + 1;
        assert(frac as nat == base * pow10((p - m) as nat)) by (nonlinear_arith)
            requires
                frac as nat == (base * pow10((p - 1 - m) as nat)) * 10,
                pow10((p - m) as nat) == 10 * pow10((p - 1 - m) as nat),
        ;
    }
    proof {
        lemma_pow10_values();
    }
    frac
}

/// Reads a decimal number of `unit`-nanosecond units.
#[verifier::rlimit(40)]
#[verifier::spinoff_prover]
fn parse_decimal_nanos(value: &[char], unit: u128) -> (r: Option<Nanos>)
    requires
        unit == 1_000_000 || unit == 1_000_000_000,
    ensures
        match decimal_nanos(value@, unit as nat) {
            Some(n) => r == Some(n as u128),
            None => r is None,
        },
{
    let t = trim_chars(value);
    let start: usize = if t.len() > 0 && t[0] == '+' { 1 } else { 0 };
    let ghost b = unsigned_body(t@);
    assert(b =~= t@.skip(start as int));
    let n = t.len();
    let mut i: usize = start;
    let mut whole: u128 = 0;
    let mut big = false;
    while i < n && '0' <= t[i] && t[i] <= '9'
        invariant
            start <= i <= n,
            n == t@.len(),
            b == t@.skip(start as int),
            all_digits(b.take(i - start)),
            !big ==> whole as nat == digits_value(b.take(i - start)) && whole <= WHOLE_LIMIT * 10 + 9,
            big ==> digits_value(b.take(i - start)) > WHOLE_LIMIT,
        decreases n - i,
    {
        let d = (t[i] as u32 - '0' as u32) as u128;
        assert(b[i - start] == t@[i as int]);
        assert(b.take(i - start + 1).drop_last() =~= b.take(i - start));
        if !big && whole <= WHOLE_LIMIT {
            whole = whole * 10 + d;
        } else {
            big = true;
        }
        i = i + 1;
        assert forall|k: int| 0 <= k < i - start implies is_digit(#[trigger] b.take(i - start)[k]) by {
            if k < i - start - 1 {
                assert(b.take(i - start)[k] == b.take(i - start - 1)[k]);
            }
        }
    }
    let seen = i - start;
    let ghost ip = b.take(seen as int);
    let mut fstart: usize = n;
    if i < n {
        if t[i] != '.' {
            proof {
                assert forall|k: int| 0 <= k < seen + 1 implies b[k] != '.' by {
                    if k < seen {
                        assert(is_digit(b.take(seen as int)[k]));
                    } else {
                        assert(b[k] == t@[i as int]);
                    }
                }
                lemma_find_from_skip(b, '.', 0, seen + 1);
                lemma_find_from_bounds(b, '.', seen + 1);
                let dot = find_from(b, '.', 0);
                assert(b.take(dot)[seen as int] == t@[i as int]);
                assert(!is_digit(b.take(dot)[seen as int]));
            }
            return None;
        }
        fstart = i + 1;
    }
    proof {
        if i < n {
            assert(b[seen as int] == '.');
        }
        assert forall|k: int| 0 <= k < seen implies b[k] != '.' by {
            assert(is_digit(b.take(seen as int)[k]));
        }
        lemma_find_from(b, '.', 0, seen as int);
    }
    let ghost fp = if seen < b.len() { b.skip(seen + 1) } else { Seq::<char>::empty() };
    assert(fp =~= t@.subrange(fstart as int, n as int));
    let mut j: usize = fstart;
    while j < n
        invariant
            fstart <= j <= n,
            n == t@.len(),
            fp == t@.subrange(fstart as int, n as int),
            forall|k: int| fstart <= k < j ==> is_digit(#[trigger] t@[k]),
            t@ == trim(value@),
            b == unsigned_body(t@),
            seen <= b.len(),
            find_from(b, '.', 0) == seen,
            fp == (if seen < b.len() { b.skip(seen + 1) } else { Seq::<char>::empty() }),
        decreases n - j,
    {
        if !('0' <= t[j] && t[j] <= '9') {
            assert(fp[j - fstart] == t@[j as int]);
            assert(!is_digit(fp[j - fstart]));
            assert(!all_digits(fp));
            return None;
        }
        j = j + 1;
    }
    assert(all_digits(fp)) by {
        assert forall|k: int| 0 <= k < fp.len() implies is_digit(#[trigger] fp[k]) by {
            assert(fp[k] == t@[fstart + k]);
        }
    }
    if seen == 0 && fstart >= n {
        return None;
    }
    let frac = fraction_billionths(&t, fstart);
    proof {
        lemma_pow10_values();
    }
    if big {
        proof {
            assert(digits_value(ip) * unit > MAX_DURATION_NANOS) by (nonlinear_arith)
                requires
                    digits_value(ip) > WHOLE_LIMIT,
                    unit >= 1_000_000,
            ;
        }
        return None;
    }
    assert(whole * unit + frac * unit <= 0xffff_ffff_ffff_ffff_ffff_ffff_ffff_ffff) by (nonlinear_arith)
        requires
            whole <= WHOLE_LIMIT * 10 + 9,
            frac < 1_000_000_000,
            unit <= 1_000_000_000,
    ;
    let ns = whole * unit + frac * unit / 1_000_000_000;
    if ns > MAX_DURATION_NANOS {
        return None;
    }
    Some(ns)
}

proof fn lemma_zeros_value(n: nat)
    ensures
        digits_value(zeros(n)) == 0,
        all_digits(zeros(n)),
    decreases n,
{
    if n > 0 {
        assert(zeros(n).drop_last() =~= zeros((n - 1) as nat));
        lemma_zeros_value((n - 1) as nat);
    }
}

proof fn lemma_value_zeros_after(d: Seq<char>, k: nat)
    ensures
        digits_value(d + zeros(k)) == digits_value(d) * pow10(k),
    decreases k,
{
    if k == 0 {
        assert(d + zeros(0) =~= d);
        assert(pow10(0) == 1);
        assert(digits_value(d) * 1 == digits_value(d));
    } else {
        lemma_value_zeros_after(d, (k - 1) as nat);
        let w = d + zeros(k);
        assert(w.drop_last() =~= d + zeros((k - 1) as nat));
        assert(w.last() == '0');
        assert(digit_val('0') == 0);
        assert(digits_value(w) == digits_value(w.drop_last()) * 10 + digit_val(w.last()));
        let v = digits_value(d);
        let p = pow10((k - 1) as nat);
        assert(pow10(k) == 10 * p);
        assert(digits_value(w.drop_last()) == v * p);
        assert(v * p * 10 == v * (10 * p)) by (nonlinear_arith);
        assert(digits_value(w) == v * p * 10);
    }
}

proof fn lemma_no_fraction()
    ensures
        frac_billionths(Seq::<char>::empty()) == 0,
{
    let e = Seq::<char>::empty();
    assert(e.take(0) =~= e);
    assert(digits_value(e) == 0);
    let p = pow10(9);
    assert(0 * p == 0) by (nonlinear_arith);
}

/// Past 41 trailing zeros, more zeros change nothing: the value is zero, or
/// too long for a duration either way.
proof fn lemma_many_trailing_zeros(d: Seq<char>, k: nat, unit: nat)
    requires
        k >= 41,
        unit >= 1,
    ensures
        parts_nanos(d + zeros(k), Seq::<char>::empty(), unit) == parts_nanos(
            d + zeros(41),
            Seq::<char>::empty(),
            unit,
        ),
{
    lemma_value_zeros_after(d, k);
    lemma_value_zeros_after(d, 41);
    lemma_no_fraction();
    lemma_pow10_mono(29, 41);
    lemma_pow10_mono(41, k);
    assert(pow10(29) == 100_000_000_000_000_000_000_000_000_000nat) by {
        reveal_with_fuel(pow10, 30);
    }
    let v = digits_value(d);
    let e = Seq::<char>::empty();
    assert(frac_billionths(e) * unit / 1_000_000_000 == 0) by (nonlinear_arith)
        requires
            frac_billionths(e) == 0,
    ;
    if v > 0 {
        assert(v * pow10(k) * unit >= pow10(41)) by (nonlinear_arith)
            requires
                v >= 1,
                unit >= 1,
                pow10(k) >= pow10(41),
        ;
        assert(v * pow10(41) * unit >= pow10(41)) by (nonlinear_arith)
            requires
                v >= 1,
                unit >= 1,
        ;
    } else {
        assert(v * pow10(k) * unit == 0) by (nonlinear_arith)
            requires
                v == 0,
        ;
        assert(v * pow10(41) * unit == 0) by (nonlinear_arith)
            requires
                v == 0,
        ;
    }
}

/// Past nine leading zeros of the fraction, with no whole part, the value
/// is zero.
proof fn lemma_many_leading_zeros(d: Seq<char>, m: nat, unit: nat)
    requires
        m >= 9,
    ensures
        parts_nanos(Seq::<char>::empty(), zeros(m) + d, unit) == Some(0nat),
{
    let f = zeros(m) + d;
    assert(f.take(9) =~= zeros(9));
    lemma_zeros_value(9);
    assert(digits_value(Seq::<char>::empty()) == 0);
    assert(f.len() >= 9);
    assert(digits_value(f.take(9)) == 0);
    assert(frac_billionths(f) == digits_value(f.take(9)) * pow10(0));
    assert(frac_billionths(f) == 0) by (nonlinear_arith)
        requires
            frac_billionths(f) == digits_value(f.take(9)) * pow10(0),
            digits_value(f.take(9)) == 0,
    ;
    assert(digits_value(Seq::<char>::empty()) * unit + frac_billionths(f) * unit / 1_000_000_000 == 0)
        by (nonlinear_arith)
        requires
            digits_value(Seq::<char>::empty()) == 0,
            frac_billionths(f) == 0,
    ;
}

/// Whole digits, a point and fractional digits read back as those parts.
proof fn lemma_plain_decimal(a: Seq<char>, b: Seq<char>, unit: nat)
    requires
        all_digits(a),
        all_digits(b),
        a.len() + b.len() > 0,
    ensures
        decimal_nanos(a + seq!['.'] + b, unit) == parts_nanos(a, b, unit),
{
    let v = a + seq!['.'] + b;
    assert(v[a.len() as int] == '.');
    assert(!is_ws(v[0])) by {
        if a.len() > 0 {
            assert(is_digit(a[0]));
        }
    }
    assert(!is_ws(v[v.len() - 1])) by {
        if b.len() > 0 {
            assert(v[v.len() - 1] == b[b.len() - 1]);
            assert(is_digit(b[b.len() - 1]));
        }
    }
    crate::text::lemma_lead_ws(v, 0);
    crate::text::lemma_trail_ws(v, 0);
    assert(trim_start(v) =~= v);
    assert(trim(v) =~= v);
    assert(unsigned_body(v) == v);
    assert forall|k: int| 0 <= k < a.len() implies v[k] != '.' by {
        assert(v[k] == a[k]);
        assert(is_digit(a[k]));
    }
    lemma_find_from(v, '.', 0, a.len() as int);
    assert(v.take(a.len() as int) =~= a);
    assert(v.skip(a.len() + 1int) =~= b);
}

/// The point moved by an exponent capped at `cap`, with at most nine zeros
/// ahead of the fraction and 41 after the whole digits, reads the same as
/// the point moved by the exponent itself.
proof fn lemma_shift_capped(ip: Seq<char>, fp: Seq<char>, e: int, cap: int, pos: int, a: Seq<char>, b: Seq<char>, unit: nat)
    requires
        ip.len() + fp.len() + 64 <= cap,
        unit >= 1,
        pos == ip.len() + (if e < 0 { -(if -e < cap { -e } else { cap }) } else { if e < cap { e } else { cap } }),
        pos <= 0 ==> a == Seq::<char>::empty() && b == zeros((if -pos < 9 { -pos } else { 9 }) as nat) + (ip + fp),
        0 < pos < ip.len() + fp.len() ==> a == (ip + fp).take(pos) && b == (ip + fp).skip(pos),
        pos >= ip.len() + fp.len() ==> a == (ip + fp) + zeros((if pos - (ip.len() + fp.len()) < 41 { pos - (ip.len() + fp.len()) } else { 41 }) as nat) && b == Seq::<char>::empty(),
    ensures
        parts_nanos(a, b, unit) == parts_nanos(shift_point(ip, fp, e).0, shift_point(ip, fp, e).1, unit),
{
    let d = ip + fp;
    let tpos = ip.len() + e;
    let capped = if e < 0 { -e >= cap } else { e >= cap };
    if !capped {
        assert(pos == tpos);
    } else if e < 0 {
        assert(pos <= -64 && tpos <= -64);
    } else {
        assert(pos >= d.len() + 64 && tpos >= d.len() + 64);
    }
    if pos <= 0 {
        assert(tpos <= 0);
        if -pos >= 9 {
            lemma_many_leading_zeros(d, 9, unit);
            lemma_many_leading_zeros(d, (-tpos) as nat, unit);
        } else {
            assert(tpos == pos);
        }
    } else if pos >= d.len() {
        assert(tpos >= d.len());
        if pos - d.len() >= 41 {
            lemma_many_trailing_zeros(d, (tpos - d.len()) as nat, unit);
        } else {
            assert(tpos == pos);
        }
    } else {
        assert(tpos == pos);
    }
}

proof fn lemma_pow10_values()
    ensures
        pow10(8) == 100_000_000,
        pow10(9) == 1_000_000_000,
{
    reveal_with_fuel(pow10, 10);
}

proof fn lemma_pow10_mono(a: nat, b: nat)
    requires
        a <= b,
    ensures
        pow10(a) <= pow10(b),
        pow10(a) >= 1,
    decreases b,
{
    if a < b {
        lemma_pow10_mono(a, (b - 1) as nat);
    } else if a > 0 {
        lemma_pow10_mono((a - 1) as nat, (a - 1) as nat);
    }
}


/// Where the exponent of a number starts: its first `e` or `E`, or its
/// end.
fn find_exp_mark(t: &[char]) -> (k: usize)
    ensures
        k as int == exp_mark(t@, 0),
        k <= t@.len(),
{
    let mut i: usize = 0;
    while i < t.len() && t[i] != 'e' && t[i] != 'E'
        invariant
            i <= t@.len(),
            exp_mark(t@, 0) == exp_mark(t@, i as int),
        decreases t@.len() - i,
    {
        i = i + 1;
    }
    i
}

/// The characters of `t` from `a` up to `b`.
fn copy_chars(t: &[char], a: usize, b: usize) -> (r: Vec<char>)
    requires
        a <= b <= t@.len(),
    ensures
        r@ == t@.subrange(a as int, b as int),
{
    let mut out: Vec<char> = Vec::new();
    let mut i: usize = a;
    while i < b
        invariant
            a <= i <= b,
            b <= t@.len(),
            out@ == t@.subrange(a as int, i as int),
        decreases b - i,
    {
        out.push(t[i]);
        i = i + 1;
        assert(out@ =~= t@.subrange(a as int, i as int));
    }
    out
}

fn append_chars(out: &mut Vec<char>, s: &[char])
    ensures
        final(out)@ == old(out)@ + s@,
{
    let mut i: usize = 0;
    while i < s.len()
        invariant
            i <= s@.len(),
            out@ == old(out)@ + s@.take(i as int),
        decreases s@.len() - i,
    {
        out.push(s[i]);
        i = i + 1;
        assert(out@ =~= old(out)@ + s@.take(i as int));
    }
    assert(s@.take(s@.len() as int) =~= s@);
}

fn push_zeros(out: &mut Vec<char>, n: usize)
    ensures
        final(out)@ == old(out)@ + zeros(n as nat),
{
    let mut i: usize = 0;
    while i < n
        invariant
            i <= n,
            out@ == old(out)@ + zeros(i as nat),
        decreases n - i,
    {
        out.push('0');
        i = i + 1;
        assert(out@ =~= old(out)@ + zeros(i as nat));
    }
}

fn all_digit_chars(s: &[char]) -> (r: bool)
    ensures
        r == all_digits(s@),
{
    let mut i: usize = 0;
    while i < s.len()
        invariant
            i <= s@.len(),
            forall|k: int| 0 <= k < i ==> is_digit(#[trigger] s@[k]),
        decreases s@.len() - i,
    {
        if !('0' <= s[i] && s[i] <= '9') {
            return false;
        }
        i = i + 1;
    }
    true
}

/// The whole and fractional digits of a decimal number, as
/// `decimal_parts` gives them.
fn split_decimal(m: &[char]) -> (r: Option<(Vec<char>, Vec<char>)>)
    ensures
        match decimal_parts(m@) {
            Some((a, b)) => r matches Some((x, y)) && x@ == a && y@ == b && a.len() + b.len() <= m@.len(),
            None => r is None,
        },
{
    let n = m.len();
    let start: usize = if n > 0 && m[0] == '+' { 1 } else { 0 };
    let ghost b = unsigned_body(m@);
    assert(b =~= m@.skip(start as int));
    let mut i: usize = start;
    while i < n && m[i] != '.'
        invariant
            start <= i <= n,
            n == m@.len(),
            b == m@.skip(start as int),
            forall|k: int| 0 <= k < i - start ==> b[k] != '.',
        decreases n - i,
    {
        assert(b[i - start] == m@[i as int]);
        i = i + 1;
    }
    proof {
        if i < n {
            assert(b[i - start] == m@[i as int]);
        }
        lemma_find_from(b, '.', 0, i - start);
    }
    let ip = copy_chars(m, start, i);
    assert(ip@ =~= b.take(i - start));
    let fp = if i < n {
        copy_chars(m, i + 1, n)
    } else {
        Vec::new()
    };
    assert(fp@ =~= (if i - start < b.len() { b.skip(i - start + 1) } else { Seq::<char>::empty() }));
    if all_digit_chars(ip.as_slice()) && all_digit_chars(fp.as_slice()) && ip.len() + fp.len() > 0 {
        Some((ip, fp))
    } else {
        None
    }
}

/// Reads an exponent: its sign, and its size, no larger than `cap`.
fn read_exponent(x: &[char], cap: u128) -> (r: Option<(bool, u128)>)
    requires
        cap < 0x1_0000_0000_0000_0000_0000_0000,
    ensures
        match exponent_of(x@) {
            Some(e) => r matches Some((neg, mag)) && (neg ==> e <= 0) && (!neg ==> e >= 0) && mag as int == (if e
                < 0 {
                if -e < cap {
                    -e
                } else {
                    cap as int
                }
            } else {
                if e < cap {
                    e
                } else {
                    cap as int
                }
            }),
            None => r is None,
        },
{
    let n = x.len();
    let signed = n > 0 && (x[0] == '+' || x[0] == '-');
    let neg = signed && x[0] == '-';
    let start: usize = if signed { 1 } else { 0 };
    let ghost d = if signed { x@.drop_first() } else { x@ };
    assert(d =~= x@.skip(start as int));
    if start >= n {
        return None;
    }
    let mut acc: u128 = 0;
    let mut i: usize = start;
    while i < n
        invariant
            start <= i <= n,
            n == x@.len(),
            d == x@.skip(start as int),
            d == (if signed { x@.drop_first() } else { x@ }),
            signed == (x@.len() > 0 && (x@[0] == '+' || x@[0] == '-')),
            neg == (signed && x@[0] == '-'),
            all_digits(d.take(i - start)),
            acc <= cap,
            acc as nat == (if digits_value(d.take(i - start)) < cap { digits_value(d.take(i - start)) } else { cap as nat }),
            cap < 0x1_0000_0000_0000_0000_0000_0000,
        decreases n - i,
    {
        if !('0' <= x[i] && x[i] <= '9') {
            assert(d[i - start] == x@[i as int]);
            assert(!all_digits(d));
            return None;
        }
        let dig = (x[i] as u32 - '0' as u32) as u128;
        assert(d[i - start] == x@[i as int]);
        let ghost prev = digits_value(d.take(i - start));
        assert(d.take(i - start + 1).drop_last() =~= d.take(i - start));
        assert(digits_value(d.take(i - start + 1)) == prev * 10 + dig);
        if acc < cap {
            let next = acc * 10 + dig;
            acc = if next < cap { next } else { cap };
        } else {
            assert(prev * 10 + dig >= cap) by (nonlinear_arith)
                requires
                    prev >= cap,
            ;
        }
        i = i + 1;
        assert forall|k: int| 0 <= k < i - start implies is_digit(#[trigger] d.take(i - start)[k]) by {
            if k < i - start - 1 {
                assert(d.take(i - start)[k] == d.take(i - start - 1)[k]);
            }
        }
    }
    assert(d.take(n - start) =~= d);
    assert(all_digits(d));
    assert(d.len() > 0);
    assert(exponent_of(x@) == Some(
        if neg {
            -(digits_value(d) as int)
        } else {
            digits_value(d) as int
        },
    ));
    Some((neg, acc))
}

/// The parts a moved point leaves are digits, and not both empty.
proof fn lemma_shifted_digits(ip: Seq<char>, fp: Seq<char>, d: Seq<char>, pos: int, a: Seq<char>, b: Seq<char>)
    requires
        all_digits(ip),
        all_digits(fp),
        d == ip + fp,
        d.len() > 0,
        pos <= 0 ==> a == Seq::<char>::empty() && b == zeros((if -pos < 9 { -pos } else { 9 }) as nat) + d,
        0 < pos < d.len() ==> a == d.take(pos) && b == d.skip(pos),
        pos >= d.len() ==> a == d + zeros((if pos - d.len() < 41 { pos - d.len() } else { 41 }) as nat)
            && b == Seq::<char>::empty(),
    ensures
        all_digits(a),
        all_digits(b),
        a.len() + b.len() > 0,
{
    assert(all_digits(d)) by {
        assert forall|i: int| 0 <= i < d.len() implies is_digit(#[trigger] d[i]) by {
            if i < ip.len() {
                assert(d[i] == ip[i]);
            } else {
                assert(d[i] == fp[i - ip.len()]);
            }
        }
    }
    assert forall|i: int| 0 <= i < a.len() implies is_digit(#[trigger] a[i]) by {
        if 0 < pos < d.len() {
            assert(a[i] == d[i]);
        } else if pos >= d.len() {
            if i < d.len() {
                assert(a[i] == d[i]);
            } else {
                assert(a[i] == '0');
            }
        }
    }
    assert forall|i: int| 0 <= i < b.len() implies is_digit(#[trigger] b[i]) by {
        if 0 < pos < d.len() {
            assert(b[i] == d[i + pos]);
        } else if pos <= 0 {
            let z = if -pos < 9 { -pos } else { 9 };
            if i < z {
                assert(b[i] == '0');
            } else {
                assert(b[i] == d[i - z]);
            }
        }
    }
}

/// Reads a number as the float parser does, without a sign: a decimal
/// number, then optionally `e` or `E` and an exponent of ten; in whole
/// nanoseconds of `unit`-nanosecond units.
#[verifier::rlimit(60)]
#[verifier::spinoff_prover]
fn parse_number_nanos(value: &[char], unit: u128) -> (r: Option<Nanos>)
    requires
        unit == 1_000_000 || unit == 1_000_000_000,
    ensures
        match number_nanos(value@, unit as nat) {
            Some(n) => r == Some(n as u128),
            None => r is None,
        },
{
    let t = trim_chars(value);
    let k = find_exp_mark(t.as_slice());
    if k >= t.len() {
        return parse_decimal_nanos(t.as_slice(), unit);
    }
    let mant = copy_chars(t.as_slice(), 0, k);
    let ex = copy_chars(t.as_slice(), k + 1, t.len());
    assert(mant@ =~= t@.take(k as int));
    assert(ex@ =~= t@.skip(k + 1));
    let (ip, fp) = match split_decimal(mant.as_slice()) {
        Some(p) => p,
        None => {
            return None;
        },
    };
    let cap: u128 = t.len() as u128 + 64;
    let (neg, mag) = match read_exponent(ex.as_slice(), cap) {
        Some(e) => e,
        None => {
            return None;
        },
    };
    let mut d: Vec<char> = Vec::new();
    append_chars(&mut d, ip.as_slice());
    append_chars(&mut d, fp.as_slice());
    assert(d@ =~= ip@ + fp@);
    let l = ip.len() as i128;
    let dl = d.len() as i128;
    let pos: i128 = if neg { l - mag as i128 } else { l + mag as i128 };
    let mut a: Vec<char> = Vec::new();
    let mut b: Vec<char> = Vec::new();
    if pos <= 0 {
        let z: usize = if -pos < 9 { (-pos) as usize } else { 9 };
        push_zeros(&mut b, z);
        append_chars(&mut b, d.as_slice());
        assert(a@ =~= Seq::<char>::empty());
        assert(b@ =~= zeros(z as nat) + d@);
    } else if pos >= dl {
        let kk = pos - dl;
        let z: usize = if kk < 41 { kk as usize } else { 41 };
        append_chars(&mut a, d.as_slice());
        push_zeros(&mut a, z);
        assert(a@ =~= d@ + zeros(z as nat));
        assert(b@ =~= Seq::<char>::empty());
    } else {
        a = copy_chars(d.as_slice(), 0, pos as usize);
        b = copy_chars(d.as_slice(), pos as usize, d.len());
        assert(a@ =~= d@.take(pos as int));
        assert(b@ =~= d@.skip(pos as int));
    }
    let mut v: Vec<char> = Vec::new();
    append_chars(&mut v, a.as_slice());
    v.push('.');
    append_chars(&mut v, b.as_slice());
    proof {
        let e = exponent_of(ex@)->0;
        assert(v@ =~= a@ + seq!['.'] + b@);
        lemma_shifted_digits(ip@, fp@, d@, pos as int, a@, b@);
        lemma_plain_decimal(a@, b@, unit as nat);
        lemma_shift_capped(ip@, fp@, e, cap as int, pos as int, a@, b@, unit as nat);
    }
    parse_decimal_nanos(v.as_slice(), unit)
}

/// Reads a duration: a decimal number of seconds, with an optional `s`
/// suffix, or of milliseconds with an `ms` suffix.
pub fn parse_duration(value: &str) -> (r: ApiResult<Nanos>)
    ensures
        trim(value@).len() == 0 ==> (r matches Err(e) && e.code == ErrorCode::InvalidDuration),
        trim(value@).len() > 0 ==> match duration_nanos(value@) {
            Some(n) => r == Ok::<u128, ApiError>(n as u128),
            None => r matches Err(e) && e.code == ErrorCode::InvalidArgs,
        },
{
    let c = chars_of(value);
    let v = trim_chars(&c);
    if v.len() == 0 {
        return Err(ApiError::with_text(ErrorCode::InvalidDuration, "Duration cannot be empty"));
    }
    let (num, unit): (Vec<char>, u128) = match strip_suffix_chars(&v, "ms") {
        Some(n) => (n, 1_000_000),
        None => match strip_suffix_chars(&v, "s") {
            Some(n) => (n, 1_000_000_000),
            None => (v, 1_000_000_000),
        },
    };
    match parse_number_nanos(&num, unit) {
        Some(ns) => Ok(ns),
        None => {
            let ns = string_of(&num);
            Err(error_with(ErrorCode::InvalidArgs, "Invalid numeric value for duration: ", ns.as_str()))
        },
    }
}


/// The flag a JSON object key stands for: `--` and the key with `_` turned
/// into `-`.
pub open spec fn flag_name(key: Seq<char>) -> Seq<char> {
    "--"@ + replace_char(key, '_', "-"@)
}

/// The arguments one item of an array-valued key adds.
pub open spec fn item_args(flag: Seq<char>, item: JsonValue) -> Seq<Seq<char>> {
    match item {
        JsonValue::Str(s) => seq![flag, s@],
        JsonValue::Number(n) => seq![flag, n@],
        JsonValue::Bool(b) => seq![flag, if b { "true"@ } else { "false"@ }],
        _ => Seq::empty(),
    }
}

pub open spec fn array_args(flag: Seq<char>, items: Seq<JsonValue>) -> Seq<Seq<char>>
    decreases items.len(),
{
    if items.len() == 0 {
        Seq::empty()
    } else {
        array_args(flag, items.drop_last()) + item_args(flag, items.last())
    }
}

/// The arguments one key of a JSON object payload adds.
pub open spec fn entry_args(key: Seq<char>, value: JsonValue) -> Seq<Seq<char>> {
    let flag = flag_name(key);
    match value {
        JsonValue::Bool(true) => seq![flag],
        JsonValue::Str(s) => seq![flag, s@],
        JsonValue::Number(n) => seq![flag, n@],
        JsonValue::Array(items) => array_args(flag, items@),
        _ => Seq::empty(),
    }
}

/// The arguments of every key of a JSON object payload but `cmd` and `args`,
/// in order.
pub open spec fn entries_args(entries: Seq<(String, JsonValue)>) -> Seq<Seq<char>>
    decreases entries.len(),
{
    if entries.len() == 0 {
        Seq::empty()
    } else {
        let (k, v) = entries.last();
        entries_args(entries.drop_last()) + (if k@ == "cmd"@ || k@ == "args"@ {
            Seq::<Seq<char>>::empty()
        } else {
            entry_args(k@, v)
        })
    }
}

/// The strings among the items of `args`.
pub open spec fn positional_args(items: Seq<JsonValue>) -> Seq<Seq<char>>
    decreases items.len(),
{
    if items.len() == 0 {
        Seq::empty()
    } else {
        positional_args(items.drop_last()) + match items.last() {
            JsonValue::Str(s) => seq![s@],
            _ => Seq::<Seq<char>>::empty(),
        }
    }
}

/// The value of the first entry with the given key.
pub open spec fn find_key(entries: Seq<(String, JsonValue)>, key: Seq<char>) -> Option<JsonValue>
    decreases entries.len(),
{
    if entries.len() == 0 {
        None
    } else if entries[0].0@ == key {
        Some(entries[0].1)
    } else {
        find_key(entries.drop_first(), key)
    }
}

pub open spec fn all_strings(items: Seq<JsonValue>) -> bool {
    forall|i: int| 0 <= i < items.len() ==> items[i] is Str
}

/// The arguments a JSON payload stands for: an array of strings is the
/// argument list itself; an object needs a string `cmd`, which comes first,
/// followed by the strings of an `args` array and then the flags of the
/// other keys. `None` for anything else.
pub open spec fn json_argv(v: JsonValue) -> Option<Seq<Seq<char>>> {
    match v {
        JsonValue::Array(items) => if all_strings(items@) {
            Some(positional_args(items@))
        } else {
            None
        },
        JsonValue::Object(entries) => match find_key(entries@, "cmd"@) {
            Some(JsonValue::Str(cmd)) => {
                let pos = match find_key(entries@, "args"@) {
                    Some(JsonValue::Array(items)) => positional_args(items@),
                    _ => Seq::<Seq<char>>::empty(),
                };
                Some(seq![cmd@] + pos + entries_args(entries@))
            },
            _ => None,
        },
        _ => None,
    }
}

/// The first entry with the given key.
fn find_entry<'a>(entries: &'a Vec<(String, JsonValue)>, key: &str) -> (r: Option<&'a JsonValue>)
    ensures
        match find_key(entries@, key@) {
            Some(v) => r == Some(&v),
            None => r is None,
        },
{
    let mut i: usize = 0;
    assert(entries@.skip(0) =~= entries@);
    while i < entries.len()
        invariant
            i <= entries@.len(),
            find_key(entries@, key@) == find_key(entries@.skip(i as int), key@),
        decreases entries@.len() - i,
    {
        let ghost rest = entries@.skip(i as int);
        assert(rest[0] == entries@[i as int]);
        let kc = chars_of(entries[i].0.as_str());
        if eq_str(&kc, key) {
            return Some(&entries[i].1);
        }
        assert(rest.drop_first() =~= entries@.skip(i + 1));
        i = i + 1;
    }
    None
}

/// Appends the strings among `items`.
fn push_positional(argv: &mut Vec<String>, items: &Vec<JsonValue>)
    ensures
        strs(final(argv)@) == strs(old(argv)@) + positional_args(items@),
{
    let mut i: usize = 0;
    while i < items.len()
        invariant
            i <= items@.len(),
            strs(argv@) == strs(old(argv)@) + positional_args(items@.take(i as int)),
        decreases items@.len() - i,
    {
        assert(items@.take(i + 1).drop_last() =~= items@.take(i as int));
        let ghost before = argv@;
        match &items[i] {
            JsonValue::Str(s) => {
                argv.push(s.clone());
                assert(strs(argv@) =~= strs(before).push(s@));
            },
            _ => {},
        }
        i = i + 1;
        assert(strs(argv@) =~= strs(old(argv)@) + positional_args(items@.take(i as int)));
    }
    assert(items@.take(items@.len() as int) =~= items@);
}

/// Appends the arguments of one key.
fn push_entry(argv: &mut Vec<String>, key: &String, value: &JsonValue)
    ensures
        strs(final(argv)@) == strs(old(argv)@) + entry_args(key@, *value),
{
    let kc = chars_of(key.as_str());
    let mut fc = chars_of("--");
    let rc = replace_chars(&kc, '_', "-");
    let mut j: usize = 0;
    let ghost f0 = fc@;
    while j < rc.len()
        invariant
            j <= rc@.len(),
            fc@ == f0 + rc@.take(j as int),
        decreases rc@.len() - j,
    {
        fc.push(rc[j]);
        j = j + 1;
        assert(fc@ =~= f0 + rc@.take(j as int));
    }
    assert(rc@.take(rc@.len() as int) =~= rc@);
    let flag = string_of(&fc);
    let ghost fl = flag@;
    assert(fl == flag_name(key@));
    let ghost before = argv@;
    match value {
        JsonValue::Bool(true) => {
            argv.push(flag);
            assert(strs(argv@) =~= strs(before) + seq![fl]);
        },
        JsonValue::Str(s) => {
            argv.push(flag);
            argv.push(s.clone());
            assert(strs(argv@) =~= strs(before) + seq![fl, s@]);
        },
        JsonValue::Number(n) => {
            argv.push(flag);
            argv.push(n.clone());
            assert(strs(argv@) =~= strs(before) + seq![fl, n@]);
        },
        JsonValue::Array(items) => {
            let mut i: usize = 0;
            let ghost expected = json_argv(*value);
            assert(expected == (if all_strings(items@) {
                Some(positional_args(items@))
            } else {
                None
            }));
            while i < items.len()
                invariant
                    i <= items@.len(),
                    expected == json_argv(*value),
                    expected == (if all_strings(items@) {
                        Some(positional_args(items@))
                    } else {
                        None
                    }),
                    fl == flag@,
                    strs(argv@) == strs(before) + array_args(fl, items@.take(i as int)),
                decreases items@.len() - i,
            {
                assert(items@.take(i + 1).drop_last() =~= items@.take(i as int));
                let ghost mid = argv@;
                match &items[i] {
                    JsonValue::Str(s) => {
                        argv.push(flag.clone());
                        argv.push(s.clone());
                        assert(strs(argv@) =~= strs(mid) + seq![fl, s@]);
                    },
                    JsonValue::Number(n) => {
                        argv.push(flag.clone());
                        argv.push(n.clone());
                        assert(strs(argv@) =~= strs(mid) + seq![fl, n@]);
                    },
                    JsonValue::Bool(b) => {
                        argv.push(flag.clone());
                        let t = if *b { String::from_str("true") } else { String::from_str("false") };
                        let ghost tv = t@;
                        argv.push(t);
                        assert(strs(argv@) =~= strs(mid) + seq![fl, tv]);
                    },
                    _ => {},
                }
                i = i + 1;
                assert(strs(argv@) =~= strs(before) + array_args(fl, items@.take(i as int)));
            }
            assert(items@.take(items@.len() as int) =~= items@);
        },
        _ => {
            assert(strs(argv@) =~= strs(before) + entry_args(key@, *value));
        },
    }
}

/// The arguments of one entry of a JSON object payload stand, in order,
/// somewhere among those of all its entries.
proof fn lemma_entry_in_args(entries: Seq<(String, JsonValue)>, e: int)
    requires
        0 <= e < entries.len(),
        entries[e].0@ != "cmd"@,
        entries[e].0@ != "args"@,
    ensures
        exists|off: int|
            0 <= off && off + entry_args(entries[e].0@, entries[e].1).len() <= entries_args(entries).len()
                && #[trigger] entries_args(entries).subrange(
                off,
                off + entry_args(entries[e].0@, entries[e].1).len(),
            ) == entry_args(entries[e].0@, entries[e].1),
    decreases entries.len(),
{
    let ea = entry_args(entries[e].0@, entries[e].1);
    let prev = entries_args(entries.drop_last());
    let all = entries_args(entries);
    if e == entries.len() - 1 {
        assert(all == prev + ea);
        assert(all.subrange(prev.len() as int, (prev.len() + ea.len()) as int) =~= ea);
    } else {
        lemma_entry_in_args(entries.drop_last(), e);
        assert(entries.drop_last()[e] == entries[e]);
        let off = choose|off: int|
            0 <= off && off + ea.len() <= prev.len() && #[trigger] prev.subrange(off, off + ea.len()) == ea;
        let (k, v) = entries.last();
        assert(all == prev + (if k@ == "cmd"@ || k@ == "args"@ {
            Seq::<Seq<char>>::empty()
        } else {
            entry_args(k@, v)
        }));
        assert(all.subrange(off, off + ea.len()) =~= prev.subrange(off, off + ea.len()));
    }
}

/// A number under any key of a JSON object payload (but `cmd` and `args`)
/// is passed on: the argument list holds the key's flag followed directly
/// by the number as written.
pub proof fn json_numbers_are_passed_on(v: JsonValue, argv: Seq<Seq<char>>, e: int)
    requires
        json_argv(v) == Some(argv),
        v is Object,
        0 <= e < v->Object_0@.len(),
        v->Object_0@[e].1 is Number,
        v->Object_0@[e].0@ != "cmd"@,
        v->Object_0@[e].0@ != "args"@,
    ensures
        exists|i: int|
            0 <= i && i + 1 < argv.len() && #[trigger] argv[i] == flag_name(v->Object_0@[e].0@) && argv[i + 1]
                == v->Object_0@[e].1->Number_0@,
{
    let entries = v->Object_0@;
    lemma_entry_in_args(entries, e);
    let ea = entry_args(entries[e].0@, entries[e].1);
    let ea_all = entries_args(entries);
    let off = choose|off: int|
        0 <= off && off + ea.len() <= ea_all.len() && #[trigger] ea_all.subrange(off, off + ea.len()) == ea;
    let cmd = find_key(entries, "cmd"@)->0->Str_0;
    let pos = match find_key(entries, "args"@) {
        Some(JsonValue::Array(items)) => positional_args(items@),
        _ => Seq::<Seq<char>>::empty(),
    };
    assert(argv == seq![cmd@] + pos + ea_all);
    let i = 1 + pos.len() + off;
    assert(ea.len() == 2);
    assert(argv[i] == ea_all[off]);
    assert(ea_all[off] == ea_all.subrange(off, off + 2)[0]);
    assert(argv[i + 1] == ea_all[off + 1]);
    assert(ea_all[off + 1] == ea_all.subrange(off, off + 2)[1]);
}

/// Expands a JSON payload into an argument list.
pub fn parse_json_payload_to_argv(value: &JsonValue) -> (r: ApiResult<Vec<String>>)
    ensures
        match json_argv(*value) {
            Some(a) => r matches Ok(v) && strs(v@) == a,
            None => r matches Err(e) && e.code == ErrorCode::InvalidJson,
        },
{
    match value {
        JsonValue::Array(items) => {
            let mut i: usize = 0;
            let ghost expected = json_argv(*value);
            assert(expected == (if all_strings(items@) {
                Some(positional_args(items@))
            } else {
                None
            }));
            while i < items.len()
                invariant
                    i <= items@.len(),
                    expected == json_argv(*value),
                    expected == (if all_strings(items@) {
                        Some(positional_args(items@))
                    } else {
                        None
                    }),
                    forall|k: int| 0 <= k < i ==> items@[k] is Str,
                decreases items@.len() - i,
            {
                match &items[i] {
                    JsonValue::Str(_) => {},
                    _ => {
                        return Err(
                            ApiError::with_text(
                                ErrorCode::InvalidJson,
                                "JSON array payload must contain only strings",
                            ),
                        );
                    },
                }
                i = i + 1;
            }
            let mut argv: Vec<String> = Vec::new();
            push_positional(&mut argv, items);
            assert(strs(argv@) =~= positional_args(items@));
            Ok(argv)
        },
        JsonValue::Object(entries) => {
            let cmd = match find_entry(entries, "cmd") {
                Some(JsonValue::Str(c)) => c.clone(),
                _ => {
                    return Err(
                        ApiError::with_text(
                            ErrorCode::InvalidJson,
                            "JSON object payload requires a string `cmd`",
                        ),
                    );
                },
            };
            let mut argv: Vec<String> = Vec::new();
            argv.push(cmd);
            match find_entry(entries, "args") {
                Some(JsonValue::Array(items)) => {
                    push_positional(&mut argv, items);
                },
                _ => {},
            }
            let ghost head = strs(argv@);
            let mut i: usize = 0;
            while i < entries.len()
                invariant
                    i <= entries@.len(),
                    strs(argv@) == head + entries_args(entries@.take(i as int)),
                decreases entries@.len() - i,
            {
                assert(entries@.take(i + 1).drop_last() =~= entries@.take(i as int));
                let kc = chars_of(entries[i].0.as_str());
                if !eq_str(&kc, "cmd") && !eq_str(&kc, "args") {
                    push_entry(&mut argv, &entries[i].0, &entries[i].1);
                }
                i = i + 1;
                assert(strs(argv@) =~= head + entries_args(entries@.take(i as int)));
            }
            assert(entries@.take(entries@.len() as int) =~= entries@);
            Ok(argv)
        },
        _ => Err(
            ApiError::with_text(ErrorCode::InvalidJson, "JSON payload must be an object or array"),
        ),
    }
}

} // verus!
