//! Regular expressions, compiled and run by the `regex` crate.
use crate::error::{ApiError, ApiResult, ErrorCode};
use regex::{Regex, RegexBuilder};
use vstd::prelude::*;

verus! {

#[verifier::external_type_specification]
#[verifier::external_body]
pub struct ExRegex(Regex);

/// What building a regex from a pattern gives: success, or the error's text.
pub uninterp spec fn regex_build(pattern: Seq<char>, ignore_case: bool) -> Result<(), Seq<char>>;

/// Whether the regex of a pattern matches somewhere in a text.
pub uninterp spec fn regex_is_match(pattern: Seq<char>, ignore_case: bool, text: Seq<char>) -> bool;

/// A text with every match of a pattern's regex removed.
pub uninterp spec fn regex_removed(pattern: Seq<char>, ignore_case: bool, text: Seq<char>) -> Seq<
    char,
>;

/// A compiled regex, together with the pattern and case option it was
/// built from.
pub struct SearchRegex {
    re: Regex,
    pattern: Ghost<Seq<char>>,
    ignore_case: Ghost<bool>,
}

impl SearchRegex {
    pub closed spec fn pattern(&self) -> Seq<char> {
        self.pattern@
    }

    pub closed spec fn ignore_case(&self) -> bool {
        self.ignore_case@
    }

    /// Whether the regex matches somewhere in `text`.
    pub fn is_match(&self, text: &str) -> (r: bool)
        ensures
            r == regex_is_match(self.pattern(), self.ignore_case(), text@),
    {
        regex_find(self, text)
    }

    /// `text` with every match removed.
    pub fn remove_all(&self, text: &str) -> (r: String)
        ensures
            r@ == regex_removed(self.pattern(), self.ignore_case(), text@),
    {
        regex_replace_empty(self, text)
    }
}

/// Builds a regex with `RegexBuilder::new(..).case_insensitive(..).build()`,
/// which succeeds or fails according to the pattern and the option alone;
/// the error is turned into its text.
#[verifier::external_body]
fn regex_build_call(pattern: &str, ignore_case: bool) -> (r: Result<SearchRegex, String>)
    ensures
        match r {
            Ok(re) => regex_build(pattern@, ignore_case) is Ok && re.pattern() == pattern@
                && re.ignore_case() == ignore_case,
            Err(m) => regex_build(pattern@, ignore_case) == Err::<(), Seq<char>>(m@),
        },
{
    match RegexBuilder::new(pattern).case_insensitive(ignore_case).build() {
        Ok(re) => Ok(SearchRegex { re, pattern: Ghost(pattern@), ignore_case: Ghost(ignore_case) }),
        Err(e) => Err(e.to_string()),
    }
}

/// `Regex::is_match`: whether the regex matches somewhere in `text`.
#[verifier::external_body]
fn regex_find(re: &SearchRegex, text: &str) -> (r: bool)
    ensures
        r == regex_is_match(re.pattern(), re.ignore_case(), text@),
{
    re.re.is_match(text)
}

/// `Regex::replace_all` with an empty replacement.
#[verifier::external_body]
fn regex_replace_empty(re: &SearchRegex, text: &str) -> (r: String)
    ensures
        r@ == regex_removed(re.pattern(), re.ignore_case(), text@),
{
    re.re.replace_all(text, "").into_owned()
}

/// The characters `regex::escape` puts a backslash before.
pub open spec fn is_meta_character(c: char) -> bool {
    c == '\\' || c == '.' || c == '+' || c == '*' || c == '?' || c == '(' || c == ')' || c == '|'
        || c == '[' || c == ']' || c == '{' || c == '}' || c == '^' || c == '$' || c == '#' || c
        == '&' || c == '-' || c == '~'
}

/// What `regex::escape` returns: the text with a backslash before every meta
/// character.
pub open spec fn escaped(s: Seq<char>) -> Seq<char>
    decreases s.len(),
{
    if s.len() == 0 {
        Seq::empty()
    } else {
        escaped(s.drop_last()) + if is_meta_character(s.last()) {
            seq!['\\', s.last()]
        } else {
            seq![s.last()]
        }
    }
}

/// `regex::escape`.
#[verifier::external_body]
fn regex_escape(pattern: &str) -> (r: String)
    ensures
        r@ == escaped(pattern@),
{
    regex::escape(pattern)
}

/// Builds a regex from a pattern, as `Regex::new` does when `ignore_case` is
/// false.
pub fn build_regex(pattern: &str, ignore_case: bool) -> (r: Result<SearchRegex, String>)
    ensures
        match r {
            Ok(re) => regex_build(pattern@, ignore_case) is Ok && re.pattern() == pattern@
                && re.ignore_case() == ignore_case,
            Err(m) => regex_build(pattern@, ignore_case) == Err::<(), Seq<char>>(m@),
        },
{
    regex_build_call(pattern, ignore_case)
}

/// The pattern a search compiles: the text itself, or with `fixed_strings`
/// the text with its meta characters escaped.
pub open spec fn search_pattern(pattern: Seq<char>, fixed_strings: bool) -> Seq<char> {
    if fixed_strings {
        escaped(pattern)
    } else {
        pattern
    }
}

/// Compiles the regex of a `grep` or `wait` pattern.
pub fn compile_search_regex(pattern: &str, ignore_case: bool, fixed_strings: bool) -> (r: ApiResult<
    SearchRegex,
>)
    ensures
        match regex_build(search_pattern(pattern@, fixed_strings), ignore_case) {
            Ok(_) => r matches Ok(re) && re.pattern() == search_pattern(pattern@, fixed_strings)
                && re.ignore_case() == ignore_case,
            Err(m) => r matches Err(e) && e.code == ErrorCode::InvalidRegex && e.message@
                == "Invalid regex pattern: "@ + m,
        },
{
    let p = if fixed_strings {
        regex_escape(pattern)
    } else {
        String::from_str(pattern)
    };
    match build_regex(p.as_str(), ignore_case) {
        Ok(re) => Ok(re),
        Err(m) => {
            let mut msg = String::from_str("Invalid regex pattern: ");
            msg.append(m.as_str());
            Err(ApiError::new(ErrorCode::InvalidRegex, msg))
        },
    }
}

/// The escape sequences `strip_ansi_sequences` removes: operating system
/// commands first, then control sequences.
pub open spec fn ansi_osc_pattern() -> Seq<char> {
    "\\x1b\\][^\\x07]*(?:\\x07|\\x1b\\\\\\\\)"@
}

pub open spec fn ansi_csi_pattern() -> Seq<char> {
    "\\x1b\\[[0-?]*[ -/]*[@-~]"@
}

/// The two regexes that strip terminal escape sequences.
pub struct AnsiStripper {
    osc: SearchRegex,
    csi: SearchRegex,
}

impl AnsiStripper {
    pub closed spec fn wf(&self) -> bool {
        &&& self.osc.pattern() == ansi_osc_pattern()
        &&& !self.osc.ignore_case()
        &&& self.csi.pattern() == ansi_csi_pattern()
        &&& !self.csi.ignore_case()
    }

    /// Compiles both regexes; `None` only if one of them does not build.
    pub fn new() -> (r: Option<AnsiStripper>)
        ensures
            r matches Some(s) ==> s.wf(),
            r is Some <==> (regex_build(ansi_osc_pattern(), false) is Ok && regex_build(
                ansi_csi_pattern(),
                false,
            ) is Ok),
    {
        let osc = match build_regex("\\x1b\\][^\\x07]*(?:\\x07|\\x1b\\\\\\\\)", false) {
            Ok(re) => re,
            Err(_) => return None,
        };
        let csi = match build_regex("\\x1b\\[[0-?]*[ -/]*[@-~]", false) {
            Ok(re) => re,
            Err(_) => return None,
        };
        Some(AnsiStripper { osc, csi })
    }

    pub fn strip(&self, input: &str) -> (r: String)
        requires
            self.wf(),
        ensures
            r@ == ansi_stripped(input@),
    {
        let without_osc = self.osc.remove_all(input);
        self.csi.remove_all(without_osc.as_str())
    }
}

/// A line with its terminal escape sequences removed.
pub open spec fn ansi_stripped(s: Seq<char>) -> Seq<char> {
    regex_removed(ansi_csi_pattern(), false, regex_removed(ansi_osc_pattern(), false, s))
}

} // verus!
