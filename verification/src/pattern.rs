//! Regular expressions, through the `regex` crate.

use vstd::prelude::*;
use regex::Regex;

verus! {

/// `regex::Regex`, a compiled regular expression; opaque here.
#[verifier::external_type_specification]
#[verifier::external_body]
pub struct ExRegex(regex::Regex);

/// The pattern text a compiled regex was built from (what `Regex::as_str`
/// returns).
pub uninterp spec fn regex_source(re: Regex) -> Seq<char>;

/// Why `Regex::new` refuses a pattern, as the text of its error; `None` when
/// it compiles the pattern.
pub uninterp spec fn regex_compile_error(pattern: Seq<char>) -> Option<Seq<char>>;

/// Whether the regex written `pattern` matches somewhere in `text`, as
/// `Regex::is_match` decides.
pub uninterp spec fn regex_finds_match(pattern: Seq<char>, text: Seq<char>) -> bool;

/// A compiled skip pattern: a regex that `Regex::new` built from a pattern
/// text, with the default options. Its field is private, so `compile_regex`
/// is the only way to make one.
pub struct SkipPattern {
    re: Regex,
}

impl SkipPattern {
    /// The pattern text it was compiled from.
    pub closed spec fn source(&self) -> Seq<char> {
        regex_source(self.re)
    }
}

/// Trusted: `Regex::new`. Its outcome is named `regex_compile_error`; a
/// compiled regex keeps its pattern text (`Regex::as_str`); the error is
/// converted to its `Display` text.
#[verifier::external_body]
fn compile_regex(pattern: &str) -> (res: Result<SkipPattern, String>)
    ensures
        res matches Ok(r) ==> regex_compile_error(pattern@) is None && regex_source(r.re) == pattern@,
        res matches Err(m) ==> regex_compile_error(pattern@) == Some(m@),
{
    match Regex::new(pattern) {
        Ok(re) => Ok(SkipPattern { re }),
        Err(e) => Err(e.to_string()),
    }
}

/// Trusted: `Regex::is_match` on a pattern compiled by `compile_regex`, named
/// `regex_finds_match` over the pattern's text. Every such regex was built
/// by `Regex::new` with the default options, so its text decides how it
/// matches.
#[verifier::external_body]
fn regex_is_match(re: &SkipPattern, text: &str) -> (b: bool)
    ensures
        b == regex_finds_match(regex_source(re.re), text@),
{
    re.re.is_match(text)
}

/// Compiles a skip pattern; refused with the compiler's message exactly
/// when `Regex::new` refuses it.
pub fn compile_pattern(pattern: &str) -> (res: Result<SkipPattern, String>)
    ensures
        res matches Ok(r) ==> regex_compile_error(pattern@) is None && r.source() == pattern@,
        res matches Err(m) ==> regex_compile_error(pattern@) == Some(m@),
{
    compile_regex(pattern)
}

impl SkipPattern {
    /// Whether the pattern matches somewhere in `text`.
    pub fn is_match(&self, text: &str) -> (b: bool)
        ensures
            b == regex_finds_match(self.source(), text@),
    {
        regex_is_match(self, text)
    }
}

} // verus!
