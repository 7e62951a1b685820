//! Pattern matching, delegated to the `regex` crate.
//!
//! A compiled `regex::Regex` is opaque here; what it was compiled from and
//! what it matches are named by uninterpreted spec functions, and every
//! contract above this module speaks only through those names.

use vstd::prelude::*;

verus! {

#[verifier::external_type_specification]
#[verifier::external_body]
pub struct ExRegex(regex::Regex);

#[verifier::external_type_specification]
#[verifier::external_body]
pub struct ExRegexError(regex::Error);

/// Whether `regex::Regex::new` accepts `pat`: a syntactically valid
/// expression whose compiled form stays under the crate's default size
/// limit.  This depends on the pattern text alone.
pub uninterp spec fn valid_pattern(pat: Seq<char>) -> bool;

/// The pattern text a compiled regex was built from.
pub uninterp spec fn pattern_of(re: regex::Regex) -> Seq<char>;

/// Whether the regex compiled from `pat` matches anywhere in `text`.
/// `regex::Regex::is_match` is deterministic in the pattern and the
/// haystack alone.
pub uninterp spec fn pattern_matches(pat: Seq<char>, text: Seq<char>) -> bool;

/// What `str::to_lowercase` returns: a function of the characters alone.
pub uninterp spec fn lower_of(s: Seq<char>) -> Seq<char>;

/// Relies on `regex::Regex::new`: returns `Ok` exactly on the patterns it
/// accepts (valid syntax, default size limit), and the compiled regex is
/// built from the given pattern.
#[verifier::external_body]
pub(crate) fn regex_new(pattern: &str) -> (r: Result<regex::Regex, regex::Error>)
    ensures
        r is Ok <==> valid_pattern(pattern@),
        r is Ok ==> pattern_of(r->Ok_0) == pattern@,
{
    regex::Regex::new(pattern)
}

/// Relies on `regex::Regex::is_match`: true if and only if the regex
/// matches anywhere in the haystack.
#[verifier::external_body]
pub(crate) fn regex_is_match(re: &regex::Regex, haystack: &str) -> (r: bool)
    ensures
        r == pattern_matches(pattern_of(*re), haystack@),
{
    re.is_match(haystack)
}

/// Relies on `str::to_lowercase`: the result depends on the characters
/// alone.
#[verifier::external_body]
pub(crate) fn lowercase(s: &str) -> (r: String)
    ensures
        r@ == lower_of(s@),
{
    s.to_lowercase()
}

/// The matching rule for one candidate line: the pattern (compiled from the
/// original, un-lowered query) is tried against the line itself, or against
/// its lower-cased form when `ignore_case` is set.
pub open spec fn line_matches(pat: Seq<char>, line: Seq<char>, ignore_case: bool) -> bool {
    if ignore_case {
        pattern_matches(pat, lower_of(line))
    } else {
        pattern_matches(pat, line)
    }
}

} // verus!
