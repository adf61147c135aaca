//! The regular-expression engine, as far as the detectors use it.

use regex::Regex;
use vstd::prelude::*;

verus! {

#[verifier::external_type_specification]
#[verifier::external_body]
pub struct ExRegex(regex::Regex);

#[verifier::external_type_specification]
#[verifier::external_body]
pub struct ExRegexError(regex::Error);

/// The pattern text from which `Regex::new` compiled an expression, which
/// is what `Regex::as_str` hands back. Every expression of this library is
/// compiled by `Regex::new`.
pub uninterp spec fn regex_source(re: Regex) -> Seq<char>;

/// Whether `Regex::new` accepts `pattern`: it is valid, and what it
/// compiles to is within the default size limit.
pub uninterp spec fn pattern_compiles(pattern: Seq<char>) -> bool;

/// The number of successive non-overlapping matches that `Regex::find_iter`
/// yields on `haystack` for the expression that `Regex::new` compiles from
/// `pattern`.
pub uninterp spec fn match_count(pattern: Seq<char>, haystack: Seq<char>) -> nat;

/// `Regex::new`: compiling depends on the pattern text alone, and the
/// compiled expression remembers the text it was built from.
pub assume_specification[ Regex::new ](re: &str) -> (r: Result<Regex, regex::Error>)
    ensures
        r is Ok <==> pattern_compiles(re@),
        r matches Ok(compiled) ==> regex_source(compiled) == re@,
;

/// `Regex::find_iter` followed by `count`, for an expression compiled by
/// `Regex::new`: the number of matches is a function of the pattern text
/// and the haystack.
#[verifier::external_body]
pub(crate) fn count_matches(re: &Regex, content: &str) -> (n: usize)
    ensures
        n as nat == match_count(regex_source(*re), content@),
{
    re.find_iter(content).count()
}

} // verus!
