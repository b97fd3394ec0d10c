//! Regular expressions, as far as the history search needs them.

use regex::Regex;
use vstd::prelude::*;

verus! {

/// `regex::Regex`, a compiled pattern: carried through, never looked into.
#[verifier::external_type_specification]
#[verifier::external_body]
pub struct ExRegex(regex::Regex);

/// `regex::Error`, why a pattern did not compile: never looked into.
#[verifier::external_type_specification]
#[verifier::external_body]
pub struct ExRegexError(regex::Error);

/// What `Regex::is_match` returns: whether the compiled pattern `re`
/// matches anywhere in `haystack`. It is named over the compiled value,
/// since how a pattern was compiled bears on what it matches.
pub uninterp spec fn regex_is_match(re: Regex, haystack: Seq<char>) -> bool;

/// What a regex that `Regex::new` made of `pattern` answers to `haystack`.
pub uninterp spec fn regex_matches(pattern: Seq<char>, haystack: Seq<char>) -> bool;

/// `Regex::new` compiles `re` with the compiler's default settings.
/// Trusted: what a regex that it hands back matches depends on `re` and
/// the haystack alone. Nothing is claimed of when it succeeds: that
/// depends on a size limit as well as on the pattern.
pub assume_specification[ Regex::new ](re: &str) -> (r: Result<Regex, regex::Error>)
    ensures
        r matches Ok(compiled) ==> forall|haystack: Seq<char>| #[trigger]
            regex_is_match(compiled, haystack) == regex_matches(re@, haystack),
;

/// `Regex::is_match` searches `haystack`. Trusted: the answer depends on
/// the compiled pattern and the haystack alone.
pub assume_specification[ Regex::is_match ](re: &Regex, haystack: &str) -> (found: bool)
    ensures
        found == regex_is_match(*re, haystack@),
;

} // verus!
