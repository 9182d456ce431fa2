use vstd::prelude::*;

use regex::Regex;

verus! {

#[verifier::external_type_specification]
#[verifier::external_body]
pub struct ExRegex(Regex);

/// Whether `regex::Regex::new` accepts a pattern (it refuses invalid
/// patterns and those over its default size limit).
pub uninterp spec fn regex_compiles(pattern: Seq<char>) -> bool;

/// Whether the regular expression compiled from `pattern` matches anywhere
/// in `haystack`, as `regex::Regex::is_match` reports it.
pub uninterp spec fn regex_finds(pattern: Seq<char>, haystack: Seq<char>) -> bool;

/// A compiled regular expression together with the pattern it was compiled
/// from. Only `compile` builds one, so `compiled` always comes from `source`.
pub struct Matcher {
    source: String,
    compiled: Regex,
}

impl Matcher {
    /// The pattern this matcher was compiled from.
    pub closed spec fn pattern(&self) -> Seq<char> {
        self.source@
    }
}

/// Calls `regex::Regex::new`. Claimed: it succeeds exactly where the pattern
/// compiles (a function of the pattern alone), and the matcher keeps the
/// pattern it was given.
#[verifier::external_body]
pub(crate) fn compile(pattern: &str) -> (r: Option<Matcher>)
    ensures
        r is Some <==> regex_compiles(pattern@),
        r matches Some(m) ==> m.pattern() == pattern@,
{
    match Regex::new(pattern) {
        Ok(compiled) => Some(Matcher { source: pattern.to_string(), compiled }),
        Err(_) => None,
    }
}

/// Calls `regex::Regex::is_match`. Claimed: the answer is whether the
/// matcher's pattern matches somewhere in the haystack, a function of the
/// pattern and the haystack alone.
#[verifier::external_body]
pub(crate) fn find(m: &Matcher, haystack: &str) -> (r: bool)
    ensures
        r == regex_finds(m.pattern(), haystack@),
{
    m.compiled.is_match(haystack)
}

} // verus!
