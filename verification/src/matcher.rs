//! The multi-pattern searcher the secret filter runs: an
//! `aho_corasick::AhoCorasick` automaton, reached through trusted items.

use vstd::prelude::*;
use vstd::utf8::encode_utf8;
use aho_corasick::{AhoCorasick, BuildError};

verus! {

/// `needle` stands in `hay` starting at position `i`.
pub open spec fn occurs_at<T>(needle: Seq<T>, hay: Seq<T>, i: int) -> bool {
    0 <= i && i + needle.len() <= hay.len() && hay.subrange(i, i + needle.len()) == needle
}

/// `needle` stands somewhere in `hay`.
pub open spec fn occurs_in<T>(needle: Seq<T>, hay: Seq<T>) -> bool {
    exists|i: int| occurs_at(needle, hay, i)
}

/// Declares `aho_corasick::AhoCorasick`; its contents are opaque and are
/// spoken of through `ac_patterns`.
#[verifier::external_type_specification]
#[verifier::external_body]
pub struct ExAhoCorasick(AhoCorasick);

/// Declares `aho_corasick::BuildError`, carried through unchanged.
#[verifier::external_type_specification]
#[verifier::external_body]
pub struct ExBuildError(BuildError);

/// The patterns an automaton searches for, as bytes, indexed by pattern id.
pub uninterp spec fn ac_patterns(ac: AhoCorasick) -> Seq<Seq<u8>>;

/// The automaton was built by `build_matcher`: case-sensitive, standard
/// match semantics, unanchored searches.
pub uninterp spec fn ac_standard(ac: AhoCorasick) -> bool;

/// Whether `AhoCorasickBuilder::build`, configured as `build_matcher` does,
/// succeeds on these patterns (it fails only when the patterns exceed the
/// crate's state or pattern id limits, which depends on the patterns alone).
pub uninterp spec fn ac_builds(patterns: Seq<Seq<u8>>) -> bool;

/// What `AhoCorasick::find` reports, as `(pattern id, start, end)`, for an
/// automaton built by `build_matcher` from `patterns`, searching
/// `haystack`.
pub uninterp spec fn ac_find(patterns: Seq<Seq<u8>>, haystack: Seq<u8>) -> Option<(usize, usize, usize)>;

/// `AhoCorasick`'s derived `clone` shares the built automaton and copies its
/// settings, so the copy holds the same patterns and configuration.
pub assume_specification[ <AhoCorasick as Clone>::clone ](ac: &AhoCorasick) -> (res: AhoCorasick)
    ensures
        ac_patterns(res) == ac_patterns(*ac),
        ac_standard(res) == ac_standard(*ac),
;

/// Calls `AhoCorasick::builder().ascii_case_insensitive(false).build(..)`.
/// Trusted: the build succeeds exactly when `ac_builds` holds of the
/// patterns' UTF-8 bytes (a function of the patterns alone, since the
/// builder's settings are fixed here); on success the automaton holds
/// exactly the given patterns, with pattern id `i` for the `i`-th one (the
/// crate assigns ids in iteration order), and is configured as
/// `ac_standard` says.
#[verifier::external_body]
pub(crate) fn build_matcher(patterns: &Vec<String>) -> (res: Result<AhoCorasick, BuildError>)
    ensures
        res is Ok <==> ac_builds(patterns@.map_values(|p: String| encode_utf8(p@))),
        res matches Ok(ac) ==> ac_patterns(ac) == patterns@.map_values(|p: String| encode_utf8(p@))
            && ac_standard(ac),
{
    AhoCorasick::builder().ascii_case_insensitive(false).build(patterns.iter().map(|p| p.as_str()))
}

/// Calls `AhoCorasick::find` on a string haystack (default, unanchored,
/// standard match semantics) and returns the match as
/// `(pattern id, start, end)` byte offsets.
/// Trusted: for an automaton from `build_matcher` the result is a function
/// of its patterns and the haystack's bytes, named `ac_find`; there is no
/// match exactly when none of the automaton's patterns occurs in the
/// haystack's bytes; a reported match names a pattern that occurs at
/// `start..end`. `find` only panics for anchored searches, which this
/// automaton is not configured for.
#[verifier::external_body]
pub(crate) fn find_first(ac: &AhoCorasick, haystack: &str) -> (res: Option<(usize, usize, usize)>)
    requires
        ac_standard(*ac),
    ensures
        res == ac_find(ac_patterns(*ac), encode_utf8(haystack@)),
        res is None <==> (forall|p: int|
            0 <= p < ac_patterns(*ac).len() ==> !occurs_in(
                #[trigger] ac_patterns(*ac)[p],
                encode_utf8(haystack@),
            )),
        res matches Some(m) ==> {
            &&& m.0 < ac_patterns(*ac).len()
            &&& m.1 + ac_patterns(*ac)[m.0 as int].len() == m.2
            &&& occurs_at(ac_patterns(*ac)[m.0 as int], encode_utf8(haystack@), m.1 as int)
        },
{
    match ac.find(haystack) {
        Some(m) => Some((m.pattern().as_usize(), m.start(), m.end())),
        None => None,
    }
}

} // verus!
