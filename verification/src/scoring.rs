//! Match quality, as graded by nucleo's fuzzy matcher.

use nucleo::pattern::{Atom, AtomKind, CaseMatching, Normalization};
use vstd::prelude::*;

verus! {

/// `nucleo::Matcher`, the matcher of nucleo with its scratch memory, taken as
/// an opaque value.
#[verifier::external_type_specification]
#[verifier::external_body]
pub struct ExMatcher(nucleo::Matcher);

/// The longest pattern, in characters, that is handed to nucleo for a score.
///
/// nucleo sums its score in sixteen bits, at most 36 points for the first
/// matched character and 26 for each further one; patterns up to this length
/// keep that sum in range.
pub const MAX_SCORED_PATTERN: usize = 1024;

/// The longest key, in characters, that is handed to nucleo for a score.
///
/// nucleo refuses a key of more than `u32::MAX` units, which are bytes or
/// characters as it sees fit; a key of this many characters has fewer bytes
/// than that.
pub const MAX_SCORED_KEY: usize = 0x3fff_ffff;

/// What `Atom::score` of nucleo returns for the literal fuzzy atom made of
/// `pattern`, matched against `key` with case ignored, smart normalization
/// and nucleo's default configuration.
pub uninterp spec fn fuzzy_score(pattern: Seq<char>, key: Seq<char>) -> Option<u16>;

/// The quality of the match of `pattern` in `key`: nothing for the empty
/// pattern, nucleo's score where it gives one, and nothing for a pattern or
/// a key too long to be graded.
///
/// The score is nucleo's grade and follows nucleo's weights. It does not
/// fall as the pattern grows: nucleo adds points for every character it
/// matches, so a longer pattern that still matches scores more than a
/// shorter one, and any match scores at least as much as the empty pattern.
/// What narrows with a longer pattern is the set of matches, not the score.
pub open spec fn raw_score(pattern: Seq<char>, key: Seq<char>) -> u16 {
    if pattern.len() == 0 || pattern.len() > MAX_SCORED_PATTERN || key.len() > MAX_SCORED_KEY {
        0
    } else {
        match fuzzy_score(pattern, key) {
            Some(score) => score,
            None => 0,
        }
    }
}

/// `nucleo::Matcher::new` with `nucleo::Config::DEFAULT`: a matcher with its
/// scratch memory. Nothing is claimed of it.
#[verifier::external_body]
pub(crate) fn new_matcher() -> nucleo::Matcher {
    nucleo::Matcher::new(nucleo::Config::DEFAULT)
}

/// `nucleo::pattern::Atom::new` followed by `Atom::score`, with the key
/// handed over by `nucleo::Utf32Str::new`: `pattern` is taken literally as
/// one fuzzy atom and graded against `key`. The result depends on the two
/// texts alone; `matcher` lends its scratch memory and has the atom's case
/// and normalization settings written into it. The bounds keep nucleo clear
/// of its length assertion and of overflow in its score.
#[verifier::external_body]
pub(crate) fn score_with(matcher: &mut nucleo::Matcher, pattern: &str, key: &str) -> (score:
    Option<u16>)
    requires
        pattern@.len() <= MAX_SCORED_PATTERN,
        key@.len() <= MAX_SCORED_KEY,
    ensures
        score == fuzzy_score(pattern@, key@),
{
    let atom = Atom::new(
        pattern,
        CaseMatching::Ignore,
        Normalization::Smart,
        AtomKind::Fuzzy,
        false,
    );
    let mut buffer = Vec::new();
    atom.score(nucleo::Utf32Str::new(key, &mut buffer), matcher)
}

/// Computes `raw_score`; `key_len` and `pattern_len` are the lengths of the
/// two texts in characters.
pub(crate) fn grade(
    matcher: &mut nucleo::Matcher,
    pattern: &str,
    pattern_len: usize,
    key: &str,
    key_len: usize,
) -> (score: u16)
    requires
        pattern_len == pattern@.len(),
        key_len == key@.len(),
    ensures
        score == raw_score(pattern@, key@),
{
    if pattern_len == 0 || pattern_len > MAX_SCORED_PATTERN || key_len > MAX_SCORED_KEY {
        0
    } else {
        match score_with(matcher, pattern, key) {
            Some(score) => score,
            None => 0,
        }
    }
}

} // verus!
