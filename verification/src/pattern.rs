//! The one door to the regular-expression engine. Nothing is proved about
//! the engine itself: `parse` is believed to return what `captures_of`
//! names. What the library needs of a match it tests on the result.

use vstd::prelude::*;

verus! {

/// What the regular expression `pattern` captures in `text`: the texts of
/// its first and second capture group in the first match, or `None` when
/// the pattern does not compile or matches nowhere in `text`. A group that
/// took no part in the match counts as the empty text.
pub uninterp spec fn captures_of(pattern: Seq<char>, text: Seq<char>) -> Option<(Seq<char>, Seq<char>)>;

/// Compiles `pattern` with `regex::Regex::new` and searches `syntax` with
/// `Regex::captures`, reading groups 1 and 2 through `Captures::get` and
/// `Match::as_str`. The contract claims only that the outcome is the one
/// named by `captures_of` for this pattern and this text.
#[verifier::external_body]
pub(crate) fn parse<'a>(pattern: &str, syntax: &'a str) -> (found: Option<(&'a str, &'a str)>)
    ensures
        found is Some <==> captures_of(pattern@, syntax@) is Some,
        found matches Some(groups) ==> captures_of(pattern@, syntax@) == Some((groups.0@, groups.1@)),
{
    match regex::Regex::new(pattern) {
        Ok(re) => match re.captures(syntax) {
            Some(caps) => Some((
                match caps.get(1) { Some(group) => group.as_str(), None => "" },
                match caps.get(2) { Some(group) => group.as_str(), None => "" },
            )),
            None => None,
        },
        Err(_) => None,
    }
}

} // verus!
