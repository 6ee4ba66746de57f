//! Calls into the `regex` crate, with their results named.

use vstd::prelude::*;

verus! {

/// Whether `regex` finds a match of `pattern` in `hay`, or `None` when the
/// pattern does not compile.
pub uninterp spec fn regex_matches(pattern: Seq<char>, hay: Seq<char>) -> Option<bool>;

/// `hay` with every non-overlapping match of `pattern` replaced by `rep` as
/// `regex` does it, or `None` when the pattern does not compile.
pub uninterp spec fn regex_replaced(pattern: Seq<char>, hay: Seq<char>, rep: Seq<char>) -> Option<Seq<char>>;

/// Relies on `regex::Regex::new` and `Regex::is_match`.
#[verifier::external_body]
pub(crate) fn regex_is_match(pattern: &str, hay: &str) -> (r: Option<bool>)
    ensures
        r == regex_matches(pattern@, hay@),
{
    regex::Regex::new(pattern).ok().map(|re| re.is_match(hay))
}

/// Relies on `regex::Regex::new` and `Regex::replace_all`.
#[verifier::external_body]
pub(crate) fn regex_replace_all(pattern: &str, hay: &str, rep: &str) -> (r: Option<String>)
    ensures
        match regex_replaced(pattern@, hay@, rep@) {
            Some(t) => r is Some && r->0@ == t,
            None => r is None,
        },
{
    regex::Regex::new(pattern).ok().map(|re| re.replace_all(hay, rep).into_owned())
}

} // verus!
