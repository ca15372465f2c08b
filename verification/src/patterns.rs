//! Regular expressions, through the `regex` crate.
use vstd::prelude::*;

verus! {

/// Whether `regex::Regex::new` accepts `pattern`: its syntax and the crate's
/// default size limit decide, and nothing else.
pub uninterp spec fn regex_is_valid(pattern: Seq<char>) -> bool;

/// What `Regex::replace` gives back for the regex built from `pattern`:
/// `text` with its leftmost-first match replaced by `rep` (the `$`
/// references in `rep` expanded), or `text` itself when nothing matches.
pub uninterp spec fn regex_replace(pattern: Seq<char>, text: Seq<char>, rep: Seq<char>) -> Seq<
    char,
>;

/// What `Regex::is_match` gives back for the regex built from `pattern`:
/// whether some part of `text` matches it.
pub uninterp spec fn regex_matches(pattern: Seq<char>, text: Seq<char>) -> bool;

/// Builds the regex of `pattern` with `regex::Regex::new` and, when that
/// succeeds, replaces its first match in `text` by `rep` with
/// `Regex::replace`. The compiled regex does not leave this function, since
/// nothing can be said of it as a value. Trusted: the result is `None`
/// exactly when the pattern is refused, and otherwise the replaced text, as
/// the named results say; what they are on given values is not stated.
#[verifier::external_body]
pub(crate) fn replace_first_match(pattern: &str, text: &str, rep: &str) -> (r: Option<String>)
    ensures
        r is Some <==> regex_is_valid(pattern@),
        r matches Some(t) ==> t@ == regex_replace(pattern@, text@, rep@),
{
    match regex::Regex::new(pattern) {
        Ok(re) => Some(re.replace(text, rep).into_owned()),
        Err(_) => None,
    }
}

/// Builds the regex of `pattern` with `regex::Regex::new` and, when that
/// succeeds, tells with `Regex::is_match` whether it matches in `text`.
/// Trusted: the result is `None` exactly when the pattern is refused, and
/// otherwise the named result of the match; what that is on given values is
/// not stated.
#[verifier::external_body]
pub(crate) fn pattern_is_found(pattern: &str, text: &str) -> (r: Option<bool>)
    ensures
        r is Some <==> regex_is_valid(pattern@),
        r matches Some(b) ==> b == regex_matches(pattern@, text@),
{
    match regex::Regex::new(pattern) {
        Ok(re) => Some(re.is_match(text)),
        Err(_) => None,
    }
}

} // verus!
