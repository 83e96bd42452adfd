//! The bindings to the regex engine. A compiled `regex::Regex` is opaque
//! here; what it holds is named by `re_source`, and what compiling and
//! matching return are named by `re_valid` and `re_match`. Everything the
//! crate proves about matching goes through these three names.

use vstd::prelude::*;

verus! {

#[verifier::external_type_specification]
#[verifier::external_body]
pub struct ExRegex(regex::Regex);

/// The pattern source that a compiled `regex::Regex` was built from.
pub uninterp spec fn re_source(re: regex::Regex) -> Seq<char>;

/// Whether `regex::Regex::new` accepts `pattern` as a valid expression.
pub uninterp spec fn re_valid(pattern: Seq<char>) -> bool;

/// Whether the expression compiled from `pattern` matches somewhere in
/// `target`. Matching is a function of the two strings alone.
pub uninterp spec fn re_match(pattern: Seq<char>, target: Seq<char>) -> bool;

/// Relies on `regex::Regex::new`: it returns `Ok` exactly on the patterns
/// it accepts, and the compiled value keeps the pattern it was built from.
#[verifier::external_body]
pub(crate) fn regex_new(src: &str) -> (r: Option<regex::Regex>)
    ensures
        r is Some <==> re_valid(src@),
        r matches Some(re) ==> re_source(re) == src@,
{
    regex::Regex::new(src).ok()
}

/// Relies on `regex::Regex::is_match`: it reports whether the compiled
/// expression matches anywhere in `target`, a function of the pattern the
/// value was built from and of `target` alone.
#[verifier::external_body]
pub(crate) fn regex_is_match(re: &regex::Regex, target: &str) -> (b: bool)
    ensures
        b == re_match(re_source(*re), target@),
{
    re.is_match(target)
}

} // verus!
