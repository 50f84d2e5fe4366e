//! Collection names in title case, as `heck` writes them.

use vstd::prelude::*;

use heck::CamelCase;

verus! {

/// What `heck` makes of `s` in camel case with a capital first letter: the
/// words of `s`, each with its first letter in upper case and the rest in
/// lower case, written in a row.
pub uninterp spec fn upper_camel_case(s: Seq<char>) -> Seq<char>;

/// `CamelCase::to_camel_case` of `heck` on `s`: its result depends on the
/// characters of `s` alone.
#[verifier::external_body]
pub(crate) fn to_camel_case(s: &str) -> (r: String)
    ensures
        r@ == upper_camel_case(s@),
{
    s.to_camel_case()
}

} // verus!
