use vstd::prelude::*;
use convert_case::{Case, Casing};

verus! {

/// The snake_case form that `convert_case` gives a string.
pub uninterp spec fn snake_case(s: Seq<char>) -> Seq<char>;

/// Calls `convert_case::Casing::to_case` with `Case::Snake` on `s`.
/// Trusted: the result is `snake_case` of the characters of `s`; the
/// segmentation and lower-casing rules of the crate are not restated here.
#[verifier::external_body]
pub(crate) fn to_snake_case(s: &str) -> (r: String)
    ensures
        r@ == snake_case(s@),
{
    s.to_case(Case::Snake)
}

} // verus!
