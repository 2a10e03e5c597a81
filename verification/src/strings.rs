//! String-slice comparison, taken on trust from std.

use vstd::prelude::*;

verus! {

/// Relies on str's `PartialEq` implementation: two string slices are
/// equal exactly when their byte contents — and so their character
/// sequences — are equal.
#[verifier::external_body]
pub(crate) fn str_eq(a: &str, b: &str) -> (r: bool)
    ensures
        r == (a@ == b@),
{
    a == b
}

} // verus!
