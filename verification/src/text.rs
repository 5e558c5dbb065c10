//! String comparison, specified over character sequences.

use vstd::prelude::*;

verus! {

/// Relies on `str`'s `PartialEq`: two string slices compare equal exactly
/// when they consist of the same characters in the same order.
#[verifier::external_body]
pub(crate) fn str_eq(a: &str, b: &str) -> (r: bool)
    ensures
        r == (a@ == b@),
{
    a == b
}

} // verus!
