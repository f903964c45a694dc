use vstd::prelude::*;

pub mod device;
pub mod house;
pub mod provider;

verus! {

/// Relies on `str`'s `PartialEq`: two string slices compare equal exactly when
/// their character sequences are equal.
#[verifier::external_body]
pub(crate) fn str_eq(a: &str, b: &str) -> (r: bool)
    ensures
        r == (a@ == b@),
{
    a == b
}

} // verus!
