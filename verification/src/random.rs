use vstd::prelude::*;

verus! {

/// Draws a number from `low..high` with `rand::random_range`, which uses
/// the thread-local generator. Claimed of it: the number lies in
/// `low..high` (its documentation; it panics on an empty range, which
/// `requires` rules out). Which number comes out rests on chance and is
/// left unsaid.
#[verifier::external_body]
pub(crate) fn random_u8(low: u8, high: u8) -> (res: u8)
    requires
        low < high,
    ensures
        low <= res < high,
{
    rand::random_range(low..high)
}

} // verus!
