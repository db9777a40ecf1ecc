//! The library's only source of randomness, behind two trusted wrappers of
//! the `rand` crate. Everything the selection logic concludes holds for
//! every value these may return.

use vstd::prelude::*;

verus! {

/// Relies on `rand::random_range` over `0..n`: returns a uniformly random
/// value of the given range, and panics only when the range is empty.
#[verifier::external_body]
pub(crate) fn random_below(n: usize) -> (r: usize)
    requires
        0 < n,
    ensures
        r < n,
{
    rand::random_range(0..n)
}

/// Relies on `rand::random_ratio`: true with probability `num` in `den`;
/// documented to be always true when `num == den` and always false when
/// `num == 0`, and to panic only when `den == 0` or `num > den`.
#[verifier::external_body]
pub(crate) fn random_chance(num: u32, den: u32) -> (r: bool)
    requires
        0 < den,
        num <= den,
    ensures
        num == den ==> r,
        num == 0 ==> !r,
{
    rand::random_ratio(num, den)
}

} // verus!
