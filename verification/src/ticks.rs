//! Whole numbers of ticks, by way of the `num` crate.

use vstd::prelude::*;

verus! {

/// `num::zero` at `i64`: the additive identity, which is 0.
#[verifier::external_body]
pub(crate) fn no_ticks() -> (r: i64)
    ensures
        r == 0,
{
    num::zero()
}

/// `num::one` at `i64`: the multiplicative identity, which is 1.
#[verifier::external_body]
pub(crate) fn one_tick() -> (r: i64)
    ensures
        r == 1,
{
    num::one()
}

/// `num::ToPrimitive::to_usize` at `i64`: the same number as a `usize`, or
/// `None` where it is negative or greater than `usize::MAX`.
#[verifier::external_body]
pub(crate) fn step_count(n: i64) -> (r: Option<usize>)
    ensures
        r == (if 0 <= n <= usize::MAX {
            Some(n as usize)
        } else {
            None
        }),
{
    num::ToPrimitive::to_usize(&n)
}

} // verus!
