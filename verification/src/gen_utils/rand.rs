//! Random integers.
use vstd::prelude::*;
use core::ops::Range;
use ::rand::RngExt;

verus! {

/// Draws an integer from `range` with the thread-local generator
/// (`rand::rng().random_range`). Claims only what the rand documentation states: the value
/// lies in the range, which must not be empty.
#[verifier::external_body]
pub(crate) fn random_in(range: Range<i32>) -> (res: i32)
    requires
        range.start < range.end,
    ensures
        range.start <= res < range.end,
{
    ::rand::rng().random_range(range)
}

/// Generates a secure random integer in the given range.
pub fn gen_randint(range: Range<i32>) -> (res: i32)
    requires
        range.start < range.end,
    ensures
        range.start <= res < range.end,
{
    random_in(range)
}

} // verus!
