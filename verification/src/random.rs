//! The one source of chance.

use vstd::prelude::*;

verus! {

/// Draws a whole number from `low` up to, but not including, `high`.
///
/// This stands for `rand::random_range` on a half-open range of `i32`, drawing
/// from the thread's own generator. Nothing is proved of it; it is taken on
/// trust that the number drawn lies in the range, as the function's
/// documentation says of every range that is not empty. On an empty range
/// `rand::random_range` panics, so one is never passed.
#[verifier::external_body]
pub(crate) fn random_range(low: i32, high: i32) -> (drawn: i32)
    requires
        low < high,
    ensures
        low <= drawn < high,
{
    rand::random_range(low..high)
}

} // verus!
