use vstd::prelude::*;

verus! {

/// Relies on rand::random_range over `0..bound`: it draws a value uniformly
/// from the range, panics only when the range is empty, and always returns a
/// value the range contains. Nothing more is assumed of the draw: callers
/// must hold for every value below `bound`.
#[verifier::external_body]
pub(crate) fn draw_below(bound: u64) -> (r: u64)
    requires
        bound >= 1,
    ensures
        r < bound,
{
    rand::random_range(0..bound)
}

} // verus!
