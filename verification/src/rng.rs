//! The engine's random number source: a thin trusted boundary over the
//! seeded global generator of the `quad_rand` crate.

use vstd::prelude::*;

verus! {

/// Relies on quad_rand::gen_range for usize: it maps one draw of the global
/// generator into `[low, high)` through double-precision scaling.  The
/// scaling rounds to nearest, so for bounds up to 2^32 the result is
/// certainly within `[low, high]`; rounding can graze the upper bound, and
/// callers treat `high` as attainable.  Nothing more is promised of the
/// value: it depends on the generator's hidden state.
#[verifier::external_body]
pub(crate) fn gen_range_usize(low: usize, high: usize) -> (r: usize)
    requires
        low < high,
        high <= u32::MAX,
    ensures
        low <= r <= high,
{
    quad_rand::gen_range(low, high)
}

} // verus!
