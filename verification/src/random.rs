//! The one source of chance: the process-wide generator of `quad_rand`.

use vstd::prelude::*;

verus! {

/// Draws an integer by a call of `quad_rand::gen_range`, which advances
/// the generator shared by the whole process. The outside function scales
/// a 32-bit draw into the span from `low` to `high` in double precision,
/// where every `i32` and every difference of two is exact, and cuts the
/// fraction off: what comes back lies between the two bounds, both
/// included. Nothing else is claimed of it; two calls may differ.
#[verifier::external_body]
pub(crate) fn gen_range(low: i32, high: i32) -> (drawn: i32)
    requires
        low <= high,
    ensures
        low <= drawn <= high,
{
    quad_rand::gen_range(low, high)
}

} // verus!
