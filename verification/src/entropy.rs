//! The crate's single source of randomness.

use vstd::prelude::*;

verus! {

/// Relies on `rand::random_range` over an `i64` range: it returns a value
/// of the given non-empty half-open range, and panics only on an empty
/// range, which the precondition rules out. Nothing more is assumed of the
/// outcome: callers state what holds of every value in the range.
#[verifier::external_body]
pub(crate) fn draw_in_range(lo: i64, hi: i64) -> (r: i64)
    requires
        lo < hi,
    ensures
        lo <= r < hi,
{
    rand::random_range(lo..hi)
}

} // verus!
