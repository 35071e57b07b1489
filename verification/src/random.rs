//! The one source of chance in the game.

use vstd::prelude::*;

verus! {

/// Draws an integer from the half-open range `low..high` with
/// `rand::Rng::gen_range` on the generator that `rand::thread_rng` hands out.
///
/// Trusted: the draw lies in the range. `gen_range` panics on an empty range,
/// which the precondition excludes. Nothing is said about which value comes
/// out, and two draws need not agree.
#[verifier::external_body]
pub(crate) fn random_in_range(low: i32, high: i32) -> (n: i32)
    requires
        low < high,
    ensures
        low <= n < high,
{
    rand::Rng::gen_range(&mut rand::thread_rng(), low..high)
}

} // verus!
