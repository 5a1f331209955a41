//! The one source of chance: the thread-local generator of the `rand` crate.

use rand::rngs::ThreadRng;
use rand::Rng;
use vstd::prelude::*;

verus! {

/// `rand::rngs::ThreadRng`, a handle to the thread-local generator. Nothing
/// is known of its state.
#[verifier::external_type_specification]
#[verifier::external_body]
pub struct ExThreadRng(ThreadRng);

/// `rand::thread_rng` hands out the handle; nothing is claimed of it. It
/// panics only where the operating system gives the generator no seed, which
/// no argument decides.
pub assume_specification[ rand::thread_rng ]() -> (r: ThreadRng)
;

/// Calls `Rng::gen_range(low..high)` on the generator. `rand` panics on an
/// empty range, which the precondition rules out, and otherwise returns a
/// number of the half-open range. Which one is not determined: two calls
/// with the same bounds may differ.
#[verifier::external_body]
pub(crate) fn random_range(rng: &mut ThreadRng, low: i64, high: i64) -> (r: i64)
    requires
        low < high,
    ensures
        low <= r < high,
{
    rng.gen_range(low..high)
}

} // verus!
