//! The thread's random number generator, as far as the scene draws on it.
//!
//! Nothing here is proved: these are the calls into the `rand` crate, with
//! what that crate's source shows of every value they can return.

use rand::rngs::ThreadRng;
use rand::Rng;
use vstd::prelude::*;

verus! {

/// `rand::rngs::ThreadRng`, a handle to the generator of the current thread.
/// Nothing is known of its state.
#[verifier::external_type_specification]
#[verifier::external_body]
pub struct ExThreadRng(rand::rngs::ThreadRng);

/// `rand::thread_rng`: a handle to the current thread's generator, which is
/// seeded from the operating system when the thread first asks for it.
/// Nothing is claimed of the handle.
pub assume_specification[ rand::thread_rng ]() -> (rng: ThreadRng)
;

/// `Rng::gen_range` on the half-open range `low..high` of `i64`. The crate
/// panics on an empty range, which `requires` leaves out; for any other it
/// returns a value of the range. Which one is not said: two calls may differ.
#[verifier::external_body]
pub(crate) fn random_in(rng: &mut ThreadRng, low: i64, high: i64) -> (value: i64)
    requires
        low < high,
    ensures
        low <= value < high,
{
    rng.gen_range(low..high)
}

/// `Rng::gen` for `bool`. Nothing is claimed of the result: either value may
/// come back.
#[verifier::external_body]
pub(crate) fn random_bool(rng: &mut ThreadRng) -> (value: bool) {
    rng.gen()
}

} // verus!
