//! Elapsed time in whole milliseconds, read from the monotonic clock.
//!
//! The three functions declared here are those of `web_time`, which on a
//! native target are those of `std::time`. Nothing is claimed of what they
//! return: it depends on when they are called.

use vstd::prelude::*;
use web_time::{Duration, Instant};

verus! {

/// `web_time::Instant`, a point on the monotonic clock. Nothing is known of
/// a value but that it can be handed on.
#[verifier::external_type_specification]
#[verifier::external_body]
pub struct ExInstant(web_time::Instant);

/// `Instant::now`: the present moment.
pub assume_specification[ web_time::Instant::now ]() -> (now: Instant)
;

/// `Instant::elapsed`: the time that has passed since `start`, and none if
/// the clock should read less than `start`.
pub assume_specification[ web_time::Instant::elapsed ](start: &Instant) -> (passed: Duration)
;

/// `Duration::as_millis`: the whole milliseconds in `span`.
pub assume_specification[ web_time::Duration::as_millis ](span: &Duration) -> (millis: u128)
;

/// The whole milliseconds that have passed since `start`, held to what a
/// `u64` can count.
pub(crate) fn millis_since(start: &Instant) -> u64 {
    let millis: u128 = start.elapsed().as_millis();
    held_to_u64(millis)
}

/// A count of milliseconds as a `u64` holds it: the count itself where it
/// fits, and the greatest `u64` where it does not.
pub open spec fn held(millis: u128) -> u64 {
    if millis > u64::MAX {
        u64::MAX
    } else {
        millis as u64
    }
}

/// Holds a count of milliseconds to what a `u64` can count.
pub fn held_to_u64(millis: u128) -> (count: u64)
    ensures
        count == held(millis),
{
    if millis > u64::MAX as u128 {
        u64::MAX
    } else {
        millis as u64
    }
}

} // verus!
