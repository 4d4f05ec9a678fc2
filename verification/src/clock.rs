//! Monotonic time, kept opaque: readings depend on the clock, so no
//! contract speaks of their values. Decisions taken on elapsed time are
//! verified for every reading.

use vstd::prelude::*;

verus! {

#[verifier::external_type_specification]
#[verifier::external_body]
pub struct ExInstant(std::time::Instant);

/// Relies on `std::time::Instant::now`: an opaque reading of the
/// monotonic clock.
#[verifier::external_body]
pub(crate) fn monotonic_now() -> std::time::Instant {
    std::time::Instant::now()
}

/// Relies on `std::time::Instant::elapsed`: the time since `t`, here
/// converted to whole milliseconds and saturated to `u64`. The value
/// depends on the clock, so nothing is promised of it.
#[verifier::external_body]
pub(crate) fn millis_since(t: &std::time::Instant) -> u64 {
    let m = t.elapsed().as_millis();
    if m > u64::MAX as u128 {
        u64::MAX
    } else {
        m as u64
    }
}

/// Wait for about `ms` milliseconds by polling the monotonic clock, with
/// a poll budget that bounds the loop but is never reached in practice.
pub(crate) fn pause_millis(ms: u64) {
    let start = monotonic_now();
    let mut polls: u64 = 0;
    loop
        decreases u64::MAX - polls,
    {
        if millis_since(&start) >= ms {
            break;
        }
        if polls == u64::MAX {
            break;
        }
        polls = polls + 1;
    }
}

} // verus!
