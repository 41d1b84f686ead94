//! The monotonic clock, as far as the duration timers need it.

use std::time::Duration;
use std::time::Instant;
use vstd::prelude::*;

verus! {

/// `std::time::Instant`: a reading of the monotonic clock. Opaque here.
#[verifier::external_type_specification]
#[verifier::external_body]
pub struct ExInstant(Instant);

/// `Instant::now` reads the monotonic clock. The reading depends on when the
/// call is made, so nothing is claimed of it.
pub assume_specification[ Instant::now ]() -> Instant;

/// `Instant::elapsed` gives the time that has passed since the instant was
/// taken. It depends on when the call is made, so nothing is claimed of it.
pub assume_specification[ Instant::elapsed ](instant: &Instant) -> Duration;

/// `Duration::as_millis` gives the whole milliseconds in the duration. The
/// duration is opaque here, so nothing is claimed of the number.
pub assume_specification[ Duration::as_millis ](duration: &Duration) -> u128;

/// `Duration::as_micros` gives the whole microseconds in the duration. The
/// duration is opaque here, so nothing is claimed of the number.
pub assume_specification[ Duration::as_micros ](duration: &Duration) -> u128;

/// What of an elapsed time is recorded: its low 64 bits.
pub open spec fn truncated(elapsed: u128) -> u64 {
    (elapsed % 0x1_0000_0000_0000_0000) as u64
}

/// Truncates an elapsed time to the 64 bits a counter takes.
pub fn truncate_elapsed(elapsed: u128) -> (amount: u64)
    ensures
        amount == truncated(elapsed),
        elapsed <= u64::MAX ==> amount == elapsed,
{
    let low: u128 = elapsed % 0x1_0000_0000_0000_0000u128;
    low as u64
}

} // verus!
