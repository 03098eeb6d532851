//! Clocks read by the statistics manager: the monotonic clock, as time
//! elapsed since an origin instant, and the wall clock, as UTC microseconds.

use std::time::Instant;
use vstd::prelude::*;

verus! {

#[verifier::external_type_specification]
#[verifier::external_body]
pub struct ExInstant(std::time::Instant);

/// Largest duration (`Duration::MAX`) in nanoseconds.
pub const MAX_DURATION_NANOS: u128 = 18_446_744_073_709_551_615_999_999_999;

/// Calls `std::time::Instant::now`: the current instant of the monotonic
/// clock. Nothing is promised of it.
#[verifier::external_body]
pub(crate) fn instant_now() -> Instant {
    Instant::now()
}

/// Calls `std::time::Instant::elapsed` on `origin` and converts the duration
/// to nanoseconds. The only promise is that of any duration: at most
/// `Duration::MAX`. The value itself depends on the clock.
#[verifier::external_body]
pub(crate) fn elapsed_nanos(origin: &Instant) -> (n: u128)
    ensures
        n <= MAX_DURATION_NANOS,
{
    origin.elapsed().as_nanos()
}

/// Converts `std::time::SystemTime::now()` with chrono's
/// `From<SystemTime> for DateTime<Utc>` and `timestamp_micros`: the wall clock
/// time in microseconds since the Unix epoch, negative for a clock set before
/// the epoch. Nothing is promised of the value. The conversion only fails
/// (chrono unwraps its own range check) for a clock set beyond chrono's range
/// of about 262,000 years around the epoch, which depends on the machine and
/// not on any argument.
#[verifier::external_body]
pub(crate) fn utc_now_micros() -> i64 {
    chrono::DateTime::<chrono::Utc>::from(std::time::SystemTime::now()).timestamp_micros()
}

} // verus!
