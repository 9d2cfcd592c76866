//! Readings of the system clock.
use vstd::prelude::*;

verus! {

/// Seconds since the Unix epoch from `std::time::SystemTime::now()` (0 if the clock
/// reads before the epoch). Nothing is promised of the reading.
#[verifier::external_body]
pub(crate) fn unix_time_secs() -> (r: u64) {
    std::time::SystemTime::now()
        .duration_since(std::time::UNIX_EPOCH)
        .map(|d| d.as_secs())
        .unwrap_or(0)
}

/// Milliseconds since the Unix epoch from `std::time::SystemTime::now()`, truncated to
/// `u64` (0 if the clock reads before the epoch). Nothing is promised of the reading.
#[verifier::external_body]
pub(crate) fn unix_time_millis() -> (r: u64) {
    std::time::SystemTime::now()
        .duration_since(std::time::UNIX_EPOCH)
        .map(|d| d.as_millis() as u64)
        .unwrap_or(0)
}

/// Nanoseconds since the Unix epoch from `std::time::SystemTime::now()`, truncated to
/// `u64` (0 if the clock reads before the epoch). Nothing is promised of the reading.
#[verifier::external_body]
pub(crate) fn unix_time_nanos() -> (r: u64) {
    std::time::SystemTime::now()
        .duration_since(std::time::UNIX_EPOCH)
        .map(|d| d.as_nanos() as u64)
        .unwrap_or(0)
}

} // verus!
