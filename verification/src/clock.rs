//! The wall clock, read through `std::time`. Nothing is promised of the time
//! it reports: callers state what holds for every value.

use vstd::prelude::*;
use std::time::{Duration, SystemTime, SystemTimeError};

verus! {

/// `std::time::SystemTime`, carried through opaquely.
#[verifier::external_type_specification]
#[verifier::external_body]
pub struct ExSystemTime(SystemTime);

/// `std::time::SystemTimeError`, carried through opaquely.
#[verifier::external_type_specification]
#[verifier::external_body]
pub struct ExSystemTimeError(SystemTimeError);

/// Calls `SystemTime::now`. The current time depends on the machine, so
/// nothing is stated of the result.
#[verifier::external_body]
fn system_time_now() -> SystemTime {
    SystemTime::now()
}

/// Calls `SystemTime::duration_since` with the Unix epoch. The result
/// depends on the opaque time value, so nothing is stated of it; it is an
/// error when the time lies before the epoch.
#[verifier::external_body]
fn duration_since_epoch(t: &SystemTime) -> Result<Duration, SystemTimeError> {
    t.duration_since(std::time::UNIX_EPOCH)
}

/// Calls `Duration::as_secs`, the number of whole seconds in the duration.
/// A duration is opaque here, so nothing is stated of the result.
#[verifier::external_body]
fn duration_secs(d: &Duration) -> u64 {
    d.as_secs()
}

/// Seconds since the Unix epoch according to the wall clock, or 0 when the
/// clock reads a time before the epoch.
pub fn seconds_since_epoch() -> u64 {
    let now = system_time_now();
    match duration_since_epoch(&now) {
        Ok(d) => duration_secs(&d),
        Err(_) => 0,
    }
}

} // verus!
