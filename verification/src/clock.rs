//! The wall clock, read in whole seconds of Unix time.

use std::time::{Duration, SystemTime, SystemTimeError};
use vstd::prelude::*;

verus! {

/// Makes `std::time::SystemTime` known to the verifier, as a value that is
/// carried through and never looked into.
#[verifier::external_type_specification]
#[verifier::external_body]
pub struct ExSystemTime(SystemTime);

/// Makes `std::time::SystemTimeError` known to the verifier, as a value that
/// is carried through and never looked into.
#[verifier::external_type_specification]
#[verifier::external_body]
pub struct ExSystemTimeError(SystemTimeError);

/// Calls `SystemTime::now`. Nothing is claimed of the instant it returns.
#[verifier::external_body]
fn system_now() -> SystemTime {
    SystemTime::now()
}

/// Calls `SystemTime::duration_since` with `UNIX_EPOCH` as the earlier
/// instant. Nothing is claimed of the result: it is an error when the clock
/// stands before the epoch.
#[verifier::external_body]
fn since_epoch(instant: &SystemTime) -> Result<Duration, SystemTimeError> {
    instant.duration_since(std::time::UNIX_EPOCH)
}

/// Calls `Duration::as_secs`. Nothing is claimed of the number it returns.
#[verifier::external_body]
fn whole_seconds(span: &Duration) -> u64 {
    span.as_secs()
}

/// The current second of Unix time, fractions dropped; `None` when the clock
/// stands before the epoch.
pub fn unix_seconds() -> Option<u64> {
    let instant = system_now();
    match since_epoch(&instant) {
        Ok(span) => Some(whole_seconds(&span)),
        Err(_) => None,
    }
}

} // verus!
