//! The time at which a state is stored.

use crate::error;
use crate::error::LampError;
use std::time::{Duration, SystemTime, SystemTimeError, UNIX_EPOCH};
use vstd::prelude::*;

verus! {

/// `std::time::SystemTime`, a point in time.
#[verifier::external_type_specification]
#[verifier::external_body]
pub struct ExSystemTime(std::time::SystemTime);

/// `std::time::SystemTimeError`, which says that a point in time is later than
/// another.
#[verifier::external_type_specification]
#[verifier::external_body]
pub struct ExSystemTimeError(std::time::SystemTimeError);

/// `SystemTime::now` reads the clock. Nothing is claimed of the time.
pub assume_specification[ SystemTime::now ]() -> SystemTime;

/// `Duration::as_secs` gives the whole seconds of a length of time. What a
/// `Duration` holds is not stated, so nothing is claimed of their number.
pub assume_specification[ Duration::as_secs ](duration: &Duration) -> u64;

/// `SystemTime::duration_since` gives the time that has passed since the Unix
/// epoch, or an error if the epoch has not come yet. Nothing is claimed of
/// which of them comes.
#[verifier::external_body]
fn since_epoch(time: SystemTime) -> (r: Result<Duration, SystemTimeError>) {
    time.duration_since(UNIX_EPOCH)
}

/// The seconds since the Unix epoch as they were measured, or that the clock is
/// before it.
pub fn unix_seconds(measured: Option<u64>) -> (r: Result<u64, LampError>)
    ensures
        match (r, measured) {
            (Ok(seconds), Some(expected)) => seconds == expected,
            (Err(e), None) => e@ == error::Failure::ClockBeforeEpoch,
            _ => false,
        },
{
    match measured {
        Some(seconds) => Ok(seconds),
        None => Err(LampError::ClockBeforeEpoch),
    }
}

/// The current time in seconds since the Unix epoch. Which time that is depends
/// on the clock alone; the only failure is a clock that is before the epoch.
pub fn current_unix_seconds() -> (r: Result<u64, LampError>)
    ensures
        r matches Err(e) ==> e@ == error::Failure::ClockBeforeEpoch,
{
    let measured = match since_epoch(SystemTime::now()) {
        Ok(duration) => Some(duration.as_secs()),
        Err(_) => None,
    };
    unix_seconds(measured)
}

} // verus!
