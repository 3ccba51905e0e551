//! The wall clock, read in nanoseconds since the Unix epoch.

use std::time::{Duration, SystemTime, SystemTimeError};
use vstd::prelude::*;

verus! {

#[verifier::external_type_specification]
#[verifier::external_body]
pub struct ExSystemTime(SystemTime);

#[verifier::external_type_specification]
#[verifier::external_body]
pub struct ExSystemTimeError(SystemTimeError);

/// Reads the system clock with `SystemTime::now`. Nothing is known of the
/// reading.
#[verifier::external_body]
fn system_now() -> SystemTime {
    SystemTime::now()
}

/// The time elapsed from the Unix epoch to `instant`, by
/// `SystemTime::duration_since`; an error if `instant` lies before the epoch.
#[verifier::external_body]
fn since_unix_epoch(instant: &SystemTime) -> Result<Duration, SystemTimeError> {
    instant.duration_since(SystemTime::UNIX_EPOCH)
}

/// The whole number of nanoseconds in `elapsed`, by `Duration::as_nanos`.
#[verifier::external_body]
fn nanoseconds(elapsed: &Duration) -> u128 {
    elapsed.as_nanos()
}

/// The current time in nanoseconds since the Unix epoch, reduced to 64 bits.
/// A clock set before the epoch reads as the epoch itself.
pub fn current_timestamp() -> u64 {
    let now = system_now();
    let reading = match since_unix_epoch(&now) {
        Ok(elapsed) => Some(nanoseconds(&elapsed)),
        Err(_) => None,
    };
    timestamp_from(reading)
}

/// The timestamp for a reading of the clock: the nanoseconds elapsed since
/// the epoch, reduced to 64 bits, and 0 for a clock set before the epoch,
/// which has no reading.
pub open spec fn timestamp_of(reading: Option<u128>) -> u64 {
    match reading {
        Some(nanos) => (nanos % 0x1_0000_0000_0000_0000) as u64,
        None => 0,
    }
}

/// Turns a reading of the clock into a timestamp.
pub fn timestamp_from(reading: Option<u128>) -> (timestamp: u64)
    ensures
        timestamp == timestamp_of(reading),
{
    match reading {
        Some(nanos) => {
            let low: u128 = nanos % 0x1_0000_0000_0000_0000;
            low as u64
        },
        None => 0,
    }
}

} // verus!
