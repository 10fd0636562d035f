//! The time at which a success is recorded.

use crate::error::Error;
use std::time::{Duration, SystemTime, SystemTimeError, UNIX_EPOCH};
use vstd::prelude::*;

verus! {

/// The type is opaque: it carries a reading of the system clock.
#[verifier::external_type_specification]
#[verifier::external_body]
pub struct ExSystemTime(SystemTime);

/// The type is opaque: it only says that a reading of the clock lies before another.
#[verifier::external_type_specification]
#[verifier::external_body]
pub struct ExSystemTimeError(SystemTimeError);

/// The time from the start of the Unix epoch to a reading of the clock, as
/// `SystemTime::duration_since` gives it.
pub uninterp spec fn since_epoch(now: SystemTime) -> Result<Duration, SystemTimeError>;

/// The whole seconds of a length of time, as `Duration::as_secs` gives them.
pub uninterp spec fn whole_seconds(length: Duration) -> u64;

/// `SystemTime::now`. Nothing is claimed of the reading: it depends on the clock.
#[verifier::external_body]
fn system_now() -> SystemTime {
    SystemTime::now()
}

/// `SystemTime::duration_since`, from `UNIX_EPOCH` on: its result is a function of the
/// reading.
#[verifier::external_body]
fn time_since_epoch(now: &SystemTime) -> (r: Result<Duration, SystemTimeError>)
    ensures
        r == since_epoch(*now),
{
    now.duration_since(UNIX_EPOCH)
}

/// `Duration::as_secs`: its result is a function of the length of time.
pub assume_specification[ Duration::as_secs ](length: &Duration) -> (r: u64)
    ensures
        r == whole_seconds(*length),
;

/// The Unix timestamp of a reading of the clock. There is none for a reading before the
/// start of the epoch.
pub open spec fn timestamp_of(now: SystemTime) -> Result<u64, Error> {
    match since_epoch(now) {
        Ok(length) => Ok(whole_seconds(length)),
        Err(_) => Err(Error::ClockBeforeEpoch),
    }
}

/// Turns a reading of the clock into a Unix timestamp.
pub fn unix_timestamp_at(now: SystemTime) -> (r: Result<u64, Error>)
    ensures
        r == timestamp_of(now),
        match since_epoch(now) {
            Ok(length) => r == Ok::<u64, Error>(whole_seconds(length)),
            Err(_) => r == Err::<u64, Error>(Error::ClockBeforeEpoch),
        },
{
    match time_since_epoch(&now) {
        Ok(length) => Ok(length.as_secs()),
        Err(_) => Err(Error::ClockBeforeEpoch),
    }
}

/// The current Unix timestamp: that of some reading of the clock. Which reading that is,
/// depends on the clock.
pub fn current_unix_timestamp() -> (r: Result<u64, Error>)
    ensures
        exists|now: SystemTime| r == #[trigger] timestamp_of(now),
{
    let now: SystemTime = system_now();
    assert(timestamp_of(now) == timestamp_of(now));
    unix_timestamp_at(now)
}

/// The timestamp of a reading is the whole seconds since the start of the epoch; a reading
/// before it has none.
pub proof fn law_timestamps_are_whole_seconds(now: SystemTime)
    ensures
        since_epoch(now) matches Ok(length) ==> timestamp_of(now) == Ok::<u64, Error>(
            whole_seconds(length),
        ),
        since_epoch(now) is Err ==> timestamp_of(now) == Err::<u64, Error>(
            Error::ClockBeforeEpoch,
        ),
{
}

} // verus!
