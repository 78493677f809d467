//! Times.

use vstd::prelude::*;

use super::error::RecordError;

verus! {

/// A reading of the machine's clock.
#[verifier::external_type_specification]
#[verifier::external_body]
pub struct ExSystemTime(std::time::SystemTime);

/// The clock as it stands.
///
/// Trusted: `std::time::SystemTime::now` returns a reading of the clock; nothing is claimed of it.
pub assume_specification[ std::time::SystemTime::now ]() -> std::time::SystemTime;

/// The time since the Unix epoch; nothing where the clock stands before it.
///
/// Trusted: `std::time::SystemTime::duration_since` from the Unix epoch; nothing is claimed of the
/// result.
#[verifier::external_body]
fn since_epoch(clock: std::time::SystemTime) -> (r: Option<std::time::Duration>) {
    clock.duration_since(std::time::UNIX_EPOCH).ok()
}

/// A time span in whole milliseconds.
///
/// Trusted: `std::time::Duration::as_millis` returns a number; nothing is claimed of it.
pub assume_specification[ std::time::Duration::as_millis ](span: &std::time::Duration) -> u128;

/// UTC milliseconds since the Unix epoch.
#[derive(Clone, Copy, Debug, PartialEq, Eq, PartialOrd, Ord, Structural)]
pub struct UnixMillis {
    pub milliseconds: i64,
}

impl UnixMillis {
    /// The time on the machine's clock.
    pub fn now() -> (r: Result<UnixMillis, RecordError>)
        ensures
            match r {
                Ok(time) => time.milliseconds >= 0,
                Err(error) => error == RecordError::ClockBeforeUnixEpoch || error
                    == RecordError::ClockOutOfRange,
            },
    {
        let reading = match since_epoch(std::time::SystemTime::now()) {
            Some(span) => Some(span.as_millis()),
            None => None,
        };
        UnixMillis::from_clock(reading)
    }

    /// The time of a reading of the clock, in milliseconds since the epoch.
    pub fn from_clock(reading: Option<u128>) -> (r: Result<UnixMillis, RecordError>)
        ensures
            r == (match reading {
                None => Err(RecordError::ClockBeforeUnixEpoch),
                Some(value) => if value > i64::MAX {
                    Err(RecordError::ClockOutOfRange)
                } else {
                    Ok(UnixMillis { milliseconds: value as i64 })
                },
            }),
    {
        match reading {
            None => Err(RecordError::ClockBeforeUnixEpoch),
            Some(value) => {
                if value > i64::MAX as u128 {
                    Err(RecordError::ClockOutOfRange)
                } else {
                    Ok(UnixMillis { milliseconds: value as i64 })
                }
            },
        }
    }

    /// A time that is not before the epoch.
    pub fn from_millis(milliseconds: i64) -> (r: Result<UnixMillis, RecordError>)
        ensures
            r == (if milliseconds < 0 {
                Err::<UnixMillis, RecordError>(RecordError::InvalidTimestamp)
            } else {
                Ok(UnixMillis { milliseconds })
            }),
    {
        if milliseconds < 0 {
            return Err(RecordError::InvalidTimestamp);
        }
        Ok(UnixMillis { milliseconds })
    }

    /// The milliseconds since the epoch.
    pub fn as_millis(self) -> (r: i64)
        ensures
            r == self.milliseconds,
    {
        self.milliseconds
    }
}

} // verus!
