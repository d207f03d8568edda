use vstd::prelude::*;

use crate::errors::Error;

verus! {

/// Largest representable unix timestamp, in nanoseconds: 9999-12-31T23:59:59.999999999Z.
pub const MAX_UNIX_TIMESTAMP_NANOS: u128 = 253_402_300_799_999_999_999;

/// Largest representable duration, in nanoseconds: u64::MAX seconds plus 999_999_999 nanoseconds.
pub const MAX_DURATION_NANOS: u128 = 18_446_744_073_709_551_615_999_999_999;

pub const NANOS_PER_SEC: u128 = 1_000_000_000;

/// A unix timestamp with nanosecond precision.
///
/// A well-formed value never exceeds `MAX_UNIX_TIMESTAMP_NANOS`; the fallible
/// constructor and the checked addition below are the only ways the library
/// produces one.
#[derive(Clone, Copy, Debug, PartialEq, Eq, Structural)]
pub struct Time {
    pub nanos: u128,
}

impl Time {
    pub open spec fn wf(self) -> bool {
        self.nanos <= MAX_UNIX_TIMESTAMP_NANOS
    }

    /// Builds a timestamp from nanoseconds since the unix epoch; values past
    /// the representable range are rejected.
    pub fn from_unix_timestamp_nanos(nanos: u128) -> (r: Result<Time, Error>)
        ensures
            nanos <= MAX_UNIX_TIMESTAMP_NANOS ==> r == Ok::<Time, Error>(Time { nanos }),
            nanos > MAX_UNIX_TIMESTAMP_NANOS ==> r == Err::<Time, Error>(
                Error::TimestampOutOfRange { nanos },
            ),
    {
        if nanos <= MAX_UNIX_TIMESTAMP_NANOS {
            Ok(Time { nanos })
        } else {
            Err(Error::TimestampOutOfRange { nanos })
        }
    }

    pub fn as_unix_timestamp_nanos(&self) -> (r: u128)
        ensures
            r == self.nanos,
    {
        self.nanos
    }

    /// Adds a duration, failing explicitly when the sum leaves the
    /// representable timestamp range; the sum never wraps silently.
    pub fn checked_add(self, d: Duration) -> (r: Result<Time, Error>)
        requires
            self.wf(),
            d.wf(),
        ensures
            self.nanos + d.nanos <= MAX_UNIX_TIMESTAMP_NANOS ==> r == Ok::<Time, Error>(
                Time { nanos: (self.nanos + d.nanos) as u128 },
            ),
            self.nanos + d.nanos > MAX_UNIX_TIMESTAMP_NANOS ==> r == Err::<Time, Error>(
                Error::TimeOverflow { timestamp: self, duration: d },
            ),
            r matches Ok(t) ==> t.wf(),
    {
        let sum: u128 = self.nanos + d.nanos;
        if sum <= MAX_UNIX_TIMESTAMP_NANOS {
            Ok(Time { nanos: sum })
        } else {
            Err(Error::TimeOverflow { timestamp: self, duration: d })
        }
    }
}

/// A span of time with nanosecond precision.
///
/// A well-formed value never exceeds `MAX_DURATION_NANOS`, the range of a
/// seconds-and-nanoseconds pair with 64-bit seconds.
#[derive(Clone, Copy, Debug, PartialEq, Eq, Structural)]
pub struct Duration {
    pub nanos: u128,
}

impl Duration {
    pub open spec fn wf(self) -> bool {
        self.nanos <= MAX_DURATION_NANOS
    }

    /// Builds a duration from a nanosecond count; values past the
    /// representable range are rejected.
    pub fn from_nanos(nanos: u128) -> (r: Result<Duration, Error>)
        ensures
            nanos <= MAX_DURATION_NANOS ==> r == Ok::<Duration, Error>(Duration { nanos }),
            nanos > MAX_DURATION_NANOS ==> r == Err::<Duration, Error>(
                Error::DurationOutOfRange { nanos },
            ),
    {
        if nanos <= MAX_DURATION_NANOS {
            Ok(Duration { nanos })
        } else {
            Err(Error::DurationOutOfRange { nanos })
        }
    }

    pub fn from_secs(secs: u64) -> (r: Duration)
        ensures
            r.nanos == secs * NANOS_PER_SEC,
            r.wf(),
    {
        Duration { nanos: (secs as u128) * NANOS_PER_SEC }
    }

    pub fn as_nanos(&self) -> (r: u128)
        ensures
            r == self.nanos,
    {
        self.nanos
    }

    /// Whole seconds of the duration; sub-second nanoseconds are truncated.
    pub fn as_secs(&self) -> (r: u64)
        requires
            self.wf(),
        ensures
            r == self.nanos / NANOS_PER_SEC,
    {
        (self.nanos / NANOS_PER_SEC) as u64
    }
}

} // verus!
