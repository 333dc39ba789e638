//! Timestamps in the Windows FILETIME form: the number of 100-nanosecond
//! ticks since the first of January 1601.

use crate::byte_helper::{u32_to_bytes, u64_le};
use std::time::{Duration, SystemTime, SystemTimeError};
use vstd::prelude::*;

verus! {

/// The number of ticks in a second.
pub const TICKS_PER_SECOND: u64 = 10_000_000;

/// The number of nanoseconds in a tick.
pub const NANOS_PER_TICK: u128 = 100;

/// The ticks at the start of the Unix epoch, the first of January 1970.
pub const UNIX_EPOCH_TICKS: u64 = 116_444_736_000_000_000;

/// The last Unix second whose ticks fit in 64 bits.
pub const MAX_UNIX_SECONDS: u64 = 1_833_029_933_770;

/// A point of the system clock, carried through unread.
#[verifier::external_type_specification]
#[verifier::external_body]
pub struct ExSystemTime(SystemTime);

/// The error of a clock that stands before the point it is compared with.
#[verifier::external_type_specification]
#[verifier::external_body]
pub struct ExSystemTimeError(SystemTimeError);

/// `SystemTime::now` reads the system clock. Nothing is known of what it
/// returns.
pub assume_specification[ SystemTime::now ]() -> (t: SystemTime);

/// `Duration::as_nanos` gives the whole span in nanoseconds. Nothing is
/// stated of the number.
pub assume_specification[ Duration::as_nanos ](d: &Duration) -> (n: u128);

/// `SystemTime::duration_since` with the Unix epoch as the earlier point:
/// the span since the epoch, or an error for a point before it. Nothing is
/// stated of either.
#[verifier::external_body]
fn since_unix_epoch(t: &SystemTime) -> (r: Result<Duration, SystemTimeError>) {
    t.duration_since(std::time::UNIX_EPOCH)
}

/// The ticks that stand for a span of nanoseconds since the Unix epoch. A
/// part of a tick is dropped, and a point beyond the last tick of 64 bits is
/// that last tick.
pub open spec fn ticks_of_unix_nanos(nanos: int) -> int {
    if UNIX_EPOCH_TICKS + nanos / 100 > u64::MAX {
        u64::MAX as int
    } else {
        UNIX_EPOCH_TICKS + nanos / 100
    }
}

/// A timestamp.
#[derive(Clone, Copy, Debug, PartialEq, Eq, Structural, Hash)]
pub struct FileTime {
    ticks: u64,
}

impl FileTime {
    /// The number of ticks since the first of January 1601.
    pub closed spec fn spec_ticks(self) -> u64 {
        self.ticks
    }

    /// The number of ticks since the first of January 1601.
    #[verifier::when_used_as_spec(spec_ticks)]
    pub fn ticks(self) -> (r: u64)
        ensures
            r == self.spec_ticks(),
    {
        self.ticks
    }

    /// The timestamp with the given number of ticks.
    pub fn from_ticks(ticks: u64) -> (r: FileTime)
        ensures
            r.ticks() == ticks,
    {
        FileTime { ticks }
    }

    /// The timestamp of a Unix time in whole seconds.
    pub fn from_unix(seconds: u64) -> (r: FileTime)
        requires
            seconds <= MAX_UNIX_SECONDS,
        ensures
            r.ticks() == UNIX_EPOCH_TICKS + seconds * TICKS_PER_SECOND,
    {
        FileTime { ticks: UNIX_EPOCH_TICKS + seconds * TICKS_PER_SECOND }
    }

    /// The timestamp of a span of nanoseconds since the Unix epoch.
    pub fn from_unix_nanos(nanos: u128) -> (r: FileTime)
        ensures
            r.ticks() == ticks_of_unix_nanos(nanos as int),
    {
        let ticks = nanos / NANOS_PER_TICK;
        let room = (u64::MAX - UNIX_EPOCH_TICKS) as u128;
        if ticks > room {
            FileTime { ticks: u64::MAX }
        } else {
            FileTime { ticks: UNIX_EPOCH_TICKS + ticks as u64 }
        }
    }

    /// The timestamp that stands for what the system clock gave: the span
    /// since the Unix epoch, or the epoch itself for a clock that stands
    /// before it.
    pub fn from_clock(since_epoch: Option<u128>) -> (r: FileTime)
        ensures
            r.ticks() == match since_epoch {
                Some(nanos) => ticks_of_unix_nanos(nanos as int),
                None => UNIX_EPOCH_TICKS as int,
            },
    {
        match since_epoch {
            Some(nanos) => FileTime::from_unix_nanos(nanos),
            None => FileTime { ticks: UNIX_EPOCH_TICKS },
        }
    }

    /// The current time of the system clock. It is never before the Unix
    /// epoch.
    pub fn now() -> (r: FileTime)
        ensures
            r.ticks() >= UNIX_EPOCH_TICKS,
    {
        let t = SystemTime::now();
        match since_unix_epoch(&t) {
            Ok(d) => FileTime::from_clock(Some(d.as_nanos())),
            Err(_) => FileTime::from_clock(None),
        }
    }

    /// The eight bytes of the timestamp, least significant first.
    pub fn as_bytes(&self) -> (r: [u8; 8])
        ensures
            r@ == u64_le(self.ticks() as int),
    {
        let low = u32_to_bytes((self.ticks % 0x1_0000_0000) as u32);
        let high = u32_to_bytes((self.ticks / 0x1_0000_0000) as u32);
        let r = [low[0], low[1], low[2], low[3], high[0], high[1], high[2], high[3]];
        assert(r@ =~= u64_le(self.ticks as int));
        r
    }
}

} // verus!
