//! A moment on the wall clock: seconds and nanoseconds since the Unix epoch,
//! with the offset (in seconds) of the local time zone at that moment.
use vstd::prelude::*;

verus! {

/// One second in nanoseconds.
pub const NANOS_PER_SEC: u128 = 1_000_000_000;

/// Seconds in a civil day.
pub const SECS_PER_DAY: i64 = 86400;

/// The first day (counted from 1970-01-01) that the calendar can represent.
pub const MIN_UNIX_DAY: i64 = -96465293;

/// The last day (counted from 1970-01-01) that the calendar can represent.
pub const MAX_UNIX_DAY: i64 = 95026236;

#[derive(Clone, Copy, Debug, PartialEq, Eq, Structural)]
pub struct Timestamp {
    /// Whole seconds since 1970-01-01T00:00:00Z.
    pub secs: i64,
    /// Nanoseconds past `secs`.
    pub nanos: u32,
    /// Local time minus UTC, in seconds.
    pub offset: i32,
}

/// Euclidean (floor) division for a positive divisor.
pub open spec fn floor_div(a: int, b: int) -> int
    recommends
        b > 0,
{
    a / b
}

impl Timestamp {
    /// The moment lies in the representable calendar and its offset is less than a day.
    pub open spec fn wf(self) -> bool {
        &&& self.nanos < 1_000_000_000
        &&& -86400 < self.offset < 86400
        &&& MIN_UNIX_DAY * 86400 <= self.secs <= MAX_UNIX_DAY * 86400 + 86399
    }

    /// Local wall-clock seconds since 1970-01-01T00:00:00 (local).
    pub open spec fn local_secs(self) -> int {
        self.secs + self.offset
    }

    /// The local calendar day, counted from 1970-01-01.
    pub open spec fn day(self) -> int {
        floor_div(self.local_secs(), 86400)
    }

    /// The local hour of the day, 0 to 23.
    pub open spec fn hour(self) -> int {
        (self.local_secs() % 86400) / 3600
    }

    /// Nanoseconds from `earlier` to `self` (negative when `self` is before).
    pub open spec fn nanos_since(self, earlier: Timestamp) -> int {
        (self.secs - earlier.secs) * 1_000_000_000 + self.nanos - earlier.nanos
    }

    /// Tests whether the moment is well formed: in the calendar's range, with its
    /// nanoseconds under a second and its offset under a day.
    pub fn is_valid(&self) -> (r: bool)
        ensures
            r == self.wf(),
    {
        self.nanos < 1_000_000_000 && -86400 < self.offset && self.offset < 86400
            && MIN_UNIX_DAY * 86400 <= self.secs && self.secs <= MAX_UNIX_DAY * 86400 + 86399
    }

    /// The local day of this moment.
    pub fn local_day(&self) -> (r: i64)
        requires
            self.wf(),
        ensures
            r == self.day(),
            MIN_UNIX_DAY - 1 <= r <= MAX_UNIX_DAY + 1,
    {
        let ls: i64 = self.secs + self.offset as i64;
        let q: i64 = ls / SECS_PER_DAY;
        let rem: i64 = ls % SECS_PER_DAY;
        if rem < 0 {
            q - 1
        } else {
            q
        }
    }

    /// The local hour of this moment.
    pub fn local_hour(&self) -> (r: u32)
        requires
            self.wf(),
        ensures
            r == self.hour(),
            r < 24,
    {
        let ls: i64 = self.secs + self.offset as i64;
        let rem: i64 = ls % SECS_PER_DAY;
        let pos: i64 = if rem < 0 {
            rem + SECS_PER_DAY
        } else {
            rem
        };
        (pos / 3600) as u32
    }
}

} // verus!
