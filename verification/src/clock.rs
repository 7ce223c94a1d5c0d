//! Readings of the machine's clocks.
use vstd::prelude::*;

use crate::time::{Timestamp, MAX_UNIX_DAY};

verus! {

#[verifier::external_type_specification]
#[verifier::external_body]
pub struct ExInstant(std::time::Instant);

/// Calls `std::time::Instant::now`; nothing is promised of the reading.
#[verifier::external_body]
pub fn instant_now() -> (r: std::time::Instant)
{
    std::time::Instant::now()
}

/// Calls `Instant::elapsed` on `anchor` and gives the nanoseconds as a `u128`. The
/// reading depends on the time of the call and is not promised; being a `Duration`
/// (whole seconds in a `u64`, nanoseconds under a second), it is at most `u64::MAX`
/// seconds and 999,999,999 nanoseconds.
#[verifier::external_body]
pub fn nanos_since(anchor: &std::time::Instant) -> (r: u128)
    ensures
        r <= 18_446_744_073_709_551_615_999_999_999,
{
    anchor.elapsed().as_nanos()
}

/// Calls `chrono::Local::now` and gives the moment as seconds and nanoseconds since the
/// epoch with the local offset. The moment itself depends on the time of the call and is
/// not promised; chrono's `Utc::now` builds it from the system time since the epoch
/// (so it is not before the epoch, its nanoseconds are under a second, and it lies in the
/// calendar's range), and a `FixedOffset` is always less than a day.
#[verifier::external_body]
pub fn local_now() -> (r: Timestamp)
    ensures
        r.wf(),
        r.secs >= 0,
{
    let now = chrono::Local::now();
    Timestamp {
        secs: now.timestamp(),
        nanos: now.timestamp_subsec_nanos(),
        offset: chrono::Offset::fix(now.offset()).local_minus_utc(),
    }
}

} // verus!
