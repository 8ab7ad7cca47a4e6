//! Reading the clock. Results depend on the time of the call, so nothing is
//! promised of their values.

use vstd::prelude::*;

use core::time::Duration;
use std::time::Instant;

verus! {

#[verifier::external_type_specification]
#[verifier::external_body]
pub struct ExInstant(Instant);

/// `Instant::clone`: `Instant` is `Copy`, so a clone is the same instant.
pub assume_specification[ <Instant as Clone>::clone ](i: &Instant) -> (r: Instant)
    ensures
        r == *i,
;

/// `Instant::now`: the current monotonic instant.
#[verifier::external_body]
pub fn instant_now() -> Instant {
    Instant::now()
}

/// `Instant::elapsed`, in whole nanoseconds.
#[verifier::external_body]
pub fn elapsed_nanos(start: &Instant) -> u128 {
    start.elapsed().as_nanos()
}

/// `Instant::duration_since`: the time from `earlier` to `later` (zero when
/// `earlier` is the later one), in whole nanoseconds.
#[verifier::external_body]
pub fn nanos_between(later: &Instant, earlier: &Instant) -> u128 {
    later.duration_since(*earlier).as_nanos()
}

/// Whole microseconds in `nanos` nanoseconds.
pub fn nanos_to_micros(nanos: u128) -> (r: u128)
    ensures
        r == nanos / 1000,
{
    nanos / 1000
}

/// Whole milliseconds in `nanos` nanoseconds.
pub fn nanos_to_millis(nanos: u128) -> (r: u128)
    ensures
        r == nanos / 1_000_000,
{
    nanos / 1_000_000
}

/// Whole seconds in `nanos` nanoseconds.
pub fn nanos_to_secs(nanos: u128) -> (r: u128)
    ensures
        r == nanos / 1_000_000_000,
{
    nanos / 1_000_000_000
}

/// Whole seconds in `nanos` nanoseconds, as a `u64` (saturated past
/// `u64::MAX`).
pub fn nanos_to_secs_u64(nanos: u128) -> (r: u64)
    ensures
        r == if nanos / 1_000_000_000 > u64::MAX { u64::MAX as int } else { (nanos / 1_000_000_000) as int },
{
    let secs = nanos_to_secs(nanos);
    if secs > u64::MAX as u128 {
        u64::MAX
    } else {
        secs as u64
    }
}

/// The time elapsed since `start`, in whole microseconds: the elapsed
/// nanoseconds read from the clock, converted by `nanos_to_micros`.
pub fn elapsed_micros(start: &Instant) -> u128 {
    nanos_to_micros(elapsed_nanos(start))
}

/// `Duration::as_nanos`: the whole length of `d` in nanoseconds (durations
/// compare as these counts do).
#[verifier::external_body]
pub fn duration_nanos(d: &Duration) -> u128 {
    d.as_nanos()
}

/// `SystemTime::now` measured from the Unix epoch, in whole nanoseconds
/// (zero when the clock reads before the epoch).
#[verifier::external_body]
pub fn unix_time_nanos() -> u128 {
    std::time::SystemTime::now().duration_since(std::time::UNIX_EPOCH).map(|d| d.as_nanos()).unwrap_or(0)
}

/// The system time in whole seconds since the Unix epoch (zero when the
/// clock reads before the epoch; saturated past `u64::MAX` seconds).
pub fn unix_time_secs() -> u64 {
    nanos_to_secs_u64(unix_time_nanos())
}

} // verus!
