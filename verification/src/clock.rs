//! Reading the clock.
use std::time::{Duration, Instant};
use vstd::prelude::*;

verus! {

/// A point in time of `std`. Nothing is known of one but what `elapsed` measures from it.
#[verifier::external_type_specification]
#[verifier::external_body]
pub struct ExInstant(Instant);

/// The whole seconds that a duration holds.
pub uninterp spec fn duration_secs(d: Duration) -> u64;

/// The nanoseconds that a duration holds beyond its whole seconds.
pub uninterp spec fn duration_subsec_nanos(d: Duration) -> u32;

/// `Instant::now` reads the clock: nothing is promised of what it returns.
pub assume_specification[ Instant::now ]() -> Instant;

/// `Instant::elapsed` reads the clock: nothing is promised of what it returns.
pub assume_specification[ Instant::elapsed ](start: &Instant) -> Duration;

/// `Duration::as_secs` returns the whole seconds of the duration.
pub assume_specification[ Duration::as_secs ](d: &Duration) -> (r: u64)
    ensures
        r == duration_secs(*d),
;

/// `Duration::subsec_nanos` returns the part of the duration beyond its whole
/// seconds, in nanoseconds: less than a second.
pub assume_specification[ Duration::subsec_nanos ](d: &Duration) -> (r: u32)
    ensures
        r == duration_subsec_nanos(*d),
        r < 1_000_000_000,
;

/// `std::hint::black_box` hands its argument back, in a way that the
/// optimizer does not see through.
pub assume_specification<T>[ std::hint::black_box::<T> ](dummy: T) -> (r: T)
    ensures
        r == dummy,
;

/// `chrono::Local::now` reads the clock and the time zone of the machine, and
/// `to_rfc3339_opts` writes the time down with whole seconds and the offset
/// in digits: nothing is promised of the text.
#[verifier::external_body]
pub(crate) fn local_timestamp() -> String {
    chrono::Local::now().to_rfc3339_opts(chrono::SecondsFormat::Secs, false)
}

/// A duration in nanoseconds, or the largest number a `u64` holds if it is longer.
pub open spec fn nanos_of(d: Duration) -> u64 {
    let ns = duration_secs(d) * 1_000_000_000 + duration_subsec_nanos(d);
    if ns > u64::MAX {
        u64::MAX
    } else {
        ns as u64
    }
}

/// A duration in nanoseconds.
pub fn ns_from_dur(dur: Duration) -> (r: u64)
    ensures
        r == nanos_of(dur),
{
    let secs: u64 = dur.as_secs();
    let nanos: u32 = dur.subsec_nanos();
    let ns: u128 = secs as u128 * 1_000_000_000 + nanos as u128;
    if ns > u64::MAX as u128 {
        u64::MAX
    } else {
        ns as u64
    }
}

} // verus!
