//! Wall-clock time in milliseconds since the Unix epoch.
use vstd::prelude::*;

verus! {

/// Relies on `std::time::SystemTime::now` and `duration_since(UNIX_EPOCH)`:
/// the current time in whole milliseconds, or 0 for a clock set before the
/// epoch. Nothing is promised of the value itself.
#[verifier::external_body]
pub fn now_millis() -> (r: u64) {
    match std::time::SystemTime::now().duration_since(std::time::UNIX_EPOCH) {
        Ok(d) => d.as_millis() as u64,
        Err(_) => 0,
    }
}

/// The absolute time `millis` milliseconds after `now`, or `None` where it
/// does not fit in 64 bits.
pub fn timestamp_after(now: u64, millis: u64) -> (r: Option<u64>)
    ensures
        r == timestamp_after_spec(now, millis),
{
    now.checked_add(millis)
}

/// The absolute time `millis` milliseconds from now, or `None` where it does
/// not fit in 64 bits.
pub fn millis_to_timestamp_from_now(millis: u64) -> (r: Option<u64>)
    ensures
        exists|now: u64| #[trigger] timestamp_after_spec(now, millis) == r,
{
    let now = now_millis();
    let r = timestamp_after(now, millis);
    assert(timestamp_after_spec(now, millis) == r);
    r
}

/// The milliseconds from `now` until `timestamp`; zero once it has passed.
pub open spec fn millis_until_spec(now: u64, timestamp: u64) -> u64 {
    if timestamp > now {
        (timestamp - now) as u64
    } else {
        0
    }
}

/// The milliseconds from `now` until `timestamp`; zero once it has passed.
pub fn millis_until(now: u64, timestamp: u64) -> (r: u64)
    ensures
        r == millis_until_spec(now, timestamp),
{
    if timestamp > now {
        timestamp - now
    } else {
        0
    }
}

/// The milliseconds from now until `timestamp`; zero once it has passed.
pub fn duration_until_timestamp(timestamp: u64) -> (r: u64)
    ensures
        exists|now: u64| r == #[trigger] millis_until_spec(now, timestamp),
        r <= timestamp,
{
    let now = now_millis();
    let r = millis_until(now, timestamp);
    assert(r == millis_until_spec(now, timestamp));
    r
}

pub open spec fn timestamp_after_spec(now: u64, millis: u64) -> Option<u64> {
    if now + millis <= u64::MAX {
        Some((now + millis) as u64)
    } else {
        None
    }
}

} // verus!
