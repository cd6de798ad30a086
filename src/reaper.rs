//! The decisions of the background task that purges expired keys. The task
//! itself sleeps and locks; each round it asks here how long to sleep before
//! it sweeps the store.
use vstd::prelude::*;
use crate::utils::{millis_until, millis_until_spec};

verus! {

/// How long the task sleeps when no expiry is pending, in milliseconds.
pub const IDLE_MILLIS: u64 = 10000;

/// How long to sleep, at `now`, before the next sweep: until the earliest
/// pending expiry, or the idle interval when none is pending. The sweep
/// follows the sleep in either case.
pub open spec fn sleep_before_sweep_spec(next_expiration: Option<u64>, now: u64) -> u64 {
    match next_expiration {
        Some(t) => millis_until_spec(now, t),
        None => IDLE_MILLIS,
    }
}

/// How long to sleep, at `now`, before the next sweep.
pub fn sleep_before_sweep(next_expiration: Option<u64>, now: u64) -> (r: u64)
    ensures
        r == sleep_before_sweep_spec(next_expiration, now),
{
    match next_expiration {
        Some(t) => millis_until(now, t),
        None => IDLE_MILLIS,
    }
}

} // verus!
