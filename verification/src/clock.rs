//! Time as the strategies see it: readings of a monotonic clock in
//! nanoseconds, and lengths of time in milliseconds.

use vstd::prelude::*;

verus! {

/// The time from `since` to `now`; zero if `now` comes first.
pub open spec fn elapsed(since: u128, now: u128) -> nat {
    if now >= since {
        (now - since) as nat
    } else {
        0
    }
}

/// A length of time in milliseconds, in nanoseconds.
pub open spec fn ms_to_ns(ms: u64) -> nat {
    (ms * 1_000_000) as nat
}

/// Whether at least `ms` milliseconds passed from `since` to `now`.
pub open spec fn has_elapsed(since: u128, now: u128, ms: u64) -> bool {
    elapsed(since, now) >= ms_to_ns(ms)
}

/// The time from `since` to `now`, in nanoseconds; zero if `now` comes first.
pub fn elapsed_ns(since: u128, now: u128) -> (r: u128)
    ensures
        r == elapsed(since, now),
{
    if now >= since {
        now - since
    } else {
        0
    }
}

/// Whether a length of `elapsed` nanoseconds is at least `ms` milliseconds.
pub fn at_least_ms(elapsed: u128, ms: u64) -> (r: bool)
    ensures
        r == (elapsed >= ms_to_ns(ms)),
{
    let ms_ns: u128 = (ms as u128) * 1_000_000u128;
    elapsed >= ms_ns
}

} // verus!
