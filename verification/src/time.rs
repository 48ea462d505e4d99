//! Points on the monotonic clock, in nanoseconds since an arbitrary start.

use vstd::prelude::*;

verus! {

/// Nanoseconds in a second.
pub const NANOS: u64 = 1_000_000_000;

/// Nanoseconds from `since` to `now`, none where `since` lies ahead.
pub open spec fn elapsed_ns(now: u64, since: u64) -> nat {
    if since <= now {
        (now - since) as nat
    } else {
        0
    }
}

/// Nanoseconds in `secs` seconds.
pub open spec fn seconds(secs: u64) -> nat {
    secs as nat * NANOS as nat
}

/// Nanoseconds from `since` to `now`.
pub fn elapsed(now: u64, since: u64) -> (r: u64)
    ensures
        r == elapsed_ns(now, since),
{
    now.saturating_sub(since)
}

/// Tells whether a span of `ns` nanoseconds is `secs` seconds or more.
pub fn lasts(ns: u64, secs: u64) -> (r: bool)
    ensures
        r == (ns >= seconds(secs)),
{
    ns as u128 >= secs as u128 * NANOS as u128
}

/// Tells whether a span of `ns` nanoseconds is longer than `secs` seconds.
pub fn exceeds(ns: u64, secs: u64) -> (r: bool)
    ensures
        r == (ns > seconds(secs)),
{
    ns as u128 > secs as u128 * NANOS as u128
}

/// The whole seconds from `since` to `now`.
pub fn elapsed_secs(now: u64, since: u64) -> (r: u64)
    ensures
        r == elapsed_ns(now, since) / NANOS as nat,
{
    elapsed(now, since) / NANOS
}

/// A span is the difference of its ends, none where it would be negative, and a
/// second has a thousand million nanoseconds.
pub proof fn law_spans_are_differences(now: u64, since: u64, secs: u64)
    ensures
        since <= now ==> since + elapsed_ns(now, since) == now,
        since >= now ==> elapsed_ns(now, since) == 0,
        seconds(secs) == secs * 1_000_000_000,
        NANOS == 1_000_000_000,
{
}

} // verus!
