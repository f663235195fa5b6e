//! Time as plain numbers: moments and spans are nanoseconds. The application
//! reads the clock; the library only compares.

use vstd::prelude::*;

verus! {

/// A moment or a span of time, in nanoseconds.
pub type Nanos = u128;

/// A number of seconds in nanoseconds.
pub open spec fn seconds(n: int) -> int {
    n * 1_000_000_000
}

/// A number of seconds as a span.
pub fn secs(n: u64) -> (r: Nanos)
    ensures
        r == seconds(n as int),
{
    n as u128 * 1_000_000_000
}

/// A number of milliseconds as a span.
pub fn millis(n: u64) -> (r: Nanos)
    ensures
        r == n * 1_000_000,
{
    n as u128 * 1_000_000
}

/// The span from `then` to `now`; none where `then` lies ahead.
pub open spec fn elapsed(now: Nanos, then: Nanos) -> int {
    if now >= then {
        now - then
    } else {
        0
    }
}

/// The span from `then` to `now`; none where `then` lies ahead.
pub fn since(now: Nanos, then: Nanos) -> (r: Nanos)
    ensures
        r == elapsed(now, then),
{
    if now >= then {
        now - then
    } else {
        0
    }
}

/// A second is a thousand million nanoseconds, and spans add up.
pub proof fn law_seconds_add_up(a: int, b: int)
    ensures
        seconds(1) == 1_000_000_000,
        seconds(a + b) == seconds(a) + seconds(b),
{
}

/// Time that has passed brings `then` to `now`; a moment ahead is no time away.
pub proof fn law_elapsed_leads_to_now(now: Nanos, then: Nanos)
    ensures
        then <= now ==> then + elapsed(now, then) == now,
        then > now ==> elapsed(now, then) == 0,
{
}

} // verus!
