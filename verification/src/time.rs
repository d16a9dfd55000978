//! Moments and spans of time, in nanoseconds.
use vstd::prelude::*;

verus! {

/// One second.
pub const SECOND: u64 = 1_000_000_000;

/// One millisecond.
pub const MILLISECOND: u64 = 1_000_000;

/// The moment `span` after `now`, or the last moment there is.
pub open spec fn later(now: u64, span: u64) -> u64 {
    if now + span > u64::MAX {
        u64::MAX
    } else {
        (now + span) as u64
    }
}

/// How long `now` is after `then`, nothing where it is before.
pub open spec fn since(then: u64, now: u64) -> u64 {
    if now < then {
        0
    } else {
        (now - then) as u64
    }
}

/// The moment `span` after `now`.
pub fn after(now: u64, span: u64) -> (r: u64)
    ensures
        r == later(now, span),
{
    if span > u64::MAX - now {
        u64::MAX
    } else {
        now + span
    }
}

/// How long `now` is after `then`.
pub fn elapsed(then: u64, now: u64) -> (r: u64)
    ensures
        r == since(then, now),
{
    if now < then {
        0
    } else {
        now - then
    }
}

/// So many seconds, or the longest span there is.
pub open spec fn span_of(secs: u64) -> u64 {
    if secs * SECOND > u64::MAX {
        u64::MAX
    } else {
        (secs * SECOND) as u64
    }
}

/// So many seconds.
pub fn seconds(secs: u64) -> (r: u64)
    ensures
        r == span_of(secs),
{
    if secs > u64::MAX / SECOND {
        u64::MAX
    } else {
        secs * SECOND
    }
}

/// So many milliseconds, or the longest span there is.
pub open spec fn millis_span(ms: u64) -> u64 {
    if ms * MILLISECOND > u64::MAX {
        u64::MAX
    } else {
        (ms * MILLISECOND) as u64
    }
}

/// So many milliseconds.
pub fn milliseconds(ms: u64) -> (r: u64)
    ensures
        r == millis_span(ms),
{
    if ms > u64::MAX / MILLISECOND {
        u64::MAX
    } else {
        ms * MILLISECOND
    }
}

/// The value within `low..=high`.
pub open spec fn clamped(v: u64, low: u64, high: u64) -> u64 {
    if v < low {
        low
    } else if v > high {
        high
    } else {
        v
    }
}

/// `v`, moved into `low..=high`.
pub fn clamp(v: u64, low: u64, high: u64) -> (r: u64)
    requires
        low <= high,
    ensures
        r == clamped(v, low, high),
{
    if v < low {
        low
    } else if v > high {
        high
    } else {
        v
    }
}

} // verus!
