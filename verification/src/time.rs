//! Spans of time and the wall clock.

use vstd::prelude::*;

verus! {

pub const NANOS_PER_SEC: u128 = 1_000_000_000;

pub const NANOS_PER_MILLI: u128 = 1_000_000;

pub const NANOS_PER_MICRO: u128 = 1_000;

/// A length of time, in whole nanoseconds.
#[derive(Clone, Copy, Debug, PartialEq, Eq, Structural)]
pub struct Span {
    pub nanos: u128,
}

impl Span {
    pub fn from_secs(secs: u64) -> (s: Span)
        ensures
            s.nanos == secs * NANOS_PER_SEC,
    {
        Span { nanos: secs as u128 * NANOS_PER_SEC }
    }

    pub fn from_millis(millis: u64) -> (s: Span)
        ensures
            s.nanos == millis * NANOS_PER_MILLI,
    {
        Span { nanos: millis as u128 * NANOS_PER_MILLI }
    }

    pub fn from_micros(micros: u64) -> (s: Span)
        ensures
            s.nanos == micros * NANOS_PER_MICRO,
    {
        Span { nanos: micros as u128 * NANOS_PER_MICRO }
    }
}

/// Whole milliseconds of `nanos`, held at the largest 64-bit number.
pub open spec fn millis_of(nanos: nat) -> nat {
    if nanos / 1_000_000 <= u64::MAX {
        nanos / 1_000_000
    } else {
        u64::MAX as nat
    }
}

/// Whole milliseconds in `span`; `u64::MAX` where they do not fit.
pub fn duration_millis_u64(span: Span) -> (ms: u64)
    ensures
        ms == millis_of(span.nanos as nat),
{
    let ms: u128 = span.nanos / NANOS_PER_MILLI;
    if ms <= u64::MAX as u128 {
        ms as u64
    } else {
        u64::MAX
    }
}

/// `SystemTime::elapsed` from the Unix epoch: how far the wall clock is past it, or nothing where
/// the clock stands before it. What the clock shows is left unsaid.
#[verifier::external_body]
fn clock_since_epoch() -> (elapsed: Option<u128>) {
    std::time::UNIX_EPOCH.elapsed().ok().map(|d| d.as_nanos())
}

/// The Unix time in milliseconds for a clock that is `elapsed` past the epoch; zero for one that
/// stands before it.
pub open spec fn unix_ms_of(elapsed: Option<Span>) -> nat {
    match elapsed {
        Some(span) => millis_of(span.nanos as nat),
        None => 0,
    }
}

/// Turns a clock reading into Unix milliseconds.
pub fn unix_ms(elapsed: Option<Span>) -> (ms: u64)
    ensures
        ms == unix_ms_of(elapsed),
{
    match elapsed {
        Some(span) => duration_millis_u64(span),
        None => 0,
    }
}

/// The current Unix time in milliseconds.
pub fn now_unix_ms() -> (ms: u64)
    ensures
        exists|elapsed: Option<Span>| ms == unix_ms_of(elapsed),
{
    let elapsed = match clock_since_epoch() {
        Some(nanos) => Some(Span { nanos }),
        None => None,
    };
    unix_ms(elapsed)
}

/// Whole milliseconds are counted, what is left over is dropped, and a number too large for the
/// result becomes the largest.
pub proof fn milliseconds_are_counted_whole(ms: u64, rest: nat)
    requires
        rest < 1_000_000,
    ensures
        millis_of(ms as nat * 1_000_000 + rest) == ms,
        forall|nanos: nat|
            nanos >= 0x1_0000_0000_0000_0000 * 1_000_000 ==> #[trigger] millis_of(nanos)
                == u64::MAX,
{
}

} // verus!
