//! Metrics derived from the raw measurements of a trial.
//!
//! All of them are exact quotients. A quotient whose divisor is zero does
//! not exist, and is reported as unavailable rather than as infinity.

use crate::ratio::Ratio;
use vstd::prelude::*;

verus! {

/// Bytes in a megabyte, as used for throughput.
pub const BYTES_PER_MEGABYTE: u128 = 1_048_576;

/// Nanoseconds in a second.
pub const NANOS_PER_SECOND: u128 = 1_000_000_000;

/// Nanoseconds in a millisecond.
pub const NANOS_PER_MILLI: u128 = 1_000_000;

/// The time a trial took: whole seconds plus a remainder in nanoseconds.
#[derive(Clone, Copy, Debug, PartialEq, Eq, Structural)]
pub struct Elapsed {
    pub secs: u64,
    pub nanos: u32,
}

impl Elapsed {
    /// The duration in nanoseconds.
    pub open spec fn in_nanos(self) -> nat {
        (self.secs * 1_000_000_000 + self.nanos) as nat
    }

    /// The time from `start` to `end`, two readings of one clock that does
    /// not run backwards. If `end` lies before `start` all the same, no time
    /// has passed.
    pub fn between(start: Elapsed, end: Elapsed) -> (elapsed: Elapsed)
        ensures
            end.in_nanos() >= start.in_nanos() ==> elapsed.in_nanos() == end.in_nanos()
                - start.in_nanos(),
            end.in_nanos() < start.in_nanos() ==> elapsed.in_nanos() == 0,
    {
        let from: u128 = start.total_nanos();
        let to: u128 = end.total_nanos();
        if to < from {
            return Elapsed { secs: 0, nanos: 0 };
        }
        let span: u128 = to - from;
        let whole: u128 = span / NANOS_PER_SECOND;
        if whole > u64::MAX as u128 {
            let rest: u128 = span - u64::MAX as u128 * NANOS_PER_SECOND;
            Elapsed { secs: u64::MAX, nanos: rest as u32 }
        } else {
            let rest: u128 = span % NANOS_PER_SECOND;
            assert(span == 1_000_000_000 * (span / 1_000_000_000) + span % 1_000_000_000);
            Elapsed { secs: whole as u64, nanos: rest as u32 }
        }
    }

    /// The duration in nanoseconds.
    pub fn total_nanos(&self) -> (n: u128)
        ensures
            n == self.in_nanos(),
    {
        self.secs as u128 * NANOS_PER_SECOND + self.nanos as u128
    }

    /// The duration in whole milliseconds, rounded down.
    pub fn total_millis(&self) -> (ms: u128)
        ensures
            ms == self.in_nanos() / 1_000_000,
    {
        self.total_nanos() / NANOS_PER_MILLI
    }

    /// Whether no time passed at all.
    pub fn is_zero(&self) -> (zero: bool)
        ensures
            zero <==> self.in_nanos() == 0,
    {
        self.secs == 0 && self.nanos == 0
    }
}

/// `output_size / input_size`: below one when the output is smaller than the
/// input, exactly one when the size did not change. Unavailable when the
/// input was empty.
pub fn size_ratio(output_size: u128, input_size: u128) -> (ratio: Option<Ratio>)
    ensures
        input_size == 0 <==> ratio is None,
        input_size != 0 ==> ratio == Some(Ratio { num: output_size, den: input_size }),
        input_size != 0 && output_size == input_size ==> ratio->0.is_int(1),
{
    Ratio::new(output_size, input_size)
}

/// Throughput in megabytes per second: `(bytes / 2^20) / seconds`, written
/// as the quotient of `bytes * 10^9` by `2^20 * nanoseconds`. Unavailable
/// for a trial that took no measurable time.
pub fn megabytes_per_second(bytes: u64, elapsed: Elapsed) -> (speed: Option<Ratio>)
    ensures
        elapsed.in_nanos() == 0 <==> speed is None,
        elapsed.in_nanos() != 0 ==> speed == Some(
            Ratio {
                num: (bytes * 1_000_000_000) as u128,
                den: (1_048_576 * elapsed.in_nanos()) as u128,
            },
        ),
{
    let nanos: u128 = elapsed.total_nanos();
    if nanos == 0 {
        None
    } else {
        Some(Ratio { num: bytes as u128 * NANOS_PER_SECOND, den: BYTES_PER_MEGABYTE * nanos })
    }
}

/// Items handled per second: `items / seconds`, written as the quotient of
/// `items * 10^9` by the nanoseconds. Unavailable for a trial that took no
/// measurable time.
pub fn items_per_second(items: u64, elapsed: Elapsed) -> (rate: Option<Ratio>)
    ensures
        elapsed.in_nanos() == 0 <==> rate is None,
        elapsed.in_nanos() != 0 ==> rate == Some(
            Ratio { num: (items * 1_000_000_000) as u128, den: elapsed.in_nanos() as u128 },
        ),
{
    let nanos: u128 = elapsed.total_nanos();
    if nanos == 0 {
        None
    } else {
        Some(Ratio { num: items as u128 * NANOS_PER_SECOND, den: nanos })
    }
}

} // verus!
