//! Spans of time and points on a monotonic clock, counted in whole nanoseconds.

use vstd::arithmetic::power2::{
    lemma2_to64, lemma_pow2_adds, lemma_pow2_strictly_increases, pow2,
};
use vstd::prelude::*;

use crate::binary::{double, in_steps, nearest, Binary, DOUBLE_DIGITS, DOUBLE_PLACES, SPAN};
use crate::natural::Natural;

verus! {

/// Nanoseconds in a millisecond.
pub const NANOS_PER_MILLI: u128 = 1_000_000;

/// Nanoseconds in a second.
pub const NANOS_PER_SEC: u128 = 1_000_000_000;

/// The sum of two counts, held at the largest count there is.
pub open spec fn capped_sum(a: u128, b: u128) -> u128 {
    if a + b > u128::MAX {
        u128::MAX
    } else {
        (a + b) as u128
    }
}

/// The difference of two counts, held at zero.
pub open spec fn floored_difference(a: u128, b: u128) -> u128 {
    if a >= b {
        (a - b) as u128
    } else {
        0
    }
}

/// A length of time.
#[derive(Debug, Clone, Copy, PartialEq, Eq, Structural)]
pub struct Duration {
    pub nanos: u128,
}

/// A reading of a clock that never runs backwards. Only differences between two readings of
/// the same clock mean anything.
#[derive(Debug, Clone, Copy, PartialEq, Eq, Structural)]
pub struct Instant {
    pub nanos: u128,
}

/// Whole milliseconds in a count of nanoseconds, held at the largest `u64`.
pub open spec fn whole_millis(nanos: u128) -> u64 {
    if nanos / NANOS_PER_MILLI > u64::MAX {
        u64::MAX
    } else {
        (nanos / NANOS_PER_MILLI) as u64
    }
}

/// A count of nanoseconds in seconds, in double precision: the whole seconds and what is left are
/// taken to it one by one, and then together.
pub open spec fn seconds(nanos: u128) -> nat {
    double(
        double(in_steps((nanos / NANOS_PER_SEC) as nat, DOUBLE_PLACES), 1) + double(
            in_steps((nanos % NANOS_PER_SEC) as nat, DOUBLE_PLACES),
            NANOS_PER_SEC as nat,
        ),
        1,
    )
}

/// A double precision number of seconds in nanoseconds, to the nearest.
pub open spec fn span_of(secs: nat) -> nat {
    nearest(secs * NANOS_PER_SEC as nat, pow2(DOUBLE_PLACES as nat))
}

impl Duration {
    /// This length of time in seconds, in double precision.
    pub fn as_seconds(&self) -> (secs: Binary)
        ensures
            secs@ == seconds(self.nanos),
            secs@ <= pow2(2_000),
            secs.exponent <= crate::binary::REACH,
    {
        let whole = Binary::ratio(self.nanos / NANOS_PER_SEC, 1, DOUBLE_PLACES, DOUBLE_DIGITS);
        let rest = Binary::ratio(
            self.nanos % NANOS_PER_SEC,
            1_000_000_000,
            DOUBLE_PLACES,
            DOUBLE_DIGITS,
        );
        proof {
            lemma2_to64();
            lemma_pow2_adds(1, 1202);
            lemma_pow2_strictly_increases(1203, 2_000);
            lemma_pow2_strictly_increases(2_000, SPAN as nat);
            crate::binary::rounding_stays_below(
                whole@ + rest@,
                1,
                DOUBLE_DIGITS as nat,
                2_000,
            );
        }
        whole.plus(&rest, DOUBLE_DIGITS)
    }

    /// The length of time that a number of seconds is, where it can be counted: less than two to
    /// the 64 seconds.
    pub fn from_seconds(secs: &Binary) -> (d: Option<Duration>)
        ensures
            match d {
                Some(d) => secs@ < in_steps(pow2(64), DOUBLE_PLACES) && d.nanos == span_of(secs@),
                None => secs@ >= in_steps(pow2(64), DOUBLE_PLACES),
            },
    {
        let most = crate::binary::doubled(
            &Natural::from_whole(0x1_0000_0000_0000_0000),
            DOUBLE_PLACES,
        );
        proof {
            lemma2_to64();
        }
        match secs.steps().minus(&most) {
            Some(_) => None,
            None => Some(Duration { nanos: secs.nearest_times(1_000_000_000, DOUBLE_PLACES) }),
        }
    }

    /// No time at all.
    pub fn zero() -> (d: Duration)
        ensures
            d.nanos == 0,
    {
        Duration { nanos: 0 }
    }

    pub fn from_millis(ms: u64) -> (d: Duration)
        ensures
            d.nanos == ms * NANOS_PER_MILLI,
    {
        Duration { nanos: ms as u128 * NANOS_PER_MILLI }
    }

    pub fn from_secs(secs: u64) -> (d: Duration)
        ensures
            d.nanos == secs * NANOS_PER_SEC,
    {
        Duration { nanos: secs as u128 * NANOS_PER_SEC }
    }

    pub fn from_nanos(nanos: u64) -> (d: Duration)
        ensures
            d.nanos == nanos,
    {
        Duration { nanos: nanos as u128 }
    }

    /// Whole milliseconds, held at the largest `u64`.
    pub fn as_millis(&self) -> (ms: u64)
        ensures
            ms == whole_millis(self.nanos),
    {
        let ms: u128 = self.nanos / NANOS_PER_MILLI;
        if ms > u64::MAX as u128 {
            u64::MAX
        } else {
            ms as u64
        }
    }

    pub fn saturating_add(&self, other: Duration) -> (sum: Duration)
        ensures
            sum.nanos == capped_sum(self.nanos, other.nanos),
    {
        if self.nanos > u128::MAX - other.nanos {
            Duration { nanos: u128::MAX }
        } else {
            Duration { nanos: self.nanos + other.nanos }
        }
    }

    pub fn saturating_sub(&self, other: Duration) -> (difference: Duration)
        ensures
            difference.nanos == floored_difference(self.nanos, other.nanos),
    {
        if self.nanos >= other.nanos {
            Duration { nanos: self.nanos - other.nanos }
        } else {
            Duration { nanos: 0 }
        }
    }
}

impl Instant {
    /// How long before `self` the reading `earlier` was taken; nothing if it was not earlier.
    pub fn since(&self, earlier: Instant) -> (d: Duration)
        ensures
            d.nanos == floored_difference(self.nanos, earlier.nanos),
    {
        if self.nanos >= earlier.nanos {
            Duration { nanos: self.nanos - earlier.nanos }
        } else {
            Duration { nanos: 0 }
        }
    }

    /// The reading `d` after this one.
    pub fn after(&self, d: Duration) -> (later: Instant)
        ensures
            later.nanos == capped_sum(self.nanos, d.nanos),
    {
        if self.nanos > u128::MAX - d.nanos {
            Instant { nanos: u128::MAX }
        } else {
            Instant { nanos: self.nanos + d.nanos }
        }
    }
}

/// A span of so many whole milliseconds, and less than one more, is so many milliseconds; a second
/// is a thousand of them, and a millisecond a million nanoseconds.
pub proof fn milliseconds_are_counted_whole(ms: u64, rest: u128)
    requires
        rest < 1_000_000,
    ensures
        whole_millis((ms * 1_000_000 + rest) as u128) == ms,
        NANOS_PER_MILLI == 1_000_000,
        NANOS_PER_SEC == 1_000 * NANOS_PER_MILLI,
{
    assert((ms * 1_000_000 + rest) / 1_000_000 == ms);
}

/// Counts add up and are taken from one another as numbers are, within the range there is.
pub proof fn counts_add_and_subtract(a: u128, b: u128)
    ensures
        a + b <= u128::MAX ==> capped_sum(a, b) == a + b,
        a + b <= u128::MAX ==> floored_difference(capped_sum(a, b), b) == a,
        capped_sum(a, b) >= a && capped_sum(a, b) >= b,
        a >= b ==> floored_difference(a, b) == a - b,
        a < b ==> floored_difference(a, b) == 0,
{
}

} // verus!
