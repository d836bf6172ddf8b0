//! The transport state, and the frame clock that keeps it honest.

use vstd::arithmetic::div_mod::{lemma_fundamental_div_mod, lemma_mod_bound};
use vstd::arithmetic::power2::{
    lemma2_to64, lemma2_to64_rest, lemma_pow2_adds, lemma_pow2_pos, lemma_pow2_strictly_increases,
    pow2,
};
use vstd::prelude::*;

use crate::binary::{
    double, held, in_steps, rounding_moves_little, rounding_stays_below, what_fits_is_exact,
    DOUBLE_DIGITS, DOUBLE_PLACES, SPAN,
};
use crate::time::{seconds, whole_millis, Duration, NANOS_PER_SEC};

verus! {

/// The discrete transport state.
#[derive(Debug, Clone, Copy, PartialEq, Eq, Structural)]
pub enum PlaybackState {
    Idle,
    Loading,
    Playing,
    Paused,
    Ended,
    Error,
}

/// Frames emitted by the output, on the source timeline.
///
/// `epoch` moves on every discontinuity, so a rebased counter can't be misread as forward
/// progress: a reader compares epochs before trusting a difference.
#[derive(Debug, Clone, Copy, PartialEq, Eq, Structural)]
pub struct FrameClock {
    pub frames: u64,
    pub epoch: u64,
    /// Frames per second of the source; 0 until a stream has said.
    pub sample_rate: u32,
}

impl Default for FrameClock {
    fn default() -> (clock: Self)
        ensures
            clock == (FrameClock { frames: 0, epoch: 0, sample_rate: 0 }),
    {
        FrameClock::new()
    }
}

/// The number of whole frames in `nanos` at `rate` frames a second, as double precision has it,
/// held at the largest `u64`.
pub open spec fn frames_in(nanos: u128, rate: u32) -> u64 {
    held(double(seconds(nanos) * rate as nat, 1) / pow2(DOUBLE_PLACES as nat))
}

/// How long `frames` last at `rate` frames a second, in whole nanoseconds held at the largest
/// `u64`; nothing while the rate is unknown.
pub open spec fn nanos_of(frames: u64, rate: u32) -> u64 {
    if rate == 0 {
        0
    } else if frames * NANOS_PER_SEC / (rate as int) > u64::MAX {
        u64::MAX
    } else {
        (frames * NANOS_PER_SEC / (rate as int)) as u64
    }
}

impl FrameClock {
    /// Where the listener is, in nanoseconds.
    pub open spec fn at(self) -> u64 {
        nanos_of(self.frames, self.sample_rate)
    }

    /// The clock rebased for a new stream at `rate`.
    pub open spec fn rebased(self, rate: u32) -> FrameClock {
        FrameClock { frames: 0, epoch: self.epoch.wrapping_add(1), sample_rate: rate }
    }

    /// The clock moved to `nanos`, which only a clock with a rate can be.
    pub open spec fn sought(self, nanos: u128) -> FrameClock {
        if self.sample_rate == 0 {
            self
        } else {
            FrameClock {
                frames: frames_in(nanos, self.sample_rate),
                epoch: self.epoch.wrapping_add(1),
                ..self
            }
        }
    }

    /// The clock after the output was reopened under the same stream.
    pub open spec fn reopened(self) -> FrameClock {
        FrameClock { epoch: self.epoch.wrapping_add(1), ..self }
    }

    /// The clock moved onto a track that was joined on at `boundary`: it counts from there.
    pub open spec fn joined_at(self, boundary: u64) -> FrameClock {
        FrameClock {
            frames: if self.frames >= boundary {
                (self.frames - boundary) as u64
            } else {
                0
            },
            epoch: self.epoch.wrapping_add(1),
            ..self
        }
    }

    pub fn new() -> (clock: FrameClock)
        ensures
            clock == (FrameClock { frames: 0, epoch: 0, sample_rate: 0 }),
    {
        FrameClock { frames: 0, epoch: 0, sample_rate: 0 }
    }

    /// Count `frames` more frames as emitted.
    pub fn advance(&mut self, frames: u64)
        ensures
            *final(self) == (FrameClock {
                frames: old(self).frames.wrapping_add(frames),
                ..*old(self)
            }),
    {
        self.frames = self.frames.wrapping_add(frames);
    }

    pub fn frames(&self) -> (frames: u64)
        ensures
            frames == self.frames,
    {
        self.frames
    }

    pub fn epoch(&self) -> (epoch: u64)
        ensures
            epoch == self.epoch,
    {
        self.epoch
    }

    /// Rebase for a new track: no frames emitted yet, at `sample_rate`, in a new epoch.
    pub fn reset(&mut self, sample_rate: u32)
        ensures
            *final(self) == old(self).rebased(sample_rate),
    {
        self.frames = 0;
        self.sample_rate = sample_rate;
        self.epoch = self.epoch.wrapping_add(1);
    }

    /// Seek discontinuity: the frames emitted now stand for `position`, in a new epoch. Nothing
    /// happens while the rate is unknown.
    pub fn seek(&mut self, position: Duration)
        ensures
            *final(self) == old(self).sought(position.nanos),
    {
        if self.sample_rate == 0 {
            return;
        }
        self.frames = whole_frames(position, self.sample_rate);
        self.epoch = self.epoch.wrapping_add(1);
    }

    /// An output discontinuity that does not move the timeline: the same track keeps playing
    /// through a reopened stream, so only the epoch moves.
    pub fn mark_device_change(&mut self)
        ensures
            *final(self) == old(self).reopened(),
    {
        self.epoch = self.epoch.wrapping_add(1);
    }

    /// The listener has crossed into a track that was joined on at `boundary`: count from there,
    /// in a new epoch.
    pub fn rebase(&mut self, boundary: u64)
        ensures
            *final(self) == old(self).joined_at(boundary),
    {
        self.frames = if self.frames >= boundary {
            self.frames - boundary
        } else {
            0
        };
        self.epoch = self.epoch.wrapping_add(1);
    }

    /// Position derived from emitted frames; zero until a rate is set.
    pub fn position(&self) -> (d: Duration)
        ensures
            d.nanos == self.at(),
    {
        if self.sample_rate == 0 {
            return Duration::zero();
        }
        let frames: u128 = self.frames as u128;
        assert(frames * NANOS_PER_SEC <= u64::MAX * 1_000_000_000);
        let nanos: u128 = frames * NANOS_PER_SEC / (self.sample_rate as u128);
        if nanos > u64::MAX as u128 {
            Duration::from_nanos(u64::MAX)
        } else {
            Duration::from_nanos(nanos as u64)
        }
    }

    /// Position in whole milliseconds.
    pub fn position_ms(&self) -> (ms: u64)
        ensures
            ms == whole_millis(self.at() as u128),
    {
        self.position().as_millis()
    }
}

/// The number of whole frames in `nanos` at `rate` frames a second.
pub fn whole_frames(position: Duration, rate: u32) -> (frames: u64)
    ensures
        frames == frames_in(position.nanos, rate),
{
    proof {
        lemma_pow2_strictly_increases(2_000, SPAN as nat);
    }
    position.as_seconds().times(rate, DOUBLE_DIGITS).whole(DOUBLE_PLACES)
}

/// A reopened output is not a jump: the epoch moves and the position does not.
pub proof fn a_device_change_keeps_the_position(clock: FrameClock)
    ensures
        clock.reopened().at() == clock.at(),
        clock.reopened().epoch != clock.epoch,
{
}

/// A new stream starts at zero, in an epoch of its own.
pub proof fn a_new_stream_starts_at_zero(clock: FrameClock, rate: u32)
    ensures
        clock.rebased(rate).at() == 0,
        clock.rebased(rate).epoch != clock.epoch,
{
    if rate != 0 {
        assert(0int / (rate as int) == 0) by (nonlinear_arith)
            requires
                rate != 0,
        ;
    }
}

/// Seeks to less than this many seconds land within a frame.
pub const NEAR_SECS: u128 = 4_000_000;

/// How far double precision takes the frames sought from what they are exactly: less than a
/// nanosecond's worth of frames.
proof fn frames_are_near(nanos: u128, rate: u32)
    requires
        rate > 0,
        nanos < NEAR_SECS * NANOS_PER_SEC,
    ensures
        ({
            let v = double(seconds(nanos) * rate as nat, 1);
            let u = pow2(DOUBLE_PLACES as nat);
            &&& NANOS_PER_SEC * v < rate * (nanos + 1) * u
            &&& NANOS_PER_SEC * v > rate * (nanos - 1) * u
        }),
{
    let g = NANOS_PER_SEC as int;
    let r = rate as int;
    let whole = (nanos / NANOS_PER_SEC) as nat;
    let rest = (nanos % NANOS_PER_SEC) as nat;
    let u = pow2(DOUBLE_PLACES as nat) as int;
    let p = pow2(DOUBLE_DIGITS as nat) as int;
    let w = pow2(1021) as int;
    lemma2_to64_rest();
    lemma2_to64();
    lemma_pow2_adds(53, 1021);
    lemma_pow2_strictly_increases(2, 1021);
    assert(u == p * w);
    assert(p == 0x20_0000_0000_0000);
    what_fits_is_exact(whole, DOUBLE_DIGITS as nat, DOUBLE_PLACES as nat);
    let f = double(in_steps(rest, DOUBLE_PLACES), NANOS_PER_SEC as nat) as int;
    rounding_moves_little(in_steps(rest, DOUBLE_PLACES), NANOS_PER_SEC as nat, 53);
    assert(rest * u < g * u) by (nonlinear_arith)
        requires
            rest < g,
            u > 0,
    ;
    rounding_stays_below(
        in_steps(rest, DOUBLE_PLACES),
        NANOS_PER_SEC as nat,
        53,
        DOUBLE_PLACES as nat,
    );
    let s = whole as int;
    let t = seconds(nanos) as int;
    assert(t == double((s * u + f) as nat, 1));
    rounding_moves_little((s * u + f) as nat, 1, 53);
    let v = double((t * r) as nat, 1) as int;
    assert(t * r >= 0) by (nonlinear_arith)
        requires
            t >= 0,
            r > 0,
    ;
    rounding_moves_little((t * r) as nat, 1, 53);
    // The three roundings, each by its share.
    let first = f * g - rest * u;
    assert(-(g * w + g) <= first <= g * w + g) by (nonlinear_arith)
        requires
            p * first <= rest * u + g * p,
            p * (-first) <= rest * u + g * p,
            0 <= rest < g,
            u == p * w,
            p > 0,
            w > 0,
    ;
    let second = t - (s * u + f);
    assert(-((s + 1) * w + 1) <= second <= (s + 1) * w + 1) by (nonlinear_arith)
        requires
            p * second <= s * u + f + p,
            p * (-second) <= s * u + f + p,
            f <= u,
            u == p * w,
            p > 0,
            w > 0,
            s >= 0,
    ;
    assert(t <= (s + 2) * u) by (nonlinear_arith)
        requires
            t - (s * u + f) <= (s + 1) * w + 1,
            f <= u,
            u == p * w,
            s + 2 <= p,
            w >= 1,
            s >= 0,
    ;
    let third = v - t * r;
    assert(-((s + 2) * (r * w) + 1) <= third <= (s + 2) * (r * w) + 1) by (nonlinear_arith)
        requires
            p * third <= t * r + p,
            p * (-third) <= t * r + p,
            t <= (s + 2) * u,
            u == p * w,
            p > 0,
            w > 0,
            r > 0,
    ;
    let off = g * v - r * (nanos * u);
    assert(off == g * third + r * (g * second) + r * first) by (nonlinear_arith)
        requires
            off == g * v - r * (nanos * u),
            third == v - t * r,
            second == t - (s * u + f),
            first == f * g - rest * u,
            nanos == g * s + rest,
    ;
    let rw = r * w;
    let x = g * rw;
    let bound = (2 * s + 4) * x + g + 2 * (r * g);
    assert(-((s + 2) * x + g) <= g * third <= (s + 2) * x + g) by (nonlinear_arith)
        requires
            -((s + 2) * rw + 1) <= third <= (s + 2) * rw + 1,
            x == g * rw,
            g > 0,
    ;
    assert(-((s + 1) * x + r * g) <= r * (g * second) <= (s + 1) * x + r * g) by (nonlinear_arith)
        requires
            -((s + 1) * w + 1) <= second <= (s + 1) * w + 1,
            x == g * (r * w),
            g > 0,
            r > 0,
    ;
    assert(-(x + r * g) <= r * first <= x + r * g) by (nonlinear_arith)
        requires
            -(g * w + g) <= first <= g * w + g,
            x == g * (r * w),
            g > 0,
            r > 0,
    ;
    assert((s + 2) * x + (s + 1) * x + x == (2 * s + 4) * x) by (nonlinear_arith);
    assert(-bound <= off <= bound);
    assert(bound < r * u) by {
        assert(rw >= r && rw >= 1 && r * u == p * rw && g * rw >= r * g) by (nonlinear_arith)
            requires
                rw == r * w,
                w >= 1,
                r >= 1,
                u == p * w,
                g > 0,
        ;
        assert((2 * s + 4) * x <= 8_000_004 * x) by (nonlinear_arith)
            requires
                2 * s + 4 <= 8_000_004,
                x >= 0,
        ;
        assert(rw * 1_000_000_000 == x);
    }
    assert(r * (nanos * u) + r * u == r * (nanos + 1) * u) by (nonlinear_arith);
    assert(r * (nanos * u) - r * u == r * (nanos - 1) * u) by (nonlinear_arith);
}

/// Seeking lands on the frame that holds the position asked for: never past it, and less than
/// one frame (and two nanoseconds of rounding) short of it.
pub proof fn a_seek_lands_within_a_frame(clock: FrameClock, nanos: u128)
    requires
        clock.sample_rate > 0,
        nanos < NEAR_SECS * NANOS_PER_SEC,
    ensures
        clock.sought(nanos).at() <= nanos,
        (nanos - clock.sought(nanos).at() - 2) * clock.sample_rate < NANOS_PER_SEC,
{
    let rate = clock.sample_rate as int;
    let g = NANOS_PER_SEC as int;
    let u = pow2(DOUBLE_PLACES as nat) as int;
    let v = double(seconds(nanos) * clock.sample_rate as nat, 1) as int;
    let frames = v / u;
    let back = frames * g / rate;
    frames_are_near(nanos, clock.sample_rate);
    lemma_pow2_pos(DOUBLE_PLACES as nat);
    lemma_fundamental_div_mod(v, u);
    lemma_mod_bound(v, u);
    lemma_fundamental_div_mod(frames * g, rate);
    lemma_mod_bound(frames * g, rate);
    let left = v % u;
    let second = (frames * g) % rate;
    assert(frames * g < rate * (nanos + 1)) by (nonlinear_arith)
        requires
            g * v < rate * (nanos + 1) * u,
            v == u * frames + left,
            left >= 0,
            u > 0,
            g > 0,
    ;
    assert((frames + 1) * g > rate * (nanos - 1)) by (nonlinear_arith)
        requires
            g * v > rate * (nanos - 1) * u,
            v == u * frames + left,
            left < u,
            u > 0,
            g > 0,
    ;
    assert(frames >= 0) by (nonlinear_arith)
        requires
            v == u * frames + left,
            v >= 0,
            left < u,
            u > 0,
    ;
    assert(rate * (nanos + 1) <= 0xffff_ffff * (nanos + 1)) by (nonlinear_arith)
        requires
            rate <= 0xffff_ffff,
            nanos >= 0,
    ;
    assert(frames <= u64::MAX);
    assert(back <= nanos) by (nonlinear_arith)
        requires
            frames * g == rate * back + second,
            second >= 0,
            frames * g < rate * (nanos + 1),
            rate > 0,
    ;
    assert(back >= 0) by (nonlinear_arith)
        requires
            frames * g == rate * back + second,
            frames >= 0,
            g > 0,
            second < rate,
            rate > 0,
    ;
    assert((nanos - back - 2) * rate < g) by (nonlinear_arith)
        requires
            (frames + 1) * g > rate * (nanos - 1),
            frames * g == rate * back + second,
            second < rate,
    ;
    assert(clock.sought(nanos).frames == frames);
    assert(frames * NANOS_PER_SEC / rate == back);
}

/// So many seconds' worth of frames are heard in so many seconds.
pub proof fn a_seconds_frames_last_a_second(secs: u64, rate: u32)
    requires
        rate > 0,
        secs * rate <= u64::MAX,
        secs * 1_000_000_000 <= u64::MAX,
    ensures
        nanos_of((secs * rate) as u64, rate) == secs * 1_000_000_000,
{
    let n = secs as int * 1_000_000_000;
    let r = rate as int;
    let s = secs as int;
    assert((s * r) * 1_000_000_000 == r * (s * 1_000_000_000)) by (nonlinear_arith);
    vstd::arithmetic::div_mod::lemma_div_multiples_vanish(n, r);
    assert(secs * rate == s * r) by (nonlinear_arith)
        requires
            s == secs as int,
            r == rate as int,
    ;
}

/// The more frames were heard, the later it is.
pub proof fn more_frames_are_later(frames: u64, more: u64, rate: u32)
    requires
        frames <= more,
    ensures
        nanos_of(frames, rate) <= nanos_of(more, rate),
{
    if rate > 0 {
        vstd::arithmetic::div_mod::lemma_div_is_ordered(
            frames * NANOS_PER_SEC,
            more * NANOS_PER_SEC,
            rate as int,
        );
    }
}

/// Where one track runs into the next, the clock goes on from the join: what was heard of the next
/// track is what was heard beyond it.
pub proof fn a_join_starts_the_next_track(clock: FrameClock, boundary: u64)
    ensures
        clock.frames >= boundary ==> clock.joined_at(boundary).frames == clock.frames - boundary,
        clock.frames < boundary ==> clock.joined_at(boundary).frames == 0,
        clock.joined_at(boundary).sample_rate == clock.sample_rate,
{
}

} // verus!
