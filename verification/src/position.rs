//! Where playback position comes from.
//!
//! Local output is driven sample by sample, so the frames emitted *are* the position (see
//! [`crate::state::FrameClock`]). A network renderer plays on its own clock and buffers ahead,
//! so it is the only thing that knows where it is, and it says so about twice a second. Between
//! its reports [`RendererClock`] carries the position forward by wall time.

use vstd::prelude::*;

use crate::time::{capped_sum, floored_difference, whole_millis, Duration, Instant, NANOS_PER_MILLI};

verus! {

/// Where a playback's position comes from, settled once per stream open.
#[derive(Debug, Clone, Copy, PartialEq, Eq, Structural)]
pub enum PositionDrive {
    /// Frames emitted by the local realtime callback.
    Frames,
    /// A network renderer's own reports, extrapolated by wall time in between.
    Renderer,
}

/// The outcome of folding one renderer report into the clock.
#[derive(Debug, Clone, Copy, PartialEq, Eq, Structural)]
pub enum Reconcile {
    /// The disagreement was too large to ease out: position jumped to the reported value.
    Snapped { drift_ms: i64 },
    /// Routine disagreement, eased out over the next few reports.
    Slewed { by_ms: i64 },
}

/// Beyond this much disagreement, in milliseconds, position snaps to what the renderer says.
pub const SNAP_MS: i64 = 1_500;

/// The share of the drift taken per report when the renderer is ahead of us.
pub const SLEW_AHEAD: i64 = 4;

/// The share taken when the renderer is behind us: gentler, since it walks position backward.
pub const SLEW_BEHIND: i64 = 8;

/// Position for an output that plays on its own clock and reports back.
#[derive(Debug, Clone, Copy, PartialEq, Eq, Structural)]
pub struct RendererClock {
    /// Where this stream begins on the source timeline. The renderer reports time relative to
    /// the media it was handed, so every report is read against this.
    pub origin: Duration,
    /// Position as of `running_since`, or the frozen position while stopped.
    pub anchor: Duration,
    /// When the anchor was taken; nothing while the renderer is not playing.
    pub running_since: Option<Instant>,
}

/// Milliseconds as a signed count, held at the largest `i64`.
pub open spec fn signed_millis(nanos: u128) -> int {
    if nanos / NANOS_PER_MILLI > i64::MAX {
        i64::MAX as int
    } else {
        (nanos / NANOS_PER_MILLI) as int
    }
}

/// A share of `drift`, rounded toward zero.
pub open spec fn slew_step(drift: int) -> int {
    if drift >= 0 {
        drift / (SLEW_AHEAD as int)
    } else {
        -((-drift) / (SLEW_BEHIND as int))
    }
}

/// `anchor` moved by `step` milliseconds, never below zero.
pub open spec fn shifted(anchor: u128, step: int) -> u128
    recommends
        i64::MIN <= step <= i64::MAX,
{
    if step >= 0 {
        capped_sum(anchor, (step * NANOS_PER_MILLI) as u128)
    } else {
        floored_difference(anchor, ((-step) * NANOS_PER_MILLI) as u128)
    }
}

impl RendererClock {
    /// Position on the source timeline at `now`, in nanoseconds: the anchor plus however long
    /// the clock has been running.
    pub open spec fn at(self, now: Instant) -> u128 {
        match self.running_since {
            Some(since) => capped_sum(self.anchor.nanos, floored_difference(now.nanos, since.nanos)),
            None => self.anchor.nanos,
        }
    }

    /// Where a report of `reported` nanoseconds puts the listener on the source timeline.
    pub open spec fn absolute(self, reported: u128) -> u128 {
        capped_sum(self.origin.nanos, reported)
    }

    /// How far ahead of this clock a report of `reported` nanoseconds is, in milliseconds.
    pub open spec fn drift(self, now: Instant, reported: u128) -> int {
        signed_millis(self.absolute(reported)) - signed_millis(self.at(now))
    }

    /// Whether a report is too far off to be eased out.
    pub open spec fn snaps(self, now: Instant, reported: u128) -> bool {
        let drift = self.drift(now, reported);
        drift > SNAP_MS || drift < -SNAP_MS
    }

    /// The clock moved to `nanos` on the source timeline, running or stopped as before.
    pub open spec fn jumped(self, now: Instant, nanos: u128) -> RendererClock {
        RendererClock {
            origin: self.origin,
            anchor: Duration { nanos },
            running_since: if self.running_since is Some {
                Some(now)
            } else {
                None
            },
        }
    }

    /// The clock after it is told to run.
    pub open spec fn resumed(self, now: Instant) -> RendererClock {
        if self.running_since is Some {
            self
        } else {
            RendererClock { running_since: Some(now), ..self }
        }
    }

    /// The clock after it is told to stop.
    pub open spec fn paused(self, now: Instant) -> RendererClock {
        RendererClock { anchor: Duration { nanos: self.at(now) }, running_since: None, ..self }
    }

    /// The clock after a report of `reported` nanoseconds is folded in.
    pub open spec fn reconciled(self, now: Instant, reported: u128) -> RendererClock {
        if self.snaps(now, reported) {
            self.jumped(now, self.absolute(reported))
        } else {
            RendererClock {
                anchor: Duration {
                    nanos: shifted(self.anchor.nanos, slew_step(self.drift(now, reported))),
                },
                ..self
            }
        }
    }

    /// A clock for a stream that begins at `origin` on the source timeline, not yet running:
    /// the renderer has been handed a stream but is still buffering.
    pub fn new(origin: Duration) -> (clock: RendererClock)
        ensures
            clock == (RendererClock { origin, anchor: origin, running_since: None }),
    {
        RendererClock { origin, anchor: origin, running_since: None }
    }

    /// Position on the source timeline.
    pub fn position(&self, now: Instant) -> (d: Duration)
        ensures
            d.nanos == self.at(now),
    {
        match self.running_since {
            Some(since) => self.anchor.saturating_add(now.since(since)),
            None => self.anchor,
        }
    }

    /// Position in whole milliseconds.
    pub fn position_ms(&self, now: Instant) -> (ms: u64)
        ensures
            ms == whole_millis(self.at(now)),
    {
        self.position(now).as_millis()
    }

    pub fn is_running(&self) -> (running: bool)
        ensures
            running == (self.running_since is Some),
    {
        self.running_since.is_some()
    }

    /// Start counting wall time. A running clock is left alone.
    pub fn resume(&mut self, now: Instant)
        ensures
            *final(self) == old(self).resumed(now),
    {
        if self.running_since.is_none() {
            self.running_since = Some(now);
        }
    }

    /// Stop counting, freezing the position where it is. A stopped clock is left alone.
    pub fn pause(&mut self, now: Instant)
        ensures
            *final(self) == old(self).paused(now),
    {
        if self.running_since.is_some() {
            self.anchor = self.position(now);
            self.running_since = None;
        }
    }

    /// A real discontinuity: the stream now begins at `to`, which is also where we are.
    pub fn seek(&mut self, to: Duration, now: Instant)
        ensures
            *final(self) == (RendererClock { origin: to, ..old(self).jumped(now, to.nanos) }),
    {
        self.origin = to;
        self.jump_to(to, now);
    }

    /// Fold in a position the renderer reported for itself, measured from the start of the
    /// stream it was given.
    ///
    /// Shifting the anchor, rather than re-timing it, is what makes a correction invisible: the
    /// position moves by the correction and keeps running at the same rate.
    pub fn reconcile(&mut self, reported: Duration, now: Instant) -> (outcome: Reconcile)
        ensures
            *final(self) == old(self).reconciled(now, reported.nanos),
            old(self).snaps(now, reported.nanos) ==> outcome == (Reconcile::Snapped {
                drift_ms: old(self).drift(now, reported.nanos) as i64,
            }),
            !old(self).snaps(now, reported.nanos) ==> outcome == (Reconcile::Slewed {
                by_ms: slew_step(old(self).drift(now, reported.nanos)) as i64,
            }),
    {
        let absolute = self.origin.saturating_add(reported);
        let drift_ms: i64 = millis(absolute) - millis(self.position(now));
        if drift_ms > SNAP_MS || drift_ms < -SNAP_MS {
            self.jump_to(absolute, now);
            return Reconcile::Snapped { drift_ms };
        }
        let step: i64 = if drift_ms >= 0 {
            drift_ms / SLEW_AHEAD
        } else {
            -((-drift_ms) / SLEW_BEHIND)
        };
        self.shift(step);
        Reconcile::Slewed { by_ms: step }
    }

    /// Move to an absolute source-timeline position, preserving running or stopped.
    pub fn jump_to(&mut self, absolute: Duration, now: Instant)
        ensures
            *final(self) == old(self).jumped(now, absolute.nanos),
    {
        self.anchor = absolute;
        if self.running_since.is_some() {
            self.running_since = Some(now);
        }
    }

    /// Move the anchor by `delta_ms` milliseconds, never below zero.
    pub fn shift(&mut self, delta_ms: i64)
        ensures
            *final(self) == (RendererClock {
                anchor: Duration { nanos: shifted(old(self).anchor.nanos, delta_ms as int) },
                ..*old(self)
            }),
    {
        if delta_ms >= 0 {
            self.anchor = self.anchor.saturating_add(Duration::from_millis(delta_ms as u64));
        } else {
            let magnitude: u64 = (-(delta_ms as i128)) as u64;
            self.anchor = self.anchor.saturating_sub(Duration::from_millis(magnitude));
        }
    }
}

/// Milliseconds as a signed count, so drift arithmetic can go either way without wrapping.
pub fn millis(d: Duration) -> (ms: i64)
    ensures
        ms == signed_millis(d.nanos),
{
    let ms: u128 = d.nanos / NANOS_PER_MILLI;
    if ms > i64::MAX as u128 {
        i64::MAX
    } else {
        ms as i64
    }
}

/// A stopped clock stands still: its position does not depend on when it is read.
pub proof fn a_stopped_clock_stands_still(clock: RendererClock, now: Instant, later: Instant)
    requires
        clock.running_since is None,
    ensures
        clock.at(now) == clock.at(later),
{
}

/// Position never runs backward as time passes.
pub proof fn position_only_moves_forward(clock: RendererClock, now: Instant, later: Instant)
    requires
        now.nanos <= later.nanos,
    ensures
        clock.at(now) <= clock.at(later),
{
}

/// Starting the clock, however often, moves nothing and counts from the first start.
pub proof fn resuming_is_idempotent(clock: RendererClock, now: Instant, later: Instant)
    ensures
        clock.resumed(now).at(now) == clock.at(now),
        clock.resumed(now).resumed(later) == clock.resumed(now),
{
}

/// Stopping the clock freezes the position it had, and stopping it again changes nothing.
pub proof fn pausing_is_idempotent(clock: RendererClock, now: Instant, later: Instant)
    ensures
        clock.paused(now).at(later) == clock.at(now),
        clock.paused(now).paused(later) == clock.paused(now),
{
}

/// A snap lands exactly on what the renderer reported, and leaves a running clock running.
pub proof fn a_snap_lands_on_the_report(clock: RendererClock, now: Instant, reported: u128)
    requires
        clock.snaps(now, reported),
    ensures
        clock.reconciled(now, reported).at(now) == clock.absolute(reported),
        clock.reconciled(now, reported).running_since is Some <==> clock.running_since is Some,
{
}

/// Easing never overshoots: afterwards the clock is on the same side of the report, and no
/// further from it than it was.
pub proof fn a_slew_never_overshoots(clock: RendererClock, now: Instant, reported: u128)
    requires
        !clock.snaps(now, reported),
    ensures
        clock.drift(now, reported) >= 0 ==> 0 <= clock.reconciled(now, reported).drift(
            now,
            reported,
        ) <= clock.drift(now, reported),
        clock.drift(now, reported) <= 0 ==> clock.drift(now, reported) <= clock.reconciled(
            now,
            reported,
        ).drift(now, reported) <= 0,
        clock.reconciled(now, reported).running_since == clock.running_since,
{
}

/// Each report that finds the clock behind takes a quarter of the disagreement off, so repeated
/// reports converge on the renderer.
pub proof fn each_report_takes_a_quarter_off(clock: RendererClock, now: Instant, reported: u128)
    requires
        0 <= clock.drift(now, reported) <= SNAP_MS,
    ensures
        clock.reconciled(now, reported).drift(now, reported) == clock.drift(now, reported)
            - clock.drift(now, reported) / 4,
{
}

/// Each report that finds the clock ahead takes an eighth of the disagreement off, as long as
/// the position can be walked back that far and is one a signed count of milliseconds can hold.
pub proof fn each_report_takes_an_eighth_off(clock: RendererClock, now: Instant, reported: u128)
    requires
        -SNAP_MS <= clock.drift(now, reported) <= 0,
        (-clock.drift(now, reported)) / 8 * NANOS_PER_MILLI <= clock.anchor.nanos,
        clock.anchor.nanos + now.nanos <= i64::MAX * NANOS_PER_MILLI,
    ensures
        clock.reconciled(now, reported).drift(now, reported) == clock.drift(now, reported) + (
        -clock.drift(now, reported)) / 8,
{
}

/// What is left of a disagreement of `drift` milliseconds once a share of it has been taken off `n`
/// times, rounded down each time.
pub open spec fn eased(drift: int, share: int, n: nat) -> int
    decreases n,
{
    if n == 0 {
        drift
    } else {
        let left = eased(drift, share, (n - 1) as nat);
        left - left / share
    }
}

/// The smaller a disagreement is, the less of it is left.
proof fn easing_keeps_the_order(a: int, b: int, share: int, n: nat)
    requires
        0 <= a <= b,
        share == SLEW_AHEAD || share == SLEW_BEHIND,
    ensures
        0 <= eased(a, share, n) <= eased(b, share, n),
        eased(a, share, n) <= a,
    decreases n,
{
    if n > 0 {
        easing_keeps_the_order(a, b, share, (n - 1) as nat);
    }
}

/// Easing further never makes a disagreement grow.
proof fn easing_never_grows(drift: int, share: int, n: nat, more: nat)
    requires
        0 <= drift,
        n <= more,
        share == SLEW_AHEAD || share == SLEW_BEHIND,
    ensures
        eased(drift, share, more) <= eased(drift, share, n),
    decreases more - n,
{
    if n < more {
        easing_never_grows(drift, share, n, (more - 1) as nat);
        easing_keeps_the_order(drift, drift, share, (more - 1) as nat);
    }
}

/// The largest disagreement that is eased out, eased by quarters.
proof fn quarters_end()
    ensures
        eased(SNAP_MS as int, SLEW_AHEAD as int, 23) == 3,
{
    assert(eased(1_500, 4, 0) == 1_500);
    assert(eased(1_500, 4, 1) == 1125);
    assert(eased(1_500, 4, 2) == 844);
    assert(eased(1_500, 4, 3) == 633);
    assert(eased(1_500, 4, 4) == 475);
    assert(eased(1_500, 4, 5) == 357);
    assert(eased(1_500, 4, 6) == 268);
    assert(eased(1_500, 4, 7) == 201);
    assert(eased(1_500, 4, 8) == 151);
    assert(eased(1_500, 4, 9) == 114);
    assert(eased(1_500, 4, 10) == 86);
    assert(eased(1_500, 4, 11) == 65);
    assert(eased(1_500, 4, 12) == 49);
    assert(eased(1_500, 4, 13) == 37);
    assert(eased(1_500, 4, 14) == 28);
    assert(eased(1_500, 4, 15) == 21);
    assert(eased(1_500, 4, 16) == 16);
    assert(eased(1_500, 4, 17) == 12);
    assert(eased(1_500, 4, 18) == 9);
    assert(eased(1_500, 4, 19) == 7);
    assert(eased(1_500, 4, 20) == 6);
    assert(eased(1_500, 4, 21) == 5);
    assert(eased(1_500, 4, 22) == 4);
    assert(eased(1_500, 4, 23) == 3);
}

/// The largest disagreement that is eased out, eased by eighths.
proof fn eighths_end()
    ensures
        eased(SNAP_MS as int, SLEW_BEHIND as int, 44) == 7,
{
    assert(eased(1_500, 8, 0) == 1_500);
    assert(eased(1_500, 8, 1) == 1313);
    assert(eased(1_500, 8, 2) == 1149);
    assert(eased(1_500, 8, 3) == 1006);
    assert(eased(1_500, 8, 4) == 881);
    assert(eased(1_500, 8, 5) == 771);
    assert(eased(1_500, 8, 6) == 675);
    assert(eased(1_500, 8, 7) == 591);
    assert(eased(1_500, 8, 8) == 518);
    assert(eased(1_500, 8, 9) == 454);
    assert(eased(1_500, 8, 10) == 398);
    assert(eased(1_500, 8, 11) == 349);
    assert(eased(1_500, 8, 12) == 306);
    assert(eased(1_500, 8, 13) == 268);
    assert(eased(1_500, 8, 14) == 235);
    assert(eased(1_500, 8, 15) == 206);
    assert(eased(1_500, 8, 16) == 181);
    assert(eased(1_500, 8, 17) == 159);
    assert(eased(1_500, 8, 18) == 140);
    assert(eased(1_500, 8, 19) == 123);
    assert(eased(1_500, 8, 20) == 108);
    assert(eased(1_500, 8, 21) == 95);
    assert(eased(1_500, 8, 22) == 84);
    assert(eased(1_500, 8, 23) == 74);
    assert(eased(1_500, 8, 24) == 65);
    assert(eased(1_500, 8, 25) == 57);
    assert(eased(1_500, 8, 26) == 50);
    assert(eased(1_500, 8, 27) == 44);
    assert(eased(1_500, 8, 28) == 39);
    assert(eased(1_500, 8, 29) == 35);
    assert(eased(1_500, 8, 30) == 31);
    assert(eased(1_500, 8, 31) == 28);
    assert(eased(1_500, 8, 32) == 25);
    assert(eased(1_500, 8, 33) == 22);
    assert(eased(1_500, 8, 34) == 20);
    assert(eased(1_500, 8, 35) == 18);
    assert(eased(1_500, 8, 36) == 16);
    assert(eased(1_500, 8, 37) == 14);
    assert(eased(1_500, 8, 38) == 13);
    assert(eased(1_500, 8, 39) == 12);
    assert(eased(1_500, 8, 40) == 11);
    assert(eased(1_500, 8, 41) == 10);
    assert(eased(1_500, 8, 42) == 9);
    assert(eased(1_500, 8, 43) == 8);
    assert(eased(1_500, 8, 44) == 7);
}

/// No disagreement that is eased out is left above 3 milliseconds by 23 reports where the clock was
/// behind, or above 7 by 44 where it was ahead.
proof fn easing_ends(drift: int, n: nat)
    requires
        0 <= drift <= SNAP_MS,
    ensures
        n >= 23 ==> 0 <= eased(drift, SLEW_AHEAD as int, n) <= 3,
        n >= 44 ==> 0 <= eased(drift, SLEW_BEHIND as int, n) <= 7,
{
    easing_keeps_the_order(drift, SNAP_MS as int, SLEW_AHEAD as int, n);
    easing_keeps_the_order(drift, SNAP_MS as int, SLEW_BEHIND as int, n);
    if n >= 23 {
        quarters_end();
        easing_never_grows(SNAP_MS as int, SLEW_AHEAD as int, 23, n);
    }
    if n >= 44 {
        eighths_end();
        easing_never_grows(SNAP_MS as int, SLEW_BEHIND as int, 44, n);
    }
}

impl RendererClock {
    /// The clock after the same report is folded in `n` times.
    pub open spec fn told(self, now: Instant, reported: u128, n: nat) -> RendererClock
        decreases n,
    {
        if n == 0 {
            self
        } else {
            self.told(now, reported, (n - 1) as nat).reconciled(now, reported)
        }
    }

    /// The position can be walked back by all of a disagreement that is eased out, and is one a
    /// signed count of milliseconds can hold.
    pub open spec fn can_walk_back(self, now: Instant, reported: u128) -> bool {
        &&& (-self.drift(now, reported)) * NANOS_PER_MILLI <= self.anchor.nanos
        &&& self.anchor.nanos + now.nanos <= i64::MAX * NANOS_PER_MILLI
    }
}

/// Reports that find the clock behind leave exactly what easing by quarters leaves.
proof fn quarters_add_up(clock: RendererClock, now: Instant, reported: u128, n: nat)
    requires
        0 <= clock.drift(now, reported) <= SNAP_MS,
    ensures
        clock.told(now, reported, n).drift(now, reported) == eased(
            clock.drift(now, reported),
            SLEW_AHEAD as int,
            n,
        ),
        0 <= clock.told(now, reported, n).drift(now, reported) <= SNAP_MS,
    decreases n,
{
    if n > 0 {
        quarters_add_up(clock, now, reported, (n - 1) as nat);
        each_report_takes_a_quarter_off(clock.told(now, reported, (n - 1) as nat), now, reported);
    }
}

/// Reports that find the clock ahead leave exactly what easing by eighths leaves.
proof fn eighths_add_up(clock: RendererClock, now: Instant, reported: u128, n: nat)
    requires
        -SNAP_MS <= clock.drift(now, reported) <= 0,
        clock.can_walk_back(now, reported),
    ensures
        clock.told(now, reported, n).drift(now, reported) == -eased(
            -clock.drift(now, reported),
            SLEW_BEHIND as int,
            n,
        ),
        -SNAP_MS <= clock.told(now, reported, n).drift(now, reported) <= 0,
        clock.told(now, reported, n).can_walk_back(now, reported),
    decreases n,
{
    if n > 0 {
        let before = clock.told(now, reported, (n - 1) as nat);
        eighths_add_up(clock, now, reported, (n - 1) as nat);
        each_report_takes_an_eighth_off(before, now, reported);
        let drift = before.drift(now, reported);
        let after = before.reconciled(now, reported);
        assert(after.anchor.nanos == before.anchor.nanos - (-drift) / 8 * NANOS_PER_MILLI);
        assert(-after.drift(now, reported) == -drift - (-drift) / 8);
    }
}

/// Repeated reports converge on the renderer: told the same position over and over, the clock
/// comes to within 7 milliseconds of it and stays there. A clock that is far off snaps to it at
/// once, and one that is behind ends within 3. Only a position that cannot be walked back all the
/// way, since the clock was anchored too near the start, is left out.
pub proof fn repeated_reports_converge(clock: RendererClock, now: Instant, reported: u128, n: nat)
    requires
        n >= 45,
        -SNAP_MS <= clock.drift(now, reported) < 0 ==> clock.can_walk_back(now, reported),
    ensures
        -7 <= clock.told(now, reported, n).drift(now, reported) <= 3,
{
    let drift = clock.drift(now, reported);
    if clock.snaps(now, reported) {
        told_first(clock, now, reported, n);
        let snapped = clock.reconciled(now, reported);
        a_snap_lands_on_the_report(clock, now, reported);
        assert(snapped.absolute(reported) == clock.absolute(reported));
        assert(snapped.drift(now, reported) == 0);
        quarters_add_up(snapped, now, reported, (n - 1) as nat);
        easing_ends(0, (n - 1) as nat);
    } else if drift >= 0 {
        quarters_add_up(clock, now, reported, n);
        easing_ends(drift, n);
    } else {
        eighths_add_up(clock, now, reported, n);
        easing_ends(-drift, n);
    }
}

/// Being told one time more is the same at the start as at the end.
proof fn told_first(clock: RendererClock, now: Instant, reported: u128, n: nat)
    requires
        n > 0,
    ensures
        clock.told(now, reported, n) == clock.reconciled(now, reported).told(
            now,
            reported,
            (n - 1) as nat,
        ),
    decreases n,
{
    if n > 1 {
        told_first(clock, now, reported, (n - 1) as nat);
    } else {
        assert(clock.told(now, reported, 0) == clock);
    }
}

/// A report that is more than a second and a half from where the clock stands is where the track
/// is: the clock jumps to the report, counted from where the stream began.
pub proof fn a_far_report_is_jumped_to(clock: RendererClock, now: Instant, reported: u128)
    requires
        clock.origin.nanos + reported <= i64::MAX * 1_000_000,
        clock.at(now) <= i64::MAX * 1_000_000,
        ({
            let told = (clock.origin.nanos + reported) / 1_000_000;
            let at = clock.at(now) as int / 1_000_000;
            told - at > 1_500 || at - told > 1_500
        }),
    ensures
        clock.reconciled(now, reported).at(now) == clock.origin.nanos + reported,
        clock.snaps(now, reported),
{
}

/// A report that is nearer pulls the clock a quarter of the way on, or an eighth of the way back.
pub proof fn a_near_report_pulls_the_clock(clock: RendererClock, now: Instant, reported: u128)
    requires
        clock.running_since is None,
        clock.origin.nanos + reported <= i64::MAX * 1_000_000,
        clock.anchor.nanos <= i64::MAX * 1_000_000,
    ensures
        ({
            let told = (clock.origin.nanos + reported) / 1_000_000;
            let at = clock.anchor.nanos as int / 1_000_000;
            let after = clock.reconciled(now, reported).at(now);
            &&& 0 <= told - at <= 1_500 ==> after == clock.anchor.nanos + (told - at) / 4
                * 1_000_000
            &&& 0 <= at - told <= 1_500 && (at - told) / 8 * 1_000_000 <= clock.anchor.nanos
                ==> after == clock.anchor.nanos - (at - told) / 8 * 1_000_000
        }),
{
}

/// A running clock goes on by as much time as passes.
pub proof fn a_running_clock_keeps_time(clock: RendererClock, now: Instant, passed: u128)
    requires
        clock.running_since is Some,
        clock.running_since->0.nanos <= now.nanos,
        now.nanos + passed <= u128::MAX,
        clock.at(now) + passed <= u128::MAX,
        clock.anchor.nanos + (now.nanos + passed) <= u128::MAX,
    ensures
        clock.at(Instant { nanos: (now.nanos + passed) as u128 }) == clock.at(now) + passed,
{
}

} // verus!
