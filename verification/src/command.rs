//! The command vocabulary of the player: user intent.

use vstd::arithmetic::power2::{
    lemma2_to64, lemma_pow2_adds, lemma_pow2_pos, lemma_pow2_strictly_increases, pow2,
};
use vstd::prelude::*;

use crate::binary::{rounding_stays_above, rounding_stays_below, single, SINGLE_DIGITS};
use crate::single::{
    a_difference_is_the_nearest_there_is, bits_of, full_scale_in_steps, is_negative, magnitude,
    negated, opposite, plus, rounded_bits_stand_for_the_number, sizes_are_in_order, steps_of, sum,
    unsigned, INFINITE,
};
use crate::sink::SinkId;
use crate::time::Duration;
use crate::track::TrackRef;

verus! {

/// What happens at the end of a track, and at the end of the queue.
#[derive(Debug, Clone, Copy, PartialEq, Eq, Structural)]
pub enum Repeat {
    /// Play on to the end of the queue and stop there.
    Off,
    /// Start again from the top after the last entry.
    All,
    /// Play the current entry over and over.
    One,
}

/// The bits of full scale: one.
pub const FULL_VOLUME: u32 = 0x3f80_0000;

/// A difference in volume with bits less than these is none: two to the minus 23.
pub const VOLUME_STEP: u32 = 0x3400_0000;

/// A volume as a fraction of full scale: a single precision number, by its bits.
#[derive(Debug, Clone, Copy, PartialEq, Eq, Structural)]
pub struct Volume {
    pub bits: u32,
}

impl Volume {
    /// The volume held between silence and full scale. What is not a number is held nowhere.
    pub open spec fn clamped(self) -> Volume {
        let size = magnitude(self.bits);
        if size > INFINITE {
            self
        } else if is_negative(self.bits) && size > 0 {
            Volume { bits: 0 }
        } else if size > FULL_VOLUME {
            Volume { bits: FULL_VOLUME }
        } else {
            self
        }
    }

    /// Whether two volumes are too close together to tell apart: their difference is less than
    /// the step from full scale to the next number above.
    pub open spec fn close_to(self, other: Volume) -> bool {
        magnitude(sum(self.bits, negated(other.bits))) < VOLUME_STEP
    }

    pub fn full() -> (v: Volume)
        ensures
            v.bits == FULL_VOLUME,
    {
        Volume { bits: FULL_VOLUME }
    }

    pub fn clamp(self) -> (v: Volume)
        ensures
            v == self.clamped(),
    {
        let size: u32 = unsigned(self.bits);
        if size > INFINITE {
            self
        } else if size != self.bits && size > 0 {
            Volume { bits: 0 }
        } else if size > FULL_VOLUME {
            Volume { bits: FULL_VOLUME }
        } else {
            self
        }
    }

    pub fn is_close_to(self, other: Volume) -> (close: bool)
        ensures
            close == self.close_to(other),
    {
        unsigned(plus(self.bits, opposite(other.bits))) < VOLUME_STEP
    }
}

/// A volume that is held stays where it is held.
pub proof fn holding_a_volume_again_changes_nothing(volume: Volume)
    ensures
        volume.clamped().clamped() == volume.clamped(),
{
}

/// A command into the player.
///
/// The player owns the queue, so the queue verbs are transitions like any other. A command the
/// player cannot apply (no next track, nothing to seek) is rejected with an error; one that
/// changes nothing (pausing while paused) is accepted and is not a transition.
#[derive(Debug, PartialEq, Eq)]
pub enum Command {
    /// Replace the queue with this single track and begin loading it.
    Load(TrackRef),
    /// Append a track to the queue (starting playback if idle).
    Enqueue(TrackRef),
    /// Append tracks to the queue, starting the first of them if nothing is in play.
    EnqueueMany(Vec<TrackRef>),
    /// Insert tracks right after the current entry.
    PlayNext(Vec<TrackRef>),
    /// Replace the queue with `tracks` and start the entry at `start`.
    Replace { tracks: Vec<TrackRef>, start: usize },
    /// Start the entry at `index`.
    Jump(usize),
    /// Remove the entry at `index`. Removing the one playing moves on to the entry after it.
    Remove(usize),
    /// Move the entry at `from` so it sits at `to`.
    Move { from: usize, to: usize },
    /// Shuffle the entries after the current one, by a series of random numbers.
    Shuffle { draws: Vec<u64> },
    /// What happens at the end of a track, and at the end of the queue.
    SetRepeat(Repeat),
    /// Skip to the next queued track.
    Next,
    /// Skip to the previous queued track.
    Previous,
    /// Clear the queue and stop.
    Clear,
    Play,
    Pause,
    Stop,
    Seek(Duration),
    SetVolume(Volume),
    SetMuted(bool),
    /// Route audio to a different output.
    SelectSink(SinkId),
}

/// Volumes that differ by the step above full scale, or by more, are told apart; those that are the
/// same, or differ by less than half of it, are not.
pub proof fn volumes_a_step_apart_are_told_apart(louder: Volume, softer: Volume)
    requires
        softer.bits <= louder.bits <= 0x3f80_0000,
    ensures
        louder == softer ==> louder.close_to(softer),
        steps_of(louder.bits) - steps_of(softer.bits) >= pow2(126) ==> !louder.close_to(softer)
            && !softer.close_to(louder),
        steps_of(louder.bits) - steps_of(softer.bits) < pow2(125) ==> louder.close_to(softer)
            && softer.close_to(louder),
        steps_of(0x3f80_0000) == pow2(149),
        steps_of(0) == 0,
{
    let (a, b) = (louder.bits, softer.bits);
    full_scale_in_steps();
    lemma2_to64();
    lemma_pow2_adds(23, 103);
    lemma_pow2_strictly_increases(125, 126);
    assert(VOLUME_STEP / 0x80_0000 == 104 && VOLUME_STEP % 0x80_0000 == 0);
    assert(steps_of(VOLUME_STEP) == pow2(126));
    a_difference_is_the_nearest_there_is(a, b, 0);
    let bits = sum(a, negated(b));
    if b < a {
        sizes_are_in_order(b, a);
        let less = (steps_of(a) - steps_of(b)) as nat;
        assert(magnitude(negated(b)) == b && magnitude(negated(a)) == a);
        assert(bits == bits_of(single(less, 1)));
        assert(magnitude(sum(b, negated(a))) == bits);
        rounded_bits_stand_for_the_number(less, 1);
        if less >= pow2(126) {
            rounding_stays_above(less, 1, SINGLE_DIGITS as nat, 126);
            if bits < VOLUME_STEP {
                sizes_are_in_order(bits, VOLUME_STEP);
            }
        }
        if less < pow2(125) {
            rounding_stays_below(less, 1, SINGLE_DIGITS as nat, 125);
            if VOLUME_STEP < bits {
                sizes_are_in_order(VOLUME_STEP, bits);
            }
        }
    } else {
        lemma_pow2_pos(125);
        lemma_pow2_pos(126);
    }
}

} // verus!
