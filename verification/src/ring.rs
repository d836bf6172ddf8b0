//! The ring of samples between the decoder and the device.
//!
//! A ring has two ends. The decoding thread holds the one samples are written to, the device's
//! callback the one they are read from. A sample is kept as its 32 bits. The ring is sized in
//! time, so a stall of the decoder shows as the position standing still, never as drift.

use vstd::prelude::*;

verus! {

/// How much audio a ring holds, in milliseconds.
pub const RING_MILLIS: u32 = 500;

/// The bits of a silent sample.
pub const SILENCE: u32 = 0;

/// The end of a ring that samples are written to.
#[verifier::external_type_specification]
#[verifier::external_body]
#[verifier::reject_recursive_types(T)]
pub struct ExProducer<T>(rtrb::Producer<T>);

/// The end of a ring that samples are read from.
#[verifier::external_type_specification]
#[verifier::external_body]
#[verifier::reject_recursive_types(T)]
pub struct ExConsumer<T>(rtrb::Consumer<T>);

/// Every sample ever written at this end, first to last.
pub uninterp spec fn written(producer: rtrb::Producer<u32>) -> Seq<u32>;

/// How many samples the ring was made to hold.
pub uninterp spec fn room(producer: rtrb::Producer<u32>) -> nat;

/// Every sample ever read at this end, first to last.
pub uninterp spec fn taken(consumer: rtrb::Consumer<u32>) -> Seq<u32>;

/// `rtrb::RingBuffer::new`: the two ends of a ring for `capacity` samples, with nothing written
/// and nothing read yet. A ring of more bytes than one allocation may have is left out.
#[verifier::external_body]
fn make(capacity: usize) -> (ends: (rtrb::Producer<u32>, rtrb::Consumer<u32>))
    requires
        capacity * 4 <= isize::MAX,
    ensures
        written(ends.0) == Seq::<u32>::empty(),
        room(ends.0) == capacity,
        taken(ends.1) == Seq::<u32>::empty(),
{
    rtrb::RingBuffer::new(capacity)
}

/// `rtrb::Producer::push`: writes one sample, or refuses it and leaves the ring as it is. Only a
/// full ring refuses, and a ring that has not yet been written as often as it has room is not
/// full. How far the other end has read is not said.
#[verifier::external_body]
fn push(producer: &mut rtrb::Producer<u32>, sample: u32) -> (pushed: bool)
    ensures
        room(*final(producer)) == room(*old(producer)),
        pushed ==> written(*final(producer)) == written(*old(producer)).push(sample),
        !pushed ==> written(*final(producer)) == written(*old(producer)),
        written(*old(producer)).len() < room(*old(producer)) ==> pushed,
{
    producer.push(sample).is_ok()
}

/// `rtrb::Producer::slots`: how many samples there is room for now: never more than the ring was
/// made for, and no fewer than what was written leaves. The other end makes room at any time, so
/// no more is said.
#[verifier::external_body]
fn slots(producer: &rtrb::Producer<u32>) -> (free: usize)
    ensures
        free <= room(*producer),
        free + written(*producer).len() >= room(*producer),
{
    producer.slots()
}

/// `rtrb::Producer::buffer` and `rtrb::RingBuffer::capacity`: how many samples the ring was made
/// to hold.
#[verifier::external_body]
fn capacity(producer: &rtrb::Producer<u32>) -> (capacity: usize)
    ensures
        capacity == room(*producer),
{
    producer.buffer().capacity()
}

/// `rtrb::Consumer::pop`: the next sample, which then counts as read, or nothing from an empty
/// ring. What the other end wrote is not visible from this one, so which sample it is is not
/// said.
#[verifier::external_body]
fn pop(consumer: &mut rtrb::Consumer<u32>) -> (sample: Option<u32>)
    ensures
        match sample {
            Some(bits) => taken(*final(consumer)) == taken(*old(consumer)).push(bits),
            None => taken(*final(consumer)) == taken(*old(consumer)),
        },
{
    consumer.pop().ok()
}

/// The number of samples in a ring for `channels` channels at `rate` frames a second: half a
/// second of audio, and never less than one frame.
pub open spec fn ring_size(rate: u32, channels: u16) -> int {
    let half_second = rate * channels * RING_MILLIS / 1000;
    if half_second < channels {
        channels as int
    } else {
        half_second
    }
}

/// How many samples a ring for `channels` channels at `rate` frames a second holds.
pub fn ring_capacity(rate: u32, channels: u16) -> (size: usize)
    requires
        ring_size(rate, channels) <= usize::MAX,
    ensures
        size == ring_size(rate, channels),
{
    assert(rate * channels <= u32::MAX * u16::MAX) by (nonlinear_arith)
        requires
            rate <= u32::MAX,
            channels <= u16::MAX,
    ;
    assert(rate * channels >= 0) by (nonlinear_arith);
    let half_second: u64 = (rate as u64) * (channels as u64) * (RING_MILLIS as u64) / 1000;
    if half_second < channels as u64 {
        channels as usize
    } else {
        half_second as usize
    }
}

/// A new ring of that size: the end to write to and the end to read from.
pub fn ring(rate: u32, channels: u16) -> (ends: (rtrb::Producer<u32>, rtrb::Consumer<u32>))
    requires
        ring_size(rate, channels) * 4 <= isize::MAX,
    ensures
        written(ends.0) == Seq::<u32>::empty(),
        room(ends.0) == ring_size(rate, channels),
        taken(ends.1) == Seq::<u32>::empty(),
{
    make(ring_capacity(rate, channels))
}

/// Write the samples from `from` on until the ring refuses one, and say how far that came.
///
/// Everything before the place it came to has been written, in order and once, and nothing after
/// it. It stops short of the end only once the ring has been written as often as it has room.
pub fn push_samples(producer: &mut rtrb::Producer<u32>, samples: &Vec<u32>, from: usize) -> (at:
    usize)
    requires
        from <= samples@.len(),
    ensures
        from <= at <= samples@.len(),
        room(*final(producer)) == room(*old(producer)),
        written(*final(producer)) == written(*old(producer)) + samples@.subrange(
            from as int,
            at as int,
        ),
        at == samples@.len() || written(*final(producer)).len() >= room(*old(producer)),
{
    let ghost before = written(*producer);
    let mut at: usize = from;
    assert(samples@.subrange(from as int, from as int) =~= Seq::<u32>::empty());
    assert(before + Seq::<u32>::empty() =~= before);
    while at < samples.len()
        invariant
            from <= at <= samples@.len(),
            before == written(*old(producer)),
            room(*producer) == room(*old(producer)),
            written(*producer) == before + samples@.subrange(from as int, at as int),
        decreases samples@.len() - at,
    {
        if !push(producer, samples[at]) {
            return at;
        }
        assert(before + samples@.subrange(from as int, at + 1) =~= (before + samples@.subrange(
            from as int,
            at as int,
        )).push(samples@[at as int]));
        at = at + 1;
    }
    at
}

/// What to do about the samples that are still to be written.
#[derive(Debug, Clone, Copy, PartialEq, Eq, Structural)]
pub enum Push {
    /// All of them are written.
    Done,
    /// Playback was stopped or the device failed: leave the rest.
    Interrupted,
    /// The ring is full: wait for the device to make room, then write on.
    Park,
}

/// What to do when `at` of `total` samples are written.
pub fn push_step(at: usize, total: usize, stopped: bool, device_failed: bool) -> (step: Push)
    ensures
        step == if at >= total {
            Push::Done
        } else if stopped || device_failed {
            Push::Interrupted
        } else {
            Push::Park
        },
{
    if at >= total {
        Push::Done
    } else if stopped || device_failed {
        Push::Interrupted
    } else {
        Push::Park
    }
}

/// What is played for what the ring gave up, and how many samples it has filled after that: the
/// sample itself, counted, or silence where the ring was empty.
pub fn played(popped: Option<u32>, filled: usize) -> (next: (u32, usize))
    requires
        filled < usize::MAX,
    ensures
        next.0 == match popped {
            Some(bits) => bits,
            None => SILENCE,
        },
        next.1 == filled + if popped is Some {
            1int
        } else {
            0int
        },
{
    match popped {
        Some(bits) => (bits, filled + 1),
        None => (SILENCE, filled),
    }
}

/// The next sample for the device: one from the ring, counted in `filled`, or silence while the
/// ring is empty.
pub fn pull(consumer: &mut rtrb::Consumer<u32>, filled: &mut usize) -> (sample: u32)
    requires
        *old(filled) < usize::MAX,
    ensures
        if *final(filled) == *old(filled) + 1 {
            taken(*final(consumer)) == taken(*old(consumer)).push(sample)
        } else {
            *final(filled) == *old(filled) && sample == SILENCE && taken(*final(consumer))
                == taken(*old(consumer))
        },
{
    let (sample, count) = played(pop(consumer), *filled);
    *filled = count;
    sample
}

/// Whether a ring for `capacity` samples with room for `free` more has been read to its end.
pub fn is_empty(free: usize, capacity: usize) -> (empty: bool)
    ensures
        empty == (free >= capacity),
{
    free >= capacity
}

/// Whether the device has read everything that was written. A ring that nothing was written to
/// always counts as read; how far the device has come with another is the device's to say.
pub fn drained(producer: &rtrb::Producer<u32>) -> (empty: bool)
    ensures
        written(*producer).len() == 0 ==> empty,
{
    is_empty(slots(producer), capacity(producer))
}

/// The whole frames in `samples` interleaved samples of `channels` channels.
pub fn frames_of(samples: usize, channels: u16) -> (frames: u64)
    requires
        channels > 0,
    ensures
        frames == samples as int / channels as int,
{
    (samples / channels as usize) as u64
}

/// A ring is made for half a second of audio, and for one frame at least.
pub proof fn a_ring_holds_half_a_second(rate: u32, channels: u16)
    ensures
        ring_size(rate, channels) >= rate * channels / 2,
        ring_size(rate, channels) >= channels,
{
    let n = rate * channels;
    assert(n >= 0) by (nonlinear_arith)
        requires
            n == rate * channels,
    ;
    assert(n * 500 / 1000 == n / 2);
}

/// A ring holds half a second of sound, and never less than one frame, and no more than that.
pub proof fn a_ring_holds_no_more_than_half_a_second(rate: u32, channels: u16)
    ensures
        ring_size(rate, channels) == rate * channels / 2 || ring_size(rate, channels) == channels
            && rate * channels / 2 < channels,
{
    let n = rate * channels;
    assert(n * 500 / 1000 == n / 2) by (nonlinear_arith);
}

} // verus!
