//! A playback: decoded audio fed to an output, from its first sample to its end.
//!
//! The threads, the device and the decoder are outside. What is decided between them is here:
//! what a feeding loop does next, what it reports, and where on the clock one track ends and the
//! next begins.
//!
//! Local output runs as a sequence of device sessions. A device that fails is reopened and the
//! decoder keeps its place, so playback resumes rather than restarts and position is continuous.
//!
//! A playback can be given its successor while it plays. At the end of the track the feed then
//! carries straight on into it, with no break, provided it has the same format. The listener
//! reaches the join later than the feed does: only then is the clock moved onto the new track.

use vstd::arithmetic::power2::{
    lemma2_to64, lemma_pow2_adds, lemma_pow2_pos, lemma_pow2_strictly_increases, pow2,
};
use vstd::prelude::*;

use crate::binary::{
    double, in_steps, rounding_moves_little, rounding_stays_below, what_fits_is_exact, Binary,
    DOUBLE_DIGITS, DOUBLE_PLACES, SPAN,
};
use crate::command::Volume;
use crate::output::PlayError;
use crate::player::EngineEvent;
use crate::position::PositionDrive;
use crate::ring::frames_of;
use crate::state::{frames_in, whole_frames, FrameClock};
use crate::time::{
    capped_sum, floored_difference, span_of, Duration, Instant, NANOS_PER_MILLI, NANOS_PER_SEC,
};

verus! {

/// How long the device plays on after the ring is read, in milliseconds.
pub const DRAIN_TAIL_MS: u64 = 250;

/// How long a loop that waits sleeps before it looks again, in milliseconds.
pub const NAP_MS: u64 = 20;

/// How far ahead of the listener a network feed may run, in seconds.
pub const NETWORK_LEAD_SECS: u64 = 2;

/// What a running playback has been told.
#[derive(Debug, Clone, Copy, PartialEq, Eq, Structural)]
pub struct Controls {
    pub paused: bool,
    pub stopped: bool,
    /// The device failed, or was asked to be reopened.
    pub device_failed: bool,
    pub volume: Volume,
    pub muted: bool,
}

impl Controls {
    pub fn new() -> (controls: Controls)
        ensures
            !controls.paused && !controls.stopped && !controls.device_failed && !controls.muted,
            controls.volume.bits == crate::command::FULL_VOLUME,
    {
        Controls {
            paused: false,
            stopped: false,
            device_failed: false,
            volume: Volume::full(),
            muted: false,
        }
    }

    /// The volume samples are played at: none while muted.
    pub fn gain(&self) -> (gain: Volume)
        ensures
            gain == if self.muted {
                Volume { bits: 0 }
            } else {
                self.volume
            },
    {
        if self.muted {
            Volume { bits: 0 }
        } else {
            self.volume
        }
    }

    /// Whether the device plays silence and leaves the ring as it is.
    pub fn silent(&self) -> (silent: bool)
        ensures
            silent == (self.paused || self.stopped),
    {
        self.paused || self.stopped
    }
}

/// What a feed reports.
#[derive(Debug, Clone, Copy, PartialEq, Eq, Structural)]
pub enum FeedEvent {
    /// The stream is open and plays from `start_ms`. `joins` says whether following tracks may
    /// be joined on to it.
    Loaded { sample_rate: u32, start_ms: u64, drive: PositionDrive, joins: bool },
    /// The output was reopened under the same track.
    DeviceChanged,
    /// The listener has reached playback `to`.
    Advanced { to: u64 },
    /// Playback `to` was joined on to the stream, at this time on it.
    Joined { to: u64, at: Duration },
    /// The playback reached its end.
    Ended,
}

/// What the player hears of a feed. Where a join stands on a stream is the renderer's reports to
/// resolve, so the player hears nothing of it.
pub fn heard(event: FeedEvent) -> (event_heard: Option<EngineEvent>)
    ensures
        event_heard == match event {
            FeedEvent::Loaded { sample_rate, start_ms, drive, .. } => Some(
                EngineEvent::Loaded { sample_rate, duration_ms: None, start_ms, drive },
            ),
            FeedEvent::DeviceChanged => Some(EngineEvent::DeviceChanged),
            FeedEvent::Advanced { to } => Some(EngineEvent::Advanced { to }),
            FeedEvent::Joined { .. } => None,
            FeedEvent::Ended => Some(EngineEvent::Ended),
        },
{
    match event {
        FeedEvent::Loaded { sample_rate, start_ms, drive, .. } => Some(
            EngineEvent::Loaded { sample_rate, duration_ms: None, start_ms, drive },
        ),
        FeedEvent::DeviceChanged => Some(EngineEvent::DeviceChanged),
        FeedEvent::Advanced { to } => Some(EngineEvent::Advanced { to }),
        FeedEvent::Joined { .. } => None,
        FeedEvent::Ended => Some(EngineEvent::Ended),
    }
}

/// A track decoded far enough to know its format, to be joined on as playback `to`.
#[derive(Debug, Clone, Copy, PartialEq, Eq, Structural)]
pub struct Prepared {
    pub source_rate: u32,
    pub channels: u16,
    pub to: u64,
}

/// Where a successor waits for the end of the track.
#[derive(Debug, Clone, Copy, PartialEq, Eq, Structural)]
pub struct NextSlot {
    pub prepared: Option<Prepared>,
    /// The successor last given up on, so that one still being opened is dropped rather than
    /// left waiting.
    pub cancelled: u64,
}

impl NextSlot {
    /// The slot once `prepared` is ready.
    pub open spec fn offered(self, prepared: Prepared) -> NextSlot {
        if self.cancelled == prepared.to {
            self
        } else {
            NextSlot { prepared: Some(prepared), ..self }
        }
    }

    /// The slot once successor `to` has been given up on.
    pub open spec fn without(self, to: u64) -> NextSlot {
        NextSlot {
            prepared: match self.prepared {
                Some(prepared) => if prepared.to == to {
                    None
                } else {
                    Some(prepared)
                },
                None => None,
            },
            cancelled: to,
        }
    }

    /// The successor, if it is ready and has the format of the track that ends.
    pub open spec fn joinable(self, source_rate: u32, channels: u16) -> Option<Prepared> {
        match self.prepared {
            Some(prepared) => if prepared.source_rate == source_rate && prepared.channels
                == channels {
                Some(prepared)
            } else {
                None
            },
            None => None,
        }
    }

    /// Empty the slot for the end of a track: what was in it is joined on if it has the same
    /// format, and dropped otherwise.
    pub fn take_joinable(&mut self, source_rate: u32, channels: u16) -> (prepared: Option<Prepared>)
        ensures
            prepared == old(self).joinable(source_rate, channels),
            *final(self) == (NextSlot { prepared: None, ..*old(self) }),
    {
        let waiting = self.prepared;
        self.prepared = None;
        match waiting {
            Some(prepared) => if prepared.source_rate == source_rate && prepared.channels
                == channels {
                Some(prepared)
            } else {
                None
            },
            None => None,
        }
    }
}

/// A running playback, as those who control it see it.
#[derive(Debug, Clone, Copy, PartialEq, Eq, Structural)]
pub struct AudioPlayer {
    pub controls: Controls,
    pub next: NextSlot,
}

impl AudioPlayer {
    /// A playback that starts now: at full volume, with nothing to follow it.
    pub fn start() -> (player: AudioPlayer)
        ensures
            player.controls == (Controls {
                paused: false,
                stopped: false,
                device_failed: false,
                volume: Volume { bits: crate::command::FULL_VOLUME },
                muted: false,
            }),
            player.next == (NextSlot { prepared: None, cancelled: 0 }),
    {
        AudioPlayer { controls: Controls::new(), next: NextSlot { prepared: None, cancelled: 0 } }
    }

    /// A successor has been opened. It waits for the end of the track unless it was given up on
    /// meanwhile.
    pub fn prepare_next(&mut self, prepared: Prepared)
        ensures
            final(self).next == old(self).next.offered(prepared),
            final(self).controls == old(self).controls,
    {
        if self.next.cancelled != prepared.to {
            self.next.prepared = Some(prepared);
        }
    }

    /// Give up on successor `to`: the queue no longer has it next. Too late if it has already
    /// been joined on.
    pub fn cancel_next(&mut self, to: u64)
        ensures
            final(self).next == old(self).next.without(to),
            final(self).controls == old(self).controls,
    {
        self.next.cancelled = to;
        if let Some(prepared) = self.next.prepared {
            if prepared.to == to {
                self.next.prepared = None;
            }
        }
    }

    pub fn pause(&mut self)
        ensures
            *final(self) == (AudioPlayer {
                controls: Controls { paused: true, ..old(self).controls },
                ..*old(self)
            }),
    {
        self.controls.paused = true;
    }

    pub fn resume(&mut self)
        ensures
            *final(self) == (AudioPlayer {
                controls: Controls { paused: false, ..old(self).controls },
                ..*old(self)
            }),
    {
        self.controls.paused = false;
    }

    pub fn stop(&mut self)
        ensures
            *final(self) == (AudioPlayer {
                controls: Controls { stopped: true, ..old(self).controls },
                ..*old(self)
            }),
    {
        self.controls.stopped = true;
    }

    /// Play at `volume`, held between silence and full scale.
    pub fn set_volume(&mut self, volume: Volume)
        ensures
            *final(self) == (AudioPlayer {
                controls: Controls { volume: volume.clamped(), ..old(self).controls },
                ..*old(self)
            }),
    {
        self.controls.volume = volume.clamp();
    }

    pub fn set_muted(&mut self, muted: bool)
        ensures
            *final(self) == (AudioPlayer {
                controls: Controls { muted, ..old(self).controls },
                ..*old(self)
            }),
    {
        self.controls.muted = muted;
    }

    /// Reopen the device, as if it had failed.
    pub fn request_reopen(&mut self)
        ensures
            *final(self) == (AudioPlayer {
                controls: Controls { device_failed: true, ..old(self).controls },
                ..*old(self)
            }),
    {
        self.controls.device_failed = true;
    }

    /// What is reported of a feed that failed: nothing once the playback was stopped.
    pub fn failure(&self, error: &PlayError) -> (event: Option<EngineEvent>)
        ensures
            match event {
                Some(EngineEvent::Failed(text)) => !self.controls.stopped && text@ == error@.text(),
                Some(_) => false,
                None => self.controls.stopped,
            },
    {
        if self.controls.stopped {
            None
        } else {
            Some(EngineEvent::Failed(error.message()))
        }
    }
}

/// A join the listener has not reached yet: where on the clock the old track ends, and the
/// playback that follows it.
#[derive(Debug, Clone, Copy, PartialEq, Eq, Structural)]
pub struct Crossing {
    pub boundary: u64,
    pub to: u64,
}

/// Whether the listener has reached the join.
pub open spec fn reached(crossing: Option<Crossing>, clock: FrameClock) -> bool {
    crossing is Some && clock.frames >= crossing->0.boundary
}

/// Once the listener has reached the join, move the clock onto the new track and report it.
pub fn cross_if_reached(crossing: &mut Option<Crossing>, clock: &mut FrameClock) -> (event: Option<
    FeedEvent,
>)
    ensures
        if reached(*old(crossing), *old(clock)) {
            &&& event == Some(FeedEvent::Advanced { to: old(crossing)->0.to })
            &&& *final(clock) == old(clock).joined_at(old(crossing)->0.boundary)
            &&& *final(crossing) == None::<Crossing>
        } else {
            event is None && *final(clock) == *old(clock) && *final(crossing) == *old(crossing)
        },
{
    match *crossing {
        Some(join) => {
            if clock.frames() >= join.boundary {
                clock.rebase(join.boundary);
                *crossing = None;
                Some(FeedEvent::Advanced { to: join.to })
            } else {
                None
            }
        },
        None => None,
    }
}

/// Feeding the local device.
#[derive(Debug, Clone, Copy, PartialEq, Eq, Structural)]
pub struct LocalFeed {
    pub source_rate: u32,
    pub channels: u16,
    pub start_ms: u64,
    /// No device has been opened yet.
    pub first_session: bool,
    /// The rate the device runs at; meaningless before the first session.
    pub device_rate: u32,
    /// Frames of the current track fed to the device: where on the clock the track will have
    /// ended once everything fed so far has been heard.
    pub fed: u64,
    pub crossing: Option<Crossing>,
}

/// What a feed does next.
#[derive(Debug, Clone, Copy, PartialEq, Eq, Structural)]
pub enum Feeding {
    /// Playback is over: let everything go.
    Stop,
    /// Let the device go and open it again.
    Reopen,
    /// Decode the next chunk of the current track.
    Decode,
    /// The track has ended with nothing to join on: let the device play what it was given.
    Drain,
    /// Sleep a moment and look again.
    Nap,
    /// The ring is read: wait for the device's own buffer, then finish.
    Tail,
}

impl LocalFeed {
    pub fn new(source_rate: u32, channels: u16, start_ms: u64) -> (feed: LocalFeed)
        ensures
            feed == (LocalFeed {
                source_rate,
                channels,
                start_ms,
                first_session: true,
                device_rate: 0,
                fed: 0,
                crossing: None,
            }),
    {
        LocalFeed {
            source_rate,
            channels,
            start_ms,
            first_session: true,
            device_rate: 0,
            fed: 0,
            crossing: None,
        }
    }

    /// Before a device is opened: stop, or clear what was held against the last one and open.
    pub fn session(&self, controls: &mut Controls) -> (open: bool)
        ensures
            open == !old(controls).stopped,
            *final(controls) == if old(controls).stopped {
                *old(controls)
            } else {
                Controls { device_failed: false, ..*old(controls) }
            },
    {
        if controls.stopped {
            return false;
        }
        controls.device_failed = false;
        true
    }

    /// A device was opened at `device_rate`. The first one is where the stream begins; under any
    /// later one the same track plays on.
    pub fn opened(&mut self, device_rate: u32) -> (event: FeedEvent)
        ensures
            old(self).first_session ==> {
                &&& event == FeedEvent::Loaded {
                    sample_rate: device_rate,
                    start_ms: old(self).start_ms,
                    drive: PositionDrive::Frames,
                    joins: true,
                }
                &&& *final(self) == (LocalFeed {
                    first_session: false,
                    device_rate,
                    fed: frames_in(
                        (old(self).start_ms * NANOS_PER_MILLI) as u128,
                        device_rate,
                    ),
                    ..*old(self)
                })
            },
            !old(self).first_session ==> {
                &&& event == FeedEvent::DeviceChanged
                &&& *final(self) == (LocalFeed { device_rate, ..*old(self) })
            },
    {
        self.device_rate = device_rate;
        if !self.first_session {
            return FeedEvent::DeviceChanged;
        }
        self.first_session = false;
        self.fed = whole_frames(Duration::from_millis(self.start_ms), device_rate);
        FeedEvent::Loaded {
            sample_rate: device_rate,
            start_ms: self.start_ms,
            drive: PositionDrive::Frames,
            joins: true,
        }
    }

    /// Whether the source has to be resampled for the device.
    pub fn resamples(&self) -> (r: bool)
        ensures
            r == (self.device_rate != self.source_rate),
    {
        self.device_rate != self.source_rate
    }

    /// What to do before the next chunk, and what the listener has meanwhile reached.
    pub fn feed(&mut self, controls: &Controls, clock: &mut FrameClock) -> (step: (
        Feeding,
        Option<FeedEvent>,
    ))
        ensures
            step.0 == if controls.stopped {
                Feeding::Stop
            } else if controls.device_failed {
                Feeding::Reopen
            } else {
                Feeding::Decode
            },
            if step.0 == Feeding::Decode && reached(old(self).crossing, *old(clock)) {
                &&& step.1 == Some(FeedEvent::Advanced { to: old(self).crossing->0.to })
                &&& *final(clock) == old(clock).joined_at(old(self).crossing->0.boundary)
                &&& *final(self) == (LocalFeed { crossing: None, ..*old(self) })
            } else {
                step.1 is None && *final(clock) == *old(clock) && *final(self) == *old(self)
            },
    {
        if controls.stopped {
            return (Feeding::Stop, None);
        }
        if controls.device_failed {
            return (Feeding::Reopen, None);
        }
        let event = cross_if_reached(&mut self.crossing, clock);
        (Feeding::Decode, event)
    }

    /// The decoder has come to the end of the track. With a successor that can be joined on, the
    /// feed carries straight on into it, and what is fed counts from the join. One join is in
    /// flight at a time, so a track shorter than the ring ends as usual.
    pub fn end_of_track(&mut self, next: &mut NextSlot) -> (joined: Option<u64>)
        ensures
            if old(self).crossing is None {
                &&& *final(next) == (NextSlot { prepared: None, ..*old(next) })
                &&& match old(next).joinable(old(self).source_rate, old(self).channels) {
                    Some(prepared) => {
                        &&& joined == Some(prepared.to)
                        &&& *final(self) == (LocalFeed {
                            crossing: Some(
                                Crossing { boundary: old(self).fed, to: prepared.to },
                            ),
                            fed: 0,
                            ..*old(self)
                        })
                    },
                    None => joined is None && *final(self) == *old(self),
                }
            } else {
                joined is None && *final(self) == *old(self) && *final(next) == *old(next)
            },
    {
        if self.crossing.is_some() {
            return None;
        }
        match next.take_joinable(self.source_rate, self.channels) {
            Some(prepared) => {
                self.crossing = Some(Crossing { boundary: self.fed, to: prepared.to });
                self.fed = 0;
                Some(prepared.to)
            },
            None => None,
        }
    }

    /// `samples` interleaved samples were handed to the ring, or that was interrupted.
    pub fn pushed(&mut self, complete: bool, samples: usize, controls: &Controls) -> (step: Feeding)
        requires
            old(self).channels > 0,
            old(self).fed + samples as int / old(self).channels as int <= u64::MAX,
        ensures
            step == if complete {
                Feeding::Decode
            } else if controls.stopped {
                Feeding::Stop
            } else {
                Feeding::Reopen
            },
            *final(self) == if complete {
                LocalFeed {
                    fed: (old(self).fed + samples as int / old(self).channels as int) as u64,
                    ..*old(self)
                }
            } else {
                *old(self)
            },
    {
        if complete {
            self.fed = self.fed + frames_of(samples, self.channels);
            Feeding::Decode
        } else if controls.stopped {
            Feeding::Stop
        } else {
            Feeding::Reopen
        }
    }

    /// What to do while the device plays what it was given, and what the listener has meanwhile
    /// reached. A device that fails is not waited for.
    pub fn drain(&mut self, drained: bool, controls: &Controls, clock: &mut FrameClock) -> (step: (
        Feeding,
        Option<FeedEvent>,
    ))
        ensures
            step.0 == if drained {
                Feeding::Tail
            } else if controls.stopped {
                Feeding::Stop
            } else if controls.device_failed {
                Feeding::Tail
            } else {
                Feeding::Nap
            },
            if step.0 == Feeding::Nap && reached(old(self).crossing, *old(clock)) {
                &&& step.1 == Some(FeedEvent::Advanced { to: old(self).crossing->0.to })
                &&& *final(clock) == old(clock).joined_at(old(self).crossing->0.boundary)
                &&& *final(self) == (LocalFeed { crossing: None, ..*old(self) })
            } else {
                step.1 is None && *final(clock) == *old(clock) && *final(self) == *old(self)
            },
    {
        if drained {
            return (Feeding::Tail, None);
        }
        if controls.stopped {
            return (Feeding::Stop, None);
        }
        if controls.device_failed {
            return (Feeding::Tail, None);
        }
        let event = cross_if_reached(&mut self.crossing, clock);
        (Feeding::Nap, event)
    }

    /// The device has played everything out. A join that it drained past is reported before the
    /// end; the end itself only if nothing stopped or broke the playback, which is otherwise
    /// taken up again on the next device.
    pub fn finish(&mut self, controls: &Controls, clock: &mut FrameClock) -> (events: (
        Option<FeedEvent>,
        Option<FeedEvent>,
    ))
        ensures
            *final(self) == (LocalFeed { crossing: None, ..*old(self) }),
            match old(self).crossing {
                Some(join) => events.0 == Some(FeedEvent::Advanced { to: join.to }) && *final(clock)
                    == old(clock).joined_at(join.boundary),
                None => events.0 is None && *final(clock) == *old(clock),
            },
            events.1 == if controls.stopped || controls.device_failed {
                None::<FeedEvent>
            } else {
                Some(FeedEvent::Ended)
            },
    {
        let crossed = match self.crossing {
            Some(join) => {
                clock.rebase(join.boundary);
                self.crossing = None;
                Some(FeedEvent::Advanced { to: join.to })
            },
            None => None,
        };
        if controls.stopped || controls.device_failed {
            (crossed, None)
        } else {
            (crossed, Some(FeedEvent::Ended))
        }
    }
}

/// How long `frames` last at `rate` frames a second: a double precision number of seconds, in
/// nanoseconds to the nearest.
pub open spec fn lasting(frames: u64, rate: u32) -> nat {
    span_of(double(double(in_steps(frames as nat, DOUBLE_PLACES), 1), rate as nat))
}

/// How long `frames` last at `rate` frames a second.
fn time_of(frames: u64, rate: u32) -> (d: Duration)
    requires
        rate > 0,
    ensures
        d.nanos == lasting(frames, rate),
{
    let count = Binary::ratio(frames as u128, 1, DOUBLE_PLACES, DOUBLE_DIGITS);
    proof {
        lemma2_to64();
        let u = pow2(DOUBLE_PLACES as nat) as int;
        lemma_pow2_pos(DOUBLE_PLACES as nat);
        let most = pow2(64) as int;
        assert(frames * u < most * u) by (nonlinear_arith)
            requires
                frames < most,
                u > 0,
        ;
        lemma_pow2_adds(64, DOUBLE_PLACES as nat);
        rounding_stays_below(
            in_steps(frames as nat, DOUBLE_PLACES),
            1,
            DOUBLE_DIGITS as nat,
            64 + DOUBLE_PLACES as nat,
        );
        lemma_pow2_strictly_increases(64 + DOUBLE_PLACES as nat, SPAN as nat);
    }
    let secs = count.over(rate, DOUBLE_DIGITS);
    proof {
        let top = pow2(64 + DOUBLE_PLACES as nat) as int;
        let r = rate as int;
        lemma_pow2_pos(64 + DOUBLE_PLACES as nat);
        if r > 1 || count@ < top {
            assert(count@ < r * top) by (nonlinear_arith)
                requires
                    count@ <= top,
                    r > 1 || count@ < top,
                    r >= 1,
                    top > 0,
            ;
            rounding_stays_below(
                count@,
                rate as nat,
                DOUBLE_DIGITS as nat,
                64 + DOUBLE_PLACES as nat,
            );
        } else {
            lemma_pow2_strictly_increases(0, DOUBLE_DIGITS as nat);
            what_fits_is_exact(1, DOUBLE_DIGITS as nat, 64 + DOUBLE_PLACES as nat);
            assert(1 * top == top);
        }
    }
    Duration { nanos: secs.nearest_times(1_000_000_000, DOUBLE_PLACES) }
}

/// Feeding a network renderer.
///
/// Audio is handed over at the pace it is heard, kept a little ahead so that the renderer's
/// buffer stays filled. Frames fed are not where the listener is: the renderer reports that, and
/// it reports the end too.
#[derive(Debug, Clone, Copy, PartialEq, Eq, Structural)]
pub struct NetworkFeed {
    pub source_rate: u32,
    pub channels: u16,
    /// Whether following tracks may be joined on to the stream.
    pub joins: bool,
    /// When the first frame would have been heard had nothing been paused since.
    pub play_start: Instant,
    pub frames_fed: u64,
    /// Since when the feed has been paused.
    pub paused_at: Option<Instant>,
}

impl NetworkFeed {
    /// The feed once a pause that began at `paused_at` is over.
    pub open spec fn resumed(self, now: Instant) -> NetworkFeed {
        match self.paused_at {
            Some(at) => NetworkFeed {
                play_start: Instant {
                    nanos: capped_sum(
                        self.play_start.nanos,
                        floored_difference(now.nanos, at.nanos),
                    ),
                },
                paused_at: None,
                ..self
            },
            None => self,
        }
    }

    /// When everything fed so far will have been heard.
    pub open spec fn heard_at(self) -> u128 {
        capped_sum(self.play_start.nanos, lasting(self.frames_fed, self.source_rate) as u128)
    }

    /// How long to sleep so that the feed is no further ahead of `now` than it may be.
    pub open spec fn excess(self, now: Instant) -> Option<Duration> {
        let ahead = floored_difference(self.heard_at(), now.nanos);
        let lead = (NETWORK_LEAD_SECS * NANOS_PER_SEC) as u128;
        if ahead > lead {
            Some(Duration { nanos: (ahead - lead) as u128 })
        } else {
            None
        }
    }

    /// A feed that begins at `now`, and what it reports. The position of the stream it reports is
    /// the renderer's.
    pub fn new(
        source_rate: u32,
        channels: u16,
        start_ms: u64,
        joins: bool,
        now: Instant,
    ) -> (feed: (NetworkFeed, FeedEvent))
        ensures
            feed.0 == (NetworkFeed {
                source_rate,
                channels,
                joins,
                play_start: now,
                frames_fed: 0,
                paused_at: None,
            }),
            feed.1 == (FeedEvent::Loaded {
                sample_rate: source_rate,
                start_ms,
                drive: PositionDrive::Renderer,
                joins,
            }),
    {
        (
            NetworkFeed {
                source_rate,
                channels,
                joins,
                play_start: now,
                frames_fed: 0,
                paused_at: None,
            },
            FeedEvent::Loaded {
                sample_rate: source_rate,
                start_ms,
                drive: PositionDrive::Renderer,
                joins,
            },
        )
    }

    /// What to do before the next chunk. Paused time does not count against the pace, or the feed
    /// would sprint to catch up.
    pub fn step(&mut self, controls: &Controls, now: Instant) -> (step: Feeding)
        ensures
            step == if controls.stopped {
                Feeding::Stop
            } else if controls.paused {
                Feeding::Nap
            } else {
                Feeding::Decode
            },
            *final(self) == if controls.paused && !controls.stopped {
                NetworkFeed {
                    paused_at: match old(self).paused_at {
                        Some(at) => Some(at),
                        None => Some(now),
                    },
                    ..*old(self)
                }
            } else {
                old(self).resumed(now)
            },
    {
        if controls.paused && !controls.stopped {
            if self.paused_at.is_none() {
                self.paused_at = Some(now);
            }
            return Feeding::Nap;
        }
        if let Some(at) = self.paused_at {
            self.play_start = self.play_start.after(now.since(at));
            self.paused_at = None;
        }
        if controls.stopped {
            Feeding::Stop
        } else {
            Feeding::Decode
        }
    }

    /// The decoder has come to the end of the track. With a successor that can be joined on, the
    /// stream carries straight on into it: the renderer never sees the boundary. Otherwise the
    /// feed is over.
    pub fn end_of_track(&self, next: &mut NextSlot) -> (joined: Option<FeedEvent>)
        requires
            self.source_rate > 0,
        ensures
            if self.joins {
                &&& *final(next) == (NextSlot { prepared: None, ..*old(next) })
                &&& joined == match old(next).joinable(self.source_rate, self.channels) {
                    Some(prepared) => Some(
                        FeedEvent::Joined {
                            to: prepared.to,
                            at: Duration {
                                nanos: lasting(self.frames_fed, self.source_rate) as u128,
                            },
                        },
                    ),
                    None => None,
                }
            } else {
                joined is None && *final(next) == *old(next)
            },
    {
        if !self.joins {
            return None;
        }
        match next.take_joinable(self.source_rate, self.channels) {
            Some(prepared) => {
                Some(
                    FeedEvent::Joined {
                        to: prepared.to,
                        at: time_of(self.frames_fed, self.source_rate),
                    },
                )
            },
            None => None,
        }
    }

    /// `samples` interleaved samples were handed to the renderer. Sleep as long as the result
    /// says before the next chunk.
    pub fn submitted(&mut self, samples: usize, clock: &mut FrameClock, now: Instant) -> (excess:
        Option<Duration>)
        requires
            old(self).channels > 0,
            old(self).source_rate > 0,
            old(self).frames_fed + samples as int / old(self).channels as int <= u64::MAX,
        ensures
            *final(self) == (NetworkFeed {
                frames_fed: (old(self).frames_fed + samples as int / old(
                    self,
                ).channels as int) as u64,
                ..*old(self)
            }),
            *final(clock) == (FrameClock {
                frames: old(clock).frames.wrapping_add(
                    (samples as int / old(self).channels as int) as u64,
                ),
                ..*old(clock)
            }),
            excess == final(self).excess(now),
    {
        let frames: u64 = frames_of(samples, self.channels);
        clock.advance(frames);
        self.frames_fed = self.frames_fed + frames;
        let target = self.play_start.after(time_of(self.frames_fed, self.source_rate));
        let ahead = target.since(now);
        let lead = Duration::from_secs(NETWORK_LEAD_SECS);
        if ahead.nanos > lead.nanos {
            Some(Duration { nanos: ahead.nanos - lead.nanos })
        } else {
            None
        }
    }
}

/// How long to sleep towards `end` before looking again: not at all once it has come, or once
/// playback is stopped or paused.
pub fn pace(end: Instant, now: Instant, controls: &Controls) -> (nap: Option<Duration>)
    ensures
        nap == if controls.stopped || controls.paused || now.nanos >= end.nanos {
            None
        } else if end.nanos - now.nanos < NAP_MS * NANOS_PER_MILLI {
            Some(Duration { nanos: (end.nanos - now.nanos) as u128 })
        } else {
            Some(Duration { nanos: (NAP_MS * NANOS_PER_MILLI) as u128 })
        },
{
    if controls.stopped || controls.paused {
        return None;
    }
    if now.nanos >= end.nanos {
        return None;
    }
    let left: u128 = end.nanos - now.nanos;
    let nap = Duration::from_millis(NAP_MS);
    if left < nap.nanos {
        Some(Duration { nanos: left })
    } else {
        Some(nap)
    }
}

/// A successor that was given up on is not joined on, neither if it was already waiting nor if
/// it is still being opened.
pub proof fn a_cancelled_successor_is_not_joined(
    slot: NextSlot,
    late: Prepared,
    source_rate: u32,
    channels: u16,
)
    ensures
        slot.without(late.to).offered(late) == slot.without(late.to),
        slot.without(late.to).joinable(source_rate, channels) matches Some(joined) ==> joined.to
            != late.to,
{
}

/// Giving up on one successor leaves another in place.
pub proof fn cancelling_leaves_another_successor(slot: NextSlot, to: u64)
    requires
        slot.prepared is Some,
        slot.prepared->0.to != to,
    ensures
        slot.without(to).prepared == slot.prepared,
{
}

/// Where the first device session begins to feed is where the player sets the clock: the two
/// count the same frames.
pub proof fn the_feed_begins_where_the_clock_does(clock: FrameClock, start_ms: u64, rate: u32)
    requires
        rate > 0,
    ensures
        clock.rebased(rate).sought((start_ms * NANOS_PER_MILLI) as u128).frames == frames_in(
            (start_ms * NANOS_PER_MILLI) as u128,
            rate,
        ),
{
}

/// When the listener crosses a join, what they have heard of the new track is what they have
/// heard since the old one ended: no frame is lost or counted twice.
pub proof fn a_join_loses_no_frames(clock: FrameClock, join: Crossing)
    requires
        reached(Some(join), clock),
    ensures
        join.boundary + clock.joined_at(join.boundary).frames == clock.frames,
        clock.joined_at(join.boundary).sample_rate == clock.sample_rate,
        clock.joined_at(join.boundary).epoch != clock.epoch,
{
}

/// A network feed that has slept as it was told is no further ahead than it may be.
pub proof fn a_network_feed_keeps_its_lead(feed: NetworkFeed, now: Instant)
    ensures
        match feed.excess(now) {
            Some(nap) => floored_difference(feed.heard_at(), (now.nanos + nap.nanos) as u128)
                <= NETWORK_LEAD_SECS * NANOS_PER_SEC,
            None => floored_difference(feed.heard_at(), now.nanos) <= NETWORK_LEAD_SECS
                * NANOS_PER_SEC,
        },
{
}

/// A pause puts off everything that is still to be heard by just as long.
pub proof fn a_pause_does_not_quicken_the_feed(feed: NetworkFeed, now: Instant)
    requires
        feed.paused_at is Some,
        feed.paused_at->0.nanos <= now.nanos,
        feed.heard_at() + (now.nanos - feed.paused_at->0.nanos) <= u128::MAX,
    ensures
        feed.resumed(now).heard_at() == feed.heard_at() + (now.nanos - feed.paused_at->0.nanos),
{
}

/// A successor that was prepared is joined where it has the format that plays, unless it was called
/// off before it was ready.
pub proof fn a_successor_of_the_same_format_is_joined(slot: NextSlot, prepared: Prepared)
    requires
        slot.cancelled != prepared.to,
    ensures
        slot.offered(prepared).joinable(prepared.source_rate, prepared.channels) == Some(prepared),
        forall|rate: u32, channels: u16|
            rate != prepared.source_rate || channels != prepared.channels
                ==> #[trigger] slot.offered(prepared).joinable(rate, channels) is None,
        slot.without(prepared.to).cancelled == prepared.to,
{
}

/// The listener reaches a join when as many frames were heard as were fed before it.
pub proof fn a_join_is_reached_at_its_frame(clock: FrameClock, join: Crossing)
    ensures
        reached(Some(join), clock) <==> clock.frames >= join.boundary,
        !reached(None, clock),
{
}

/// A network feed waits exactly as long as it is more than two seconds ahead of what is heard.
pub proof fn a_network_feed_waits_for_what_it_is_ahead(feed: NetworkFeed, now: Instant)
    ensures
        feed.heard_at() > now.nanos + 2_000_000_000 ==> feed.excess(now) is Some
            && now.nanos + feed.excess(now)->0.nanos + 2_000_000_000 == feed.heard_at(),
        feed.heard_at() <= now.nanos + 2_000_000_000 ==> feed.excess(now) is None,
{
}

/// Frames last as long as they take at their rate, to within two nanoseconds, for as long as a
/// stream runs less than a hundred days.
pub proof fn frames_last_as_long_as_they_take(frames: u64, rate: u32)
    requires
        rate > 0,
        frames < 0x20_0000_0000_0000,
        frames * 1_000_000_000 <= 0x20_0000_0000_0000 * rate,
    ensures
        lasting(frames, rate) * rate - frames * 1_000_000_000 <= 2 * rate,
        frames * 1_000_000_000 - lasting(frames, rate) * rate <= 2 * rate,
{
    lemma2_to64();
    vstd::arithmetic::power2::lemma2_to64_rest();
    let u = pow2(DOUBLE_PLACES as nat) as int;
    let d = pow2(DOUBLE_DIGITS as nat) as int;
    assert(d == 0x20_0000_0000_0000);
    lemma_pow2_strictly_increases(32, DOUBLE_PLACES as nat);
    assert(u > 4_000_000_000);
    let f = frames as int;
    let r = rate as int;
    what_fits_is_exact(frames as nat, DOUBLE_DIGITS as nat, DOUBLE_PLACES as nat);
    let steps = in_steps(frames as nat, DOUBLE_PLACES);
    assert(steps == f * u);
    let x = double(steps, rate as nat) as int;
    rounding_moves_little(steps, rate as nat, DOUBLE_DIGITS as nat);
    let n = lasting(frames, rate) as int;
    let big = x * 1_000_000_000;
    vstd::arithmetic::div_mod::lemma_fundamental_div_mod(big, u);
    vstd::arithmetic::div_mod::lemma_mod_bound(big, u);
    let low = big / u;
    let rest = big % u;
    assert(n == low || n == low + 1);
    assert(2 * (n * u - big) <= u && 2 * (big - n * u) <= u) by (nonlinear_arith)
        requires
            big == u * low + rest,
            0 <= rest < u,
            n == low && 2 * rest <= u || n == low + 1 && 2 * rest >= u,
    ;
    let off = n * r - f * 1_000_000_000;
    near_enough(f, r, u, d, x, n);
}

proof fn near_enough(f: int, r: int, u: int, d: int, x: int, n: int)
    requires
        f >= 0,
        r > 0,
        d > 0,
        u > 4_000_000_000,
        f * 1_000_000_000 <= d * r,
        d * (x * r - f * u) <= f * u + r * d,
        d * (f * u - x * r) <= f * u + r * d,
        2 * (n * u - x * 1_000_000_000) <= u,
        2 * (x * 1_000_000_000 - n * u) <= u,
    ensures
        n * r - f * 1_000_000_000 <= 2 * r,
        f * 1_000_000_000 - n * r <= 2 * r,
{
    let k = 1_000_000_000int;
    let a = n * u - x * k;
    let b = x * r - f * u;
    let off = n * r - f * k;
    assert(off * u == a * r + b * k) by (nonlinear_arith)
        requires
            a == n * u - x * k,
            b == x * r - f * u,
            off == n * r - f * k,
    ;
    assert(2 * (a * r) <= u * r && 2 * (-(a * r)) <= u * r) by (nonlinear_arith)
        requires
            2 * a <= u,
            -2 * a <= u,
            r > 0,
    ;
    // The rounding of the quotient, in parts of a second.
    assert(d * (b * k) <= (f * u + r * d) * k && d * (-(b * k)) <= (f * u + r * d) * k)
        by (nonlinear_arith)
        requires
            d * b <= f * u + r * d,
            d * (-b) <= f * u + r * d,
            k == 1_000_000_000,
    ;
    assert((f * u + r * d) * k <= d * (r * u + r * k)) by (nonlinear_arith)
        requires
            f * k <= d * r,
            u > 0,
    ;
    assert(b * k <= r * u + r * k) by (nonlinear_arith)
        requires
            d * (b * k) <= d * (r * u + r * k),
            d > 0,
    ;
    assert(-(b * k) <= r * u + r * k) by (nonlinear_arith)
        requires
            d * (-(b * k)) <= d * (r * u + r * k),
            d > 0,
    ;
    assert(4 * (r * k) < r * u) by (nonlinear_arith)
        requires
            u > 4 * k,
            r > 0,
    ;
    assert(u * r == r * u) by (nonlinear_arith);
    assert(off * u < (2 * r) * u && -off * u < (2 * r) * u) by (nonlinear_arith)
        requires
            2 * (off * u) <= r * u + 2 * (r * u) + 2 * (r * k),
            2 * (-(off * u)) <= r * u + 2 * (r * u) + 2 * (r * k),
            4 * (r * k) < r * u,
    ;
    assert(off <= 2 * r && -off <= 2 * r) by (nonlinear_arith)
        requires
            off * u < (2 * r) * u,
            -off * u < (2 * r) * u,
            u > 0,
    ;
}

} // verus!
