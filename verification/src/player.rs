//! The player: the single owner of playback state.
//!
//! Every input that can change playback reality, including device loss, sink failure and a track
//! ending, goes through this one machine. It *decides*: which track plays next, when the queue
//! advances, where a restart resumes. Each decision that needs the world to act goes out as an
//! [`Effect`], and what really happened comes back as an [`EngineEvent`] tagged with the
//! **generation** of the playback it belongs to. Every playback start gets a new generation, so
//! a report about a playback already moved on from is recognised as stale here, in one place.

use vstd::prelude::*;

use crate::command::{Command, Repeat, Volume, FULL_VOLUME};
use crate::error::{Error, ErrorView};
use crate::position::{PositionDrive, RendererClock};
use crate::sink::{clone_opt_sink, local_id, opt_sink, RendererState, SinkId, SinkInfo};
use crate::state::{FrameClock, PlaybackState};
use crate::text::{clone_opt, concat, decimal, number, opt_text};
use crate::time::{capped_sum, whole_millis, Duration, Instant, NANOS_PER_MILLI};
use crate::track::{
    clone_tracks, opt_track, tracks_view, MetaView, TrackMeta, TrackRef, TrackRefView,
};

verus! {

/// How far ahead of the end of a track its successor is made ready, in milliseconds.
pub const PRELOAD_LEAD_MS: u64 = 15_000;

/// How long, after a pause or play on a renderer, a report contradicting it is taken to predate
/// it, in milliseconds.
pub const CONFIRM_WINDOW_MS: u64 = 3_000;

/// The condition a renderer should report once it has carried out the last transport command.
#[derive(Debug, Clone, Copy, PartialEq, Eq, Structural)]
pub enum Expect {
    Paused,
    Playing,
}

impl Expect {
    /// Whether `reported` is the device doing what was asked. A renderer resuming commonly
    /// passes through buffering, which is it obeying, not contradicting.
    pub open spec fn confirmed(self, reported: RendererState) -> bool {
        match self {
            Expect::Paused => reported == RendererState::Paused,
            Expect::Playing => reported == RendererState::Playing || reported
                == RendererState::Buffering,
        }
    }

    pub fn confirmed_by(self, reported: RendererState) -> (confirmed: bool)
        ensures
            confirmed == self.confirmed(reported),
    {
        match self {
            Expect::Paused => reported == RendererState::Paused,
            Expect::Playing => reported == RendererState::Playing || reported
                == RendererState::Buffering,
        }
    }
}

/// Signals the audio and output layers feed back into the machine.
#[derive(Debug, PartialEq, Eq)]
pub enum EngineEvent {
    /// The decoder opened the stream and playback begins. Carries the source sample rate, the
    /// known duration if any, the timeline position this stream starts at, and where position
    /// will come from.
    Loaded { sample_rate: u32, duration_ms: Option<u64>, start_ms: u64, drive: PositionDrive },
    /// The source described the track being started. Written back into the queue entry.
    Described(TrackMeta),
    /// A network renderer reported what it is doing.
    RendererState(RendererState),
    /// A network renderer reported its position on the stream it was handed.
    RendererPosition(Duration),
    /// The playback reached its end. The queue advances on this.
    Ended,
    /// Unrecoverable playback error.
    Failed(String),
    /// The listener has crossed from the current track into the prepared one, without a break.
    /// `to` is the prepared playback's generation.
    Advanced { to: u64 },
    /// The output was reopened for the same track. Position continues.
    DeviceChanged,
    /// The active network sink died; the player fails back to local output. About the output,
    /// not one playback, so it is never stale.
    SinkFailed(SinkId),
}

/// What the player needs the world to do. Each is a decision already made.
#[derive(Debug, PartialEq, Eq)]
pub enum Effect {
    /// Produce `track` from `position` on the selected output. Supersedes every earlier playback.
    Start { generation: u64, track: TrackRef, position: Duration },
    /// Stop producing sound, on every output.
    Halt { generation: u64 },
    /// Get `track` ready to follow the playback of `generation` without a break: it becomes the
    /// playback `next_generation` when the listener reaches it.
    Prepare { generation: u64, next_generation: u64, track: TrackRef },
    /// What was prepared as `next_generation` will not follow after all.
    Unprepare { next_generation: u64 },
    /// Hold the current playback where it is.
    Pause,
    /// Continue the current playback.
    Resume,
    SetVolume(Volume),
    SetMuted(bool),
}

/// What an [`Effect`] says.
pub enum EffectView {
    Start { generation: int, track: TrackRefView, position: Duration },
    Halt { generation: int },
    Prepare { generation: int, next_generation: int, track: TrackRefView },
    Unprepare { next_generation: int },
    Pause,
    Resume,
    SetVolume(Volume),
    SetMuted(bool),
}

impl View for Effect {
    type V = EffectView;

    open spec fn view(&self) -> EffectView {
        match self {
            Effect::Start { generation, track, position } => EffectView::Start {
                generation: *generation as int,
                track: track@,
                position: *position,
            },
            Effect::Halt { generation } => EffectView::Halt { generation: *generation as int },
            Effect::Prepare { generation, next_generation, track } => EffectView::Prepare {
                generation: *generation as int,
                next_generation: *next_generation as int,
                track: track@,
            },
            Effect::Unprepare { next_generation } => EffectView::Unprepare {
                next_generation: *next_generation as int,
            },
            Effect::Pause => EffectView::Pause,
            Effect::Resume => EffectView::Resume,
            Effect::SetVolume(volume) => EffectView::SetVolume(*volume),
            Effect::SetMuted(muted) => EffectView::SetMuted(*muted),
        }
    }
}

/// What several effects say.
pub open spec fn effects_view(all: Seq<Effect>) -> Seq<EffectView> {
    all.map_values(|e: Effect| e@)
}

/// The queue as the snapshot shows it.
#[derive(Debug, Clone, Copy, PartialEq, Eq, Structural)]
pub struct QueueView {
    pub len: usize,
    /// The entry playing, or the one that last played.
    pub index: usize,
    /// Moves whenever the queue's contents or position change.
    pub revision: u64,
    pub repeat: Repeat,
}

/// The queue's contents. `revision` matches the snapshot's [`QueueView::revision`], so a client
/// refetches only when it moved.
#[derive(Debug, PartialEq, Eq)]
pub struct QueueSnapshot {
    pub revision: u64,
    pub index: usize,
    pub tracks: Vec<TrackRef>,
}

/// The single authoritative view of playback, stamped with a monotonic `seq`.
#[derive(Debug, PartialEq, Eq)]
pub struct PlayerSnapshot {
    pub seq: u64,
    pub state: PlaybackState,
    pub track: Option<TrackRef>,
    pub position_ms: u64,
    pub duration_ms: Option<u64>,
    /// How fast position advances: 1 while playing, 0 otherwise.
    pub rate: u32,
    pub volume: Volume,
    pub muted: bool,
    pub sink: Option<SinkId>,
    pub error: Option<String>,
    pub queue: QueueView,
}

/// The player's state.
#[verifier::ext_equal]
pub struct PlayerModel {
    /// Moves with every transition.
    pub seq: int,
    pub state: PlaybackState,
    pub track: Option<TrackRefView>,
    pub duration_ms: Option<u64>,
    pub volume: Volume,
    pub muted: bool,
    pub sink: Option<Seq<char>>,
    pub error: Option<Seq<char>>,
    pub queue: Seq<TrackRefView>,
    /// The entry playing, or the one that last played.
    pub index: int,
    pub revision: int,
    pub repeat: Repeat,
    /// The current playback.
    pub generation: int,
    /// The last generation handed out, to a playback or a prepared one.
    pub issued: int,
    /// The entry made ready to follow: its generation and its place in the queue.
    pub prepared: Option<(int, int)>,
    pub clock: FrameClock,
    /// Present exactly while the output reports its own position.
    pub renderer: Option<RendererClock>,
    /// What a renderer should report next, and until when a contradicting report is taken to be
    /// older than the command.
    pub expect: Option<(Expect, Instant)>,
    /// The position last published.
    pub told_ms: u64,
}

/// What one input does to the player.
#[verifier::ext_equal]
pub struct Step {
    pub model: PlayerModel,
    /// What the world should do, in order.
    pub effects: Seq<EffectView>,
    /// Whether anything changed.
    pub changed: bool,
    /// Why the input was refused, if it was.
    pub refused: Option<ErrorView>,
}

/// An input that changes nothing.
pub open spec fn quiet(model: PlayerModel) -> Step {
    Step { model, effects: Seq::empty(), changed: false, refused: None }
}

/// An input that leads to `model`, with nothing for the world to do.
pub open spec fn news(model: PlayerModel) -> Step {
    Step { model, effects: Seq::empty(), changed: true, refused: None }
}

/// An input that leads to `model`, with one thing for the world to do.
pub open spec fn acting(model: PlayerModel, effect: EffectView) -> Step {
    Step { model, effects: seq![effect], changed: true, refused: None }
}

/// An input that cannot be applied.
pub open spec fn refusal(model: PlayerModel, why: ErrorView) -> Step {
    Step { model, effects: Seq::empty(), changed: false, refused: Some(why) }
}

/// `step`, after the world was asked for `effects`.
pub open spec fn following_on(effects: Seq<EffectView>, step: Step) -> Step {
    Step { effects: effects + step.effects, ..step }
}

/// There is no entry `index` in the queue.
pub open spec fn no_entry(index: int) -> ErrorView {
    ErrorView::NotFound("no entry "@ + decimal(index as nat) + " in the queue"@)
}

/// Whether a command is about what the queue holds and in which order it plays.
pub open spec fn edits_queue(command: Command) -> bool {
    match command {
        Command::Load(_)
        | Command::Enqueue(_)
        | Command::EnqueueMany(_)
        | Command::PlayNext(_)
        | Command::Replace { .. }
        | Command::Jump(_)
        | Command::Remove(_)
        | Command::Move { .. }
        | Command::Shuffle { .. }
        | Command::SetRepeat(_) => true,
        _ => false,
    }
}

/// The number drawn for step `k` of a shuffle.
pub open spec fn draw(draws: Seq<u64>, k: int) -> int {
    if 0 <= k < draws.len() {
        draws[k] as int
    } else {
        0
    }
}

/// `pool` dealt out in the order the draws pick: at each step, one of what is left.
pub open spec fn dealt<T>(pool: Seq<T>, draws: Seq<u64>, k: int) -> Seq<T>
    decreases pool.len(),
{
    if pool.len() == 0 {
        Seq::empty()
    } else {
        let pick = draw(draws, k) % (pool.len() as int);
        seq![pool[pick]] + dealt(pool.remove(pick), draws, k + 1)
    }
}

impl PlayerModel {
    /// Whether a track is in play: being started, playing, or paused.
    pub open spec fn in_play(self) -> bool {
        self.state == PlaybackState::Loading || self.state == PlaybackState::Playing || self.state
            == PlaybackState::Paused
    }

    /// The current entry is one the queue has.
    pub open spec fn has_entry(self) -> bool {
        0 <= self.index < self.queue.len()
    }

    /// What always holds of a player: the current entry exists unless the queue is empty, every
    /// generation in use was handed out, and a prepared one is not the current one.
    pub open spec fn wf(self) -> bool {
        &&& self.has_entry() || (self.queue.len() == 0 && self.index == 0)
        &&& 0 <= self.generation <= self.issued
        &&& match self.prepared {
            Some((generation, index)) => self.generation < generation <= self.issued && 0 <= index
                < self.queue.len(),
            None => true,
        }
        &&& self.volume.clamped() == self.volume
    }

    /// The counters can count on: one more input fits.
    pub open spec fn has_room(self) -> bool {
        &&& 0 <= self.seq < u64::MAX
        &&& 0 <= self.issued < u64::MAX
        &&& 0 <= self.revision < u64::MAX - 1
    }

    /// Where the listener is on the source timeline, in milliseconds.
    pub open spec fn position_ms(self, now: Instant) -> u64 {
        let raw = match self.renderer {
            Some(clock) => whole_millis(clock.at(now)),
            None => match self.state {
                PlaybackState::Playing | PlaybackState::Paused | PlaybackState::Ended =>
                    whole_millis(self.clock.at() as u128),
                PlaybackState::Idle | PlaybackState::Loading | PlaybackState::Error => 0,
            },
        };
        match self.duration_ms {
            Some(duration) => if raw <= duration {
                raw
            } else {
                duration
            },
            None => raw,
        }
    }

    /// Start the entry at `index` from `position`: a new playback, superseding the last.
    pub open spec fn started(self, index: int, position: Duration) -> Step {
        acting(
            PlayerModel {
                issued: self.issued + 1,
                generation: self.issued + 1,
                prepared: None,
                index,
                revision: self.revision + 1,
                expect: None,
                duration_ms: self.queue[index].meta.duration_ms,
                track: Some(self.queue[index]),
                error: None,
                state: PlaybackState::Loading,
                ..self
            },
            EffectView::Start {
                generation: self.issued + 1,
                track: self.queue[index],
                position,
            },
        )
    }

    /// Stop producing sound, forgetting the playback. The queue is kept.
    pub open spec fn halted(self) -> Step {
        acting(
            PlayerModel {
                issued: self.issued + 1,
                generation: self.issued + 1,
                prepared: None,
                expect: None,
                state: PlaybackState::Idle,
                track: None,
                duration_ms: None,
                error: None,
                clock: self.clock.rebased(0),
                renderer: None,
                ..self
            },
            EffectView::Halt { generation: self.issued + 1 },
        )
    }

    /// Give up what was prepared, if anything was.
    pub open spec fn unprepared(self) -> Step {
        match self.prepared {
            Some((generation, _)) => acting(
                PlayerModel { prepared: None, ..self },
                EffectView::Unprepare { next_generation: generation },
            ),
            None => quiet(self),
        }
    }

    /// The entry to play when the current one ends, if there is one.
    pub open spec fn following(self) -> Option<int> {
        if !self.has_entry() {
            None
        } else {
            match self.repeat {
                Repeat::One => Some(self.index),
                Repeat::All => Some(
                    if self.index + 1 < self.queue.len() {
                        self.index + 1
                    } else {
                        0
                    },
                ),
                Repeat::Off => if self.index + 1 < self.queue.len() {
                    Some(self.index + 1)
                } else {
                    None
                },
            }
        }
    }

    /// Whether it is time to make the following entry ready: local output, playing, nothing
    /// prepared yet, and close enough to the end of a track whose length is known.
    pub open spec fn should_prepare(self, now: Instant) -> bool {
        &&& self.renderer is None
        &&& self.state == PlaybackState::Playing
        &&& self.prepared is None
        &&& self.following() is Some
        &&& self.duration_ms is Some
        &&& self.position_ms(now) + PRELOAD_LEAD_MS >= self.duration_ms->0
    }

    /// Make the following entry ready, under a generation of its own.
    pub open spec fn preparing(self, now: Instant) -> Step {
        if self.should_prepare(now) {
            let next = self.following()->0;
            Step {
                model: PlayerModel {
                    issued: self.issued + 1,
                    prepared: Some((self.issued + 1, next)),
                    ..self
                },
                effects: seq![
                    EffectView::Prepare {
                        generation: self.generation,
                        next_generation: self.issued + 1,
                        track: self.queue[next],
                    },
                ],
                changed: false,
                refused: None,
            }
        } else {
            quiet(self)
        }
    }

    /// On a renderer, note what it should say next.
    pub open spec fn awaiting(self, expect: Expect, now: Instant) -> PlayerModel {
        if self.renderer is Some {
            PlayerModel {
                expect: Some(
                    (
                        expect,
                        Instant {
                            nanos: capped_sum(
                                now.nanos,
                                (CONFIRM_WINDOW_MS * NANOS_PER_MILLI) as u128,
                            ),
                        },
                    ),
                ),
                ..self
            }
        } else {
            self
        }
    }

    /// Restart the current entry where the listener is, after the output changed under it.
    pub open spec fn restarted_here(self, now: Instant) -> Step {
        if self.in_play() && self.has_entry() {
            self.started(
                self.index,
                Duration { nanos: (self.position_ms(now) * NANOS_PER_MILLI) as u128 },
            )
        } else {
            news(self)
        }
    }

    /// Remove the entry at `index`; removing the one in play moves on to the entry after it, or
    /// stops where there is none.
    pub open spec fn removed(self, index: int) -> Step {
        let base = self.unprepared();
        let rest = self.queue.remove(index);
        let kept = PlayerModel { queue: rest, revision: self.revision + 1, ..base.model };
        following_on(
            base.effects,
            if index < self.index {
                news(PlayerModel { index: self.index - 1, ..kept })
            } else if index > self.index {
                news(kept)
            } else if index < rest.len() {
                if self.in_play() {
                    kept.started(index, Duration { nanos: 0 })
                } else {
                    news(kept)
                }
            } else {
                let last = PlayerModel {
                    index: if rest.len() == 0 {
                        0
                    } else {
                        rest.len() - 1
                    },
                    ..kept
                };
                if self.in_play() {
                    last.halted()
                } else {
                    news(last)
                }
            },
        )
    }

    /// Where the current entry is after the entry at `from` moved to `to`.
    pub open spec fn index_after_move(self, from: int, to: int) -> int {
        if from == self.index {
            to
        } else if from < self.index && to >= self.index {
            self.index - 1
        } else if from > self.index && to <= self.index {
            self.index + 1
        } else {
            self.index
        }
    }

    /// Move the entry at `from` so it sits at `to`.
    pub open spec fn moved(self, from: int, to: int) -> Step {
        let base = self.unprepared();
        following_on(
            base.effects,
            news(
                PlayerModel {
                    queue: self.queue.remove(from).insert(to, self.queue[from]),
                    index: self.index_after_move(from, to),
                    revision: self.revision + 1,
                    ..base.model
                },
            ),
        )
    }

    /// Where tracks that play next go: right after the current entry.
    pub open spec fn next_place(self) -> int {
        if self.queue.len() == 0 {
            0
        } else {
            self.index + 1
        }
    }

    /// What a command does, before the clock is set right.
    pub open spec fn commanded(self, command: Command, now: Instant) -> Step {
        if edits_queue(command) {
            self.edited(command)
        } else {
            self.driven(command, now)
        }
    }

    /// What a command that edits the queue does.
    pub open spec fn edited(self, command: Command) -> Step {
        match command {
            Command::Load(track) => PlayerModel { queue: seq![track@], ..self }.started(
                0,
                Duration { nanos: 0 },
            ),
            Command::Enqueue(track) => {
                let longer = PlayerModel {
                    queue: self.queue.push(track@),
                    revision: self.revision + 1,
                    ..self
                };
                if self.in_play() {
                    news(longer)
                } else {
                    longer.started(self.queue.len() as int, Duration { nanos: 0 })
                }
            },
            Command::EnqueueMany(tracks) => {
                let longer = PlayerModel {
                    queue: self.queue + tracks_view(tracks@),
                    revision: self.revision + 1,
                    ..self
                };
                if tracks@.len() == 0 {
                    quiet(self)
                } else if self.in_play() {
                    news(longer)
                } else {
                    longer.started(self.queue.len() as int, Duration { nanos: 0 })
                }
            },
            Command::PlayNext(tracks) => {
                let base = self.unprepared();
                let at = self.next_place();
                if tracks@.len() == 0 {
                    quiet(self)
                } else {
                    following_on(
                        base.effects,
                        news(
                            PlayerModel {
                                queue: self.queue.take(at) + tracks_view(tracks@)
                                    + self.queue.skip(at),
                                revision: self.revision + 1,
                                ..base.model
                            },
                        ),
                    )
                }
            },
            Command::Replace { tracks, start } => if start < tracks@.len() {
                PlayerModel { queue: tracks_view(tracks@), ..self }.started(
                    start as int,
                    Duration { nanos: 0 },
                )
            } else {
                refusal(self, no_entry(start as int))
            },
            Command::Jump(index) => if index < self.queue.len() {
                self.started(index as int, Duration { nanos: 0 })
            } else {
                refusal(self, no_entry(index as int))
            },
            Command::Remove(index) => if index < self.queue.len() {
                self.removed(index as int)
            } else {
                refusal(self, no_entry(index as int))
            },
            Command::Move { from, to } => if from >= self.queue.len() || to >= self.queue.len() {
                refusal(
                    self,
                    no_entry(
                        if from >= to {
                            from as int
                        } else {
                            to as int
                        },
                    ),
                )
            } else if from == to {
                quiet(self)
            } else {
                self.moved(from as int, to as int)
            },
            Command::Shuffle { draws } => if self.index + 2 >= self.queue.len() {
                quiet(self)
            } else {
                let base = self.unprepared();
                following_on(
                    base.effects,
                    news(
                        PlayerModel {
                            queue: self.queue.take(self.index + 1) + dealt(
                                self.queue.skip(self.index + 1),
                                draws@,
                                0,
                            ),
                            revision: self.revision + 1,
                            ..base.model
                        },
                    ),
                )
            },
            Command::SetRepeat(repeat) => if repeat == self.repeat {
                quiet(self)
            } else {
                let base = self.unprepared();
                following_on(base.effects, news(PlayerModel { repeat, ..base.model }))
            },
            _ => quiet(self),
        }
    }

    /// What a command that drives the transport or the output does.
    pub open spec fn driven(self, command: Command, now: Instant) -> Step {
        match command {
            Command::Next => if self.index + 1 < self.queue.len() {
                self.started(self.index + 1, Duration { nanos: 0 })
            } else {
                refusal(self, ErrorView::NotFound("no next track"@))
            },
            Command::Previous => if self.index > 0 {
                self.started(self.index - 1, Duration { nanos: 0 })
            } else {
                refusal(self, ErrorView::NotFound("no previous track"@))
            },
            Command::Clear => PlayerModel {
                queue: Seq::empty(),
                index: 0,
                revision: self.revision + 1,
                ..self
            }.halted(),
            Command::Play => if self.state == PlaybackState::Paused {
                acting(
                    PlayerModel { state: PlaybackState::Playing, ..self }.awaiting(
                        Expect::Playing,
                        now,
                    ),
                    EffectView::Resume,
                )
            } else {
                quiet(self)
            },
            Command::Pause => if self.state == PlaybackState::Playing {
                acting(
                    PlayerModel { state: PlaybackState::Paused, ..self }.awaiting(
                        Expect::Paused,
                        now,
                    ),
                    EffectView::Pause,
                )
            } else {
                quiet(self)
            },
            Command::Stop => if self.state == PlaybackState::Idle {
                quiet(self)
            } else {
                self.halted()
            },
            Command::Seek(position) => if self.in_play() && self.has_entry() {
                self.started(self.index, position)
            } else {
                refusal(self, ErrorView::Unsupported("nothing to seek"@))
            },
            Command::SetVolume(volume) => if volume.clamped().close_to(self.volume) {
                quiet(self)
            } else {
                acting(
                    PlayerModel { volume: volume.clamped(), ..self },
                    EffectView::SetVolume(volume.clamped()),
                )
            },
            Command::SetMuted(muted) => if muted == self.muted {
                quiet(self)
            } else {
                acting(PlayerModel { muted, ..self }, EffectView::SetMuted(muted))
            },
            Command::SelectSink(id) => PlayerModel { sink: Some(id@), ..self }.restarted_here(now),
            _ => quiet(self),
        }
    }

    /// `meta` written into the entry at `index`, if there is one.
    pub open spec fn described(self, index: int, meta: MetaView) -> PlayerModel {
        if 0 <= index < self.queue.len() {
            PlayerModel {
                queue: self.queue.update(index, TrackRefView { meta, ..self.queue[index] }),
                revision: self.revision + 1,
                ..self
            }
        } else {
            self
        }
    }

    /// What a report about the current playback does, before the clock is set right.
    pub open spec fn informed(self, event: EngineEvent, now: Instant) -> Step {
        match event {
            EngineEvent::Loaded { sample_rate, duration_ms, start_ms, drive } => {
                let origin = Duration { nanos: (start_ms * NANOS_PER_MILLI) as u128 };
                news(
                    PlayerModel {
                        clock: if start_ms > 0 {
                            self.clock.rebased(sample_rate).sought(origin.nanos)
                        } else {
                            self.clock.rebased(sample_rate)
                        },
                        duration_ms: if duration_ms is Some {
                            duration_ms
                        } else {
                            self.duration_ms
                        },
                        error: None,
                        renderer: match drive {
                            PositionDrive::Frames => None,
                            PositionDrive::Renderer => Some(
                                RendererClock { origin, anchor: origin, running_since: None },
                            ),
                        },
                        // Local output is playing the moment the stream opens; a renderer has
                        // only been handed an address, and is still buffering.
                        state: match drive {
                            PositionDrive::Frames => PlaybackState::Playing,
                            PositionDrive::Renderer => PlaybackState::Loading,
                        },
                        ..self
                    },
                )
            },
            EngineEvent::Described(meta) => {
                let written = self.described(self.index, meta@);
                news(
                    PlayerModel {
                        duration_ms: if meta.duration_ms is Some {
                            meta.duration_ms
                        } else {
                            self.duration_ms
                        },
                        track: match self.track {
                            Some(track) => Some(TrackRefView { meta: meta@, ..track }),
                            None => None,
                        },
                        ..written
                    },
                )
            },
            EngineEvent::RendererState(reported) => {
                let obeyed = match self.expect {
                    Some((expect, until)) => expect.confirmed(reported) || now.nanos >= until.nanos,
                    None => true,
                };
                let state = match reported {
                    RendererState::Playing => PlaybackState::Playing,
                    RendererState::Paused => PlaybackState::Paused,
                    RendererState::Buffering => PlaybackState::Loading,
                };
                if self.renderer is None || !obeyed {
                    quiet(self)
                } else if self.state == state {
                    quiet(PlayerModel { expect: None, ..self })
                } else {
                    news(PlayerModel { expect: None, state, ..self })
                }
            },
            EngineEvent::RendererPosition(reported) => quiet(
                PlayerModel {
                    renderer: match self.renderer {
                        Some(clock) => Some(clock.reconciled(now, reported.nanos)),
                        None => None,
                    },
                    ..self
                },
            ),
            EngineEvent::Ended => if !self.in_play() {
                quiet(self)
            } else {
                match self.following() {
                    Some(next) => self.started(next, Duration { nanos: 0 }),
                    None => news(PlayerModel { state: PlaybackState::Ended, ..self }),
                }
            },
            EngineEvent::Failed(message) => news(
                PlayerModel { state: PlaybackState::Error, error: Some(message@), ..self },
            ),
            EngineEvent::Advanced { to } => match self.prepared {
                Some((generation, index)) => if generation == to {
                    news(
                        PlayerModel {
                            prepared: None,
                            generation,
                            index,
                            revision: self.revision + 1,
                            duration_ms: self.queue[index].meta.duration_ms,
                            track: Some(self.queue[index]),
                            error: None,
                            ..self
                        },
                    )
                } else {
                    quiet(PlayerModel { prepared: None, ..self })
                },
                None => quiet(self),
            },
            EngineEvent::DeviceChanged => news(
                PlayerModel { clock: self.clock.reopened(), ..self },
            ),
            EngineEvent::SinkFailed(id) => if self.sink == Some(id@) {
                PlayerModel { sink: Some(local_id()), ..self }.restarted_here(now)
            } else {
                quiet(self)
            },
        }
    }

    /// What a report tagged with `generation` does, before the clock is set right. A report
    /// about a playback already moved on from does nothing; what the source says about the
    /// prepared entry is written into it.
    pub open spec fn reported(self, generation: int, event: EngineEvent, now: Instant) -> Step {
        if event is Described && self.prepared is Some && (self.prepared->0).0 == generation {
            news(self.described((self.prepared->0).1, event->Described_0@))
        } else if generation != self.generation && !(event is SinkFailed) {
            quiet(self)
        } else {
            self.informed(event, now)
        }
    }

    /// The renderer clock runs exactly while playing.
    pub open spec fn settled(self, now: Instant) -> PlayerModel {
        PlayerModel {
            renderer: match self.renderer {
                Some(clock) => Some(
                    if self.state == PlaybackState::Playing {
                        clock.resumed(now)
                    } else {
                        clock.paused(now)
                    },
                ),
                None => None,
            },
            ..self
        }
    }
}

/// An input taken in whole: the clock is set right, and a change moves the sequence number.
pub open spec fn concluded(step: Step, now: Instant) -> Step {
    let settled = step.model.settled(now);
    Step {
        model: PlayerModel {
            seq: if step.changed {
                settled.seq + 1
            } else {
                settled.seq
            },
            ..settled
        },
        ..step
    }
}

/// The player.
pub struct Player {
    seq: u64,
    state: PlaybackState,
    track: Option<TrackRef>,
    duration_ms: Option<u64>,
    volume: Volume,
    muted: bool,
    sink: Option<SinkId>,
    error: Option<String>,
    queue: Vec<TrackRef>,
    index: usize,
    revision: u64,
    repeat: Repeat,
    generation: u64,
    issued: u64,
    prepared: Option<(u64, usize)>,
    clock: FrameClock,
    renderer: Option<RendererClock>,
    expect: Option<(Expect, Instant)>,
    told_ms: u64,
}

impl View for Player {
    type V = PlayerModel;

    closed spec fn view(&self) -> PlayerModel {
        PlayerModel {
            seq: self.seq as int,
            state: self.state,
            track: opt_track(self.track),
            duration_ms: self.duration_ms,
            volume: self.volume,
            muted: self.muted,
            sink: opt_sink(self.sink),
            error: opt_text(self.error),
            queue: tracks_view(self.queue@),
            index: self.index as int,
            revision: self.revision as int,
            repeat: self.repeat,
            generation: self.generation as int,
            issued: self.issued as int,
            prepared: match self.prepared {
                Some((generation, index)) => Some((generation as int, index as int)),
                None => None,
            },
            clock: self.clock,
            renderer: self.renderer,
            expect: self.expect,
            told_ms: self.told_ms,
        }
    }
}

/// Ask the world for one thing more.
fn ask(effects: &mut Vec<Effect>, effect: Effect)
    ensures
        effects_view(final(effects)@) == effects_view(old(effects)@).push(effect@),
{
    effects.push(effect);
    assert(effects_view(effects@) =~= effects_view(old(effects)@).push(effect@));
}

fn no_such_entry(index: usize) -> (e: Error)
    ensures
        e@ == no_entry(index as int),
{
    let counted = number(index as u64);
    let start = concat("no entry ", counted.as_str());
    Error::NotFound(concat(start.as_str(), " in the queue"))
}

/// Deal `pool` out in the order the draws pick.
fn deal(pool: Vec<TrackRef>, draws: &Vec<u64>) -> (out: Vec<TrackRef>)
    ensures
        tracks_view(out@) == dealt(tracks_view(pool@), draws@, 0),
{
    let mut pool = pool;
    let mut out: Vec<TrackRef> = Vec::new();
    let mut k: usize = 0;
    let count: usize = pool.len();
    let ghost whole = dealt(tracks_view(pool@), draws@, 0);
    assert(tracks_view(out@) + whole =~= whole);
    while pool.len() > 0
        invariant
            whole == tracks_view(out@) + dealt(tracks_view(pool@), draws@, k as int),
            k + pool@.len() == count,
        decreases pool.len(),
    {
        let drawn: u64 = if k < draws.len() {
            draws[k]
        } else {
            0
        };
        let size: u64 = pool.len() as u64;
        let pick: usize = (drawn % size) as usize;
        let ghost before = tracks_view(pool@);
        let ghost done = tracks_view(out@);
        let track = pool.remove(pick);
        assert(tracks_view(pool@) =~= before.remove(pick as int));
        assert(track@ == before[pick as int]);
        out.push(track);
        assert(tracks_view(out@) =~= done.push(track@));
        assert(done + (seq![track@] + dealt(tracks_view(pool@), draws@, k + 1)) =~= tracks_view(
            out@,
        ) + dealt(tracks_view(pool@), draws@, k + 1));
        k = k + 1;
    }
    assert(whole =~= tracks_view(out@));
    out
}

impl Player {
    /// A player with nothing to play.
    pub fn new() -> (player: Player)
        ensures
            player@.wf(),
            player@ == (PlayerModel {
                seq: 0,
                state: PlaybackState::Idle,
                track: None,
                duration_ms: None,
                volume: Volume { bits: FULL_VOLUME },
                muted: false,
                sink: None,
                error: None,
                queue: Seq::empty(),
                index: 0,
                revision: 0,
                repeat: Repeat::Off,
                generation: 0,
                issued: 0,
                prepared: None,
                clock: (FrameClock { frames: 0, epoch: 0, sample_rate: 0 }),
                renderer: None,
                expect: None,
                told_ms: 0,
            }),
    {
        let player = Player {
            seq: 0,
            state: PlaybackState::Idle,
            track: None,
            duration_ms: None,
            volume: Volume::full(),
            muted: false,
            sink: None,
            error: None,
            queue: Vec::new(),
            index: 0,
            revision: 0,
            repeat: Repeat::Off,
            generation: 0,
            issued: 0,
            prepared: None,
            clock: FrameClock::new(),
            renderer: None,
            expect: None,
            told_ms: 0,
        };
        assert(player@.queue =~= Seq::empty());
        player
    }

    fn in_play(&self) -> (r: bool)
        ensures
            r == self@.in_play(),
    {
        self.state == PlaybackState::Loading || self.state == PlaybackState::Playing || self.state
            == PlaybackState::Paused
    }

    /// Where the listener is on the source timeline, in milliseconds.
    ///
    /// A renderer clock is only ever set for a loaded stream, and keeps a truthful frozen
    /// position through buffering. It is extrapolated between reports, and nothing plays past
    /// the end of a track.
    pub fn position_ms(&self, now: Instant) -> (ms: u64)
        ensures
            ms == self@.position_ms(now),
    {
        let raw: u64 = match &self.renderer {
            Some(clock) => clock.position_ms(now),
            None => match self.state {
                PlaybackState::Playing | PlaybackState::Paused | PlaybackState::Ended =>
                    self.clock.position_ms(),
                PlaybackState::Idle | PlaybackState::Loading | PlaybackState::Error => 0,
            },
        };
        match self.duration_ms {
            Some(duration) => if raw <= duration {
                raw
            } else {
                duration
            },
            None => raw,
        }
    }

    /// Start the queue entry at `index` from `position`: a new playback, superseding the last.
    fn start(&mut self, index: usize, position: Duration, effects: &mut Vec<Effect>)
        requires
            index < old(self)@.queue.len(),
            old(self)@.issued < u64::MAX,
            old(self)@.revision < u64::MAX,
        ensures
            final(self)@ == old(self)@.started(index as int, position).model,
            effects_view(final(effects)@) == effects_view(old(effects)@) + old(self)@.started(
                index as int,
                position,
            ).effects,
    {
        self.issued = self.issued + 1;
        self.generation = self.issued;
        self.prepared = None;
        self.index = index;
        self.revision = self.revision + 1;
        let track = self.queue[index].clone();
        self.expect = None;
        self.duration_ms = track.meta.duration_ms;
        self.track = Some(track.clone());
        self.error = None;
        self.state = PlaybackState::Loading;
        ask(effects, Effect::Start { generation: self.generation, track, position });
        assert(self@ =~= old(self)@.started(index as int, position).model);
        assert(effects_view(effects@) =~= effects_view(old(effects)@) + old(self)@.started(
            index as int,
            position,
        ).effects);
    }

    /// Stop producing sound, forgetting the playback (the queue is kept).
    fn halt(&mut self, effects: &mut Vec<Effect>)
        requires
            old(self)@.issued < u64::MAX,
        ensures
            final(self)@ == old(self)@.halted().model,
            effects_view(final(effects)@) == effects_view(old(effects)@)
                + old(self)@.halted().effects,
    {
        self.issued = self.issued + 1;
        self.generation = self.issued;
        self.prepared = None;
        self.expect = None;
        self.state = PlaybackState::Idle;
        self.track = None;
        self.duration_ms = None;
        self.error = None;
        self.clock.reset(0);
        self.renderer = None;
        ask(effects, Effect::Halt { generation: self.generation });
        assert(self@ =~= old(self)@.halted().model);
        assert(effects_view(effects@) =~= effects_view(old(effects)@)
            + old(self)@.halted().effects);
    }

    /// Give up what was prepared, if anything was.
    fn unprepare(&mut self, effects: &mut Vec<Effect>)
        ensures
            final(self)@ == old(self)@.unprepared().model,
            effects_view(final(effects)@) == effects_view(old(effects)@)
                + old(self)@.unprepared().effects,
    {
        match self.prepared {
            Some((generation, _)) => {
                self.prepared = None;
                ask(effects, Effect::Unprepare { next_generation: generation });
            },
            None => {},
        }
        assert(self@ =~= old(self)@.unprepared().model);
        assert(effects_view(effects@) =~= effects_view(old(effects)@)
            + old(self)@.unprepared().effects);
    }

    /// The entry to play when the current one ends, if there is one.
    fn following(&self) -> (next: Option<usize>)
        requires
            self@.wf(),
        ensures
            match next {
                Some(i) => self@.following() == Some(i as int) && i < self@.queue.len(),
                None => self@.following() is None,
            },
    {
        if self.index >= self.queue.len() {
            return None;
        }
        match self.repeat {
            Repeat::One => Some(self.index),
            Repeat::All => if self.index + 1 < self.queue.len() {
                Some(self.index + 1)
            } else {
                Some(0)
            },
            Repeat::Off => if self.index + 1 < self.queue.len() {
                Some(self.index + 1)
            } else {
                None
            },
        }
    }

    /// Near the end of a track, get the next one ready so the output can carry straight on into
    /// it. Local output only: a network renderer is handed one track per stream.
    fn maybe_prepare(&mut self, now: Instant, effects: &mut Vec<Effect>)
        requires
            old(self)@.wf(),
            old(self)@.issued < u64::MAX,
        ensures
            final(self)@ == old(self)@.preparing(now).model,
            effects_view(final(effects)@) == effects_view(old(effects)@) + old(self)@.preparing(
                now,
            ).effects,
    {
        assert(effects_view(effects@) =~= effects_view(old(effects)@) + Seq::<EffectView>::empty());
        if self.renderer.is_some() || self.state != PlaybackState::Playing
            || self.prepared.is_some() {
            return;
        }
        let next: usize = match self.following() {
            Some(next) => next,
            None => {
                return;
            },
        };
        let duration_ms: u64 = match self.duration_ms {
            Some(duration_ms) => duration_ms,
            None => {
                return;
            },
        };
        if self.position_ms(now).saturating_add(PRELOAD_LEAD_MS) < duration_ms {
            return;
        }
        self.issued = self.issued + 1;
        self.prepared = Some((self.issued, next));
        ask(
            effects,
            Effect::Prepare {
                generation: self.generation,
                next_generation: self.issued,
                track: self.queue[next].clone(),
            },
        );
        assert(self@ =~= old(self)@.preparing(now).model);
        assert(effects_view(effects@) =~= effects_view(old(effects)@) + old(self)@.preparing(
            now,
        ).effects);
    }

    /// On a renderer a command takes a poll or so to land, and the reports in between still
    /// describe the device before it. Note what it should say next.
    fn await_renderer(&mut self, expect: Expect, now: Instant)
        ensures
            final(self)@ == old(self)@.awaiting(expect, now),
    {
        if self.renderer.is_some() {
            let until = now.after(Duration::from_millis(CONFIRM_WINDOW_MS));
            self.expect = Some((expect, until));
        }
        assert(self@ =~= old(self)@.awaiting(expect, now));
    }

    /// Restart the current entry where the listener is, after the output changed under it.
    fn restart_here(&mut self, now: Instant, effects: &mut Vec<Effect>)
        requires
            old(self)@.issued < u64::MAX,
            old(self)@.revision < u64::MAX,
        ensures
            final(self)@ == old(self)@.restarted_here(now).model,
            effects_view(final(effects)@) == effects_view(old(effects)@)
                + old(self)@.restarted_here(now).effects,
    {
        assert(effects_view(effects@) =~= effects_view(old(effects)@) + Seq::<EffectView>::empty());
        if self.in_play() && self.index < self.queue.len() {
            let position = Duration::from_millis(self.position_ms(now));
            self.start(self.index, position, effects);
        }
    }

    /// Remove the entry at `index`.
    fn remove(&mut self, index: usize, effects: &mut Vec<Effect>)
        requires
            old(self)@.wf(),
            old(self)@.has_room(),
            index < old(self)@.queue.len(),
        ensures
            final(self)@ == old(self)@.removed(index as int).model,
            effects_view(final(effects)@) == effects_view(old(effects)@) + old(self)@.removed(
                index as int,
            ).effects,
    {
        let ghost before = self@;
        let ghost asked = effects_view(effects@);
        self.unprepare(effects);
        let ghost given_up = before.unprepared().effects;
        assert(asked + given_up + Seq::<EffectView>::empty() =~= asked + given_up);
        let _gone = self.queue.remove(index);
        assert(tracks_view(self.queue@) =~= before.queue.remove(index as int));
        self.revision = self.revision + 1;
        if index < self.index {
            self.index = self.index - 1;
            assert(self@ =~= before.removed(index as int).model);
        } else if index > self.index {
            assert(self@ =~= before.removed(index as int).model);
        } else if index < self.queue.len() {
            if self.in_play() {
                let ghost kept = self@;
                self.start(index, Duration::zero(), effects);
                assert(kept =~= (PlayerModel {
                    queue: before.queue.remove(index as int),
                    revision: before.revision + 1,
                    ..before.unprepared().model
                }));
                assert(asked + given_up + kept.started(index as int, Duration { nanos: 0 }).effects
                    =~= asked + (given_up + kept.started(
                    index as int,
                    Duration { nanos: 0 },
                ).effects));
            } else {
                assert(self@ =~= before.removed(index as int).model);
            }
        } else {
            self.index = if self.queue.len() == 0 {
                0
            } else {
                self.queue.len() - 1
            };
            let ghost last = self@;
            if self.in_play() {
                self.halt(effects);
                assert(last =~= (PlayerModel {
                    index: last.index,
                    queue: before.queue.remove(index as int),
                    revision: before.revision + 1,
                    ..before.unprepared().model
                }));
                assert(asked + given_up + last.halted().effects =~= asked + (given_up
                    + last.halted().effects));
            } else {
                assert(self@ =~= before.removed(index as int).model);
            }
        }
        assert(effects_view(effects@) =~= asked + before.removed(index as int).effects);
    }

    /// Move the entry at `from` so it sits at `to`.
    fn move_entry(&mut self, from: usize, to: usize, effects: &mut Vec<Effect>)
        requires
            old(self)@.wf(),
            old(self)@.has_room(),
            from < old(self)@.queue.len(),
            to < old(self)@.queue.len(),
        ensures
            final(self)@ == old(self)@.moved(from as int, to as int).model,
            effects_view(final(effects)@) == effects_view(old(effects)@) + old(self)@.moved(
                from as int,
                to as int,
            ).effects,
    {
        let ghost before = self@;
        let ghost asked = effects_view(effects@);
        self.unprepare(effects);
        let track = self.queue.remove(from);
        assert(tracks_view(self.queue@) =~= before.queue.remove(from as int));
        self.queue.insert(to, track);
        assert(tracks_view(self.queue@) =~= before.queue.remove(from as int).insert(
            to as int,
            before.queue[from as int],
        ));
        self.revision = self.revision + 1;
        if from == self.index {
            self.index = to;
        } else if from < self.index && to >= self.index {
            self.index = self.index - 1;
        } else if from > self.index && to <= self.index {
            self.index = self.index + 1;
        }
        assert(self@ =~= before.moved(from as int, to as int).model);
        assert(effects_view(effects@) =~= asked + before.moved(from as int, to as int).effects);
    }

    /// Insert `tracks` right after the current entry.
    fn play_next(&mut self, tracks: Vec<TrackRef>, effects: &mut Vec<Effect>)
        requires
            old(self)@.wf(),
            old(self)@.has_room(),
            tracks@.len() > 0,
        ensures
            final(self)@ == old(self)@.edited(Command::PlayNext(tracks)).model,
            effects_view(final(effects)@) == effects_view(old(effects)@) + old(self)@.edited(
                Command::PlayNext(tracks),
            ).effects,
    {
        let ghost before = self@;
        let ghost given = tracks@;
        let ghost asked = effects_view(effects@);
        self.unprepare(effects);
        let at: usize = if self.queue.len() == 0 {
            0
        } else {
            self.index + 1
        };
        let mut tracks = tracks;
        let mut rest = self.queue.split_off(at);
        self.queue.append(&mut tracks);
        self.queue.append(&mut rest);
        assert(tracks_view(self.queue@) =~= before.queue.take(at as int) + tracks_view(given)
            + before.queue.skip(at as int));
        self.revision = self.revision + 1;
        assert(effects_view(effects@) =~= asked + (before.unprepared().effects
            + Seq::<EffectView>::empty()));
    }

    /// Shuffle the entries after the current one.
    fn shuffle(&mut self, draws: &Vec<u64>, effects: &mut Vec<Effect>)
        requires
            old(self)@.wf(),
            old(self)@.has_room(),
            old(self)@.index + 2 < old(self)@.queue.len(),
        ensures
            final(self)@ == old(self)@.edited(
                Command::Shuffle { draws: *draws },
            ).model,
            effects_view(final(effects)@) == effects_view(old(effects)@) + old(self)@.edited(
                Command::Shuffle { draws: *draws },
            ).effects,
    {
        let ghost before = self@;
        let ghost asked = effects_view(effects@);
        self.unprepare(effects);
        assert(self.index + 1 < self.queue.len());
        let rest = self.queue.split_off(self.index + 1);
        assert(tracks_view(rest@) =~= before.queue.skip(before.index + 1));
        let mut mixed = deal(rest, draws);
        let ghost order = tracks_view(mixed@);
        self.queue.append(&mut mixed);
        assert(tracks_view(self.queue@) =~= before.queue.take(before.index + 1) + order);
        self.revision = self.revision + 1;
        assert(effects_view(effects@) =~= asked + (before.unprepared().effects
            + Seq::<EffectView>::empty()));
    }

    #[verifier::rlimit(30)]
    #[verifier::spinoff_prover]
    fn edit_queue(&mut self, command: Command, effects: &mut Vec<Effect>) -> (outcome:
        std::result::Result<bool, Error>)
        requires
            old(self)@.wf(),
            old(self)@.has_room(),
        ensures
            final(self)@ == old(self)@.edited(command).model,
            effects_view(final(effects)@) == effects_view(old(effects)@) + old(self)@.edited(
                command,
            ).effects,
            match outcome {
                Ok(changed) => old(self)@.edited(command).refused is None && changed
                    == old(self)@.edited(command).changed,
                Err(e) => old(self)@.edited(command).refused == Some(e@),
            },
    {
        let ghost before = self@;
        let ghost asked = effects_view(effects@);
        assert(asked + Seq::<EffectView>::empty() =~= asked);
        match command {
            Command::Load(track) => {
                let mut queue: Vec<TrackRef> = Vec::new();
                queue.push(track);
                self.queue = queue;
                assert(self@ =~= (PlayerModel { queue: seq![track@], ..before }));
                self.start(0, Duration::zero(), effects);
            },
            Command::Enqueue(track) => {
                let at: usize = self.queue.len();
                self.queue.push(track);
                self.revision = self.revision + 1;
                assert(self@ =~= (PlayerModel {
                    queue: before.queue.push(track@),
                    revision: before.revision + 1,
                    ..before
                }));
                // Nothing playing: the new entry starts. Otherwise it waits its turn.
                if !self.in_play() {
                    self.start(at, Duration::zero(), effects);
                }
            },
            Command::EnqueueMany(tracks) => {
                if tracks.len() == 0 {
                    return Ok(false);
                }
                let at: usize = self.queue.len();
                let ghost given = tracks@;
                let mut tracks = tracks;
                self.queue.append(&mut tracks);
                self.revision = self.revision + 1;
                assert(tracks_view(self.queue@) =~= before.queue + tracks_view(given));
                if !self.in_play() {
                    self.start(at, Duration::zero(), effects);
                }
            },
            Command::PlayNext(tracks) => {
                if tracks.len() == 0 {
                    return Ok(false);
                }
                self.play_next(tracks, effects);
            },
            Command::Replace { tracks, start } => {
                if start >= tracks.len() {
                    return Err(no_such_entry(start));
                }
                self.queue = tracks;
                self.start(start, Duration::zero(), effects);
            },
            Command::Jump(index) => {
                if index >= self.queue.len() {
                    return Err(no_such_entry(index));
                }
                self.start(index, Duration::zero(), effects);
            },
            Command::Remove(index) => {
                if index >= self.queue.len() {
                    return Err(no_such_entry(index));
                }
                self.remove(index, effects);
            },
            Command::Move { from, to } => {
                if from >= self.queue.len() || to >= self.queue.len() {
                    return Err(
                        no_such_entry(
                            if from >= to {
                                from
                            } else {
                                to
                            },
                        ),
                    );
                }
                if from == to {
                    return Ok(false);
                }
                self.move_entry(from, to, effects);
            },
            Command::Shuffle { draws } => {
                if self.queue.len() < 3 || self.index >= self.queue.len() - 2 {
                    return Ok(false);
                }
                self.shuffle(&draws, effects);
            },
            Command::SetRepeat(repeat) => {
                if repeat == self.repeat {
                    return Ok(false);
                }
                self.unprepare(effects);
                self.repeat = repeat;
                assert(effects_view(effects@) =~= asked + (before.unprepared().effects
                    + Seq::<EffectView>::empty()));
            },
            _ => {
                return Ok(false);
            },
        }
        Ok(true)
    }

    #[verifier::rlimit(30)]
    #[verifier::spinoff_prover]
    fn drive(&mut self, command: Command, now: Instant, effects: &mut Vec<Effect>) -> (outcome:
        std::result::Result<bool, Error>)
        requires
            old(self)@.wf(),
            old(self)@.has_room(),
        ensures
            final(self)@ == old(self)@.driven(command, now).model,
            effects_view(final(effects)@) == effects_view(old(effects)@) + old(self)@.driven(
                command,
                now,
            ).effects,
            match outcome {
                Ok(changed) => old(self)@.driven(command, now).refused is None && changed
                    == old(self)@.driven(command, now).changed,
                Err(e) => old(self)@.driven(command, now).refused == Some(e@),
            },
    {
        let ghost before = self@;
        let ghost asked = effects_view(effects@);
        assert(asked + Seq::<EffectView>::empty() =~= asked);
        match command {
            Command::Next => {
                if self.queue.len() == 0 || self.index >= self.queue.len() - 1 {
                    return Err(Error::NotFound("no next track".to_owned()));
                }
                self.start(self.index + 1, Duration::zero(), effects);
            },
            Command::Previous => {
                if self.index == 0 {
                    return Err(Error::NotFound("no previous track".to_owned()));
                }
                self.start(self.index - 1, Duration::zero(), effects);
            },
            Command::Clear => {
                self.queue.clear();
                self.index = 0;
                self.revision = self.revision + 1;
                assert(self@ =~= (PlayerModel {
                    queue: Seq::empty(),
                    index: 0,
                    revision: before.revision + 1,
                    ..before
                }));
                self.halt(effects);
            },
            Command::Play => {
                if self.state != PlaybackState::Paused {
                    return Ok(false);
                }
                self.state = PlaybackState::Playing;
                self.await_renderer(Expect::Playing, now);
                ask(effects, Effect::Resume);
                assert(asked.push(EffectView::Resume) =~= asked + seq![EffectView::Resume]);
            },
            Command::Pause => {
                if self.state != PlaybackState::Playing {
                    return Ok(false);
                }
                self.state = PlaybackState::Paused;
                self.await_renderer(Expect::Paused, now);
                ask(effects, Effect::Pause);
                assert(asked.push(EffectView::Pause) =~= asked + seq![EffectView::Pause]);
            },
            Command::Stop => {
                if self.state == PlaybackState::Idle {
                    return Ok(false);
                }
                self.halt(effects);
            },
            // Seeking restarts the entry at the new position: a network renderer is handed a
            // stream that begins there, and the local path reopens its input there too.
            Command::Seek(position) => {
                if !self.in_play() || self.index >= self.queue.len() {
                    return Err(Error::Unsupported("nothing to seek".to_owned()));
                }
                self.start(self.index, position, effects);
            },
            Command::SetVolume(volume) => {
                let volume = volume.clamp();
                if volume.is_close_to(self.volume) {
                    return Ok(false);
                }
                self.volume = volume;
                ask(effects, Effect::SetVolume(volume));
                assert(asked.push(EffectView::SetVolume(volume)) =~= asked
                    + seq![EffectView::SetVolume(volume)]);
            },
            Command::SetMuted(muted) => {
                if muted == self.muted {
                    return Ok(false);
                }
                self.muted = muted;
                ask(effects, Effect::SetMuted(muted));
                assert(asked.push(EffectView::SetMuted(muted)) =~= asked
                    + seq![EffectView::SetMuted(muted)]);
            },
            // The executor has already opened the new output; what is left is to play there.
            Command::SelectSink(id) => {
                self.sink = Some(id);
                self.restart_here(now, effects);
            },
            _ => {
                return Ok(false);
            },
        }
        Ok(true)
    }

    fn handle_command(&mut self, command: Command, now: Instant, effects: &mut Vec<Effect>) -> (
        outcome: std::result::Result<bool, Error>)
        requires
            old(self)@.wf(),
            old(self)@.has_room(),
        ensures
            final(self)@ == old(self)@.commanded(command, now).model,
            effects_view(final(effects)@) == effects_view(old(effects)@) + old(self)@.commanded(
                command,
                now,
            ).effects,
            match outcome {
                Ok(changed) => old(self)@.commanded(command, now).refused is None && changed
                    == old(self)@.commanded(command, now).changed,
                Err(e) => old(self)@.commanded(command, now).refused == Some(e@),
            },
    {
        let edit: bool = match &command {
            Command::Load(_)
            | Command::Enqueue(_)
            | Command::EnqueueMany(_)
            | Command::PlayNext(_)
            | Command::Replace { .. }
            | Command::Jump(_)
            | Command::Remove(_)
            | Command::Move { .. }
            | Command::Shuffle { .. }
            | Command::SetRepeat(_) => true,
            _ => false,
        };
        if edit {
            self.edit_queue(command, effects)
        } else {
            self.drive(command, now, effects)
        }
    }

    /// Write what the source said into the entry at `index`, if there is one.
    fn describe_entry(&mut self, index: usize, meta: TrackMeta)
        requires
            old(self)@.revision < u64::MAX,
        ensures
            final(self)@ == old(self)@.described(index as int, meta@),
    {
        if index < self.queue.len() {
            let ghost before = self@;
            let ghost said = meta@;
            self.queue[index].meta = meta;
            self.revision = self.revision + 1;
            assert(tracks_view(self.queue@) =~= before.queue.update(
                index as int,
                TrackRefView { meta: said, ..before.queue[index as int] },
            ));
        }
    }

    #[verifier::rlimit(30)]
    #[verifier::spinoff_prover]
    fn handle_engine(&mut self, event: EngineEvent, now: Instant, effects: &mut Vec<Effect>) -> (
        changed: bool)
        requires
            old(self)@.wf(),
            old(self)@.has_room(),
        ensures
            final(self)@ == old(self)@.informed(event, now).model,
            effects_view(final(effects)@) == effects_view(old(effects)@) + old(self)@.informed(
                event,
                now,
            ).effects,
            changed == old(self)@.informed(event, now).changed,
    {
        let ghost before = self@;
        let ghost asked = effects_view(effects@);
        assert(asked + Seq::<EffectView>::empty() =~= asked);
        match event {
            EngineEvent::Loaded { sample_rate, duration_ms, start_ms, drive } => {
                let origin = Duration::from_millis(start_ms);
                self.clock.reset(sample_rate);
                if start_ms > 0 {
                    self.clock.seek(origin);
                }
                if duration_ms.is_some() {
                    self.duration_ms = duration_ms;
                }
                self.error = None;
                match drive {
                    PositionDrive::Frames => {
                        self.renderer = None;
                        self.state = PlaybackState::Playing;
                    },
                    PositionDrive::Renderer => {
                        self.renderer = Some(RendererClock::new(origin));
                        self.state = PlaybackState::Loading;
                    },
                }
                true
            },
            EngineEvent::Described(meta) => {
                let shown = meta.clone();
                let known = meta.duration_ms;
                self.describe_entry(self.index, meta);
                if known.is_some() {
                    self.duration_ms = known;
                }
                match self.track.take() {
                    Some(track) => {
                        self.track = Some(
                            TrackRef { id: track.id, meta: shown, sources: track.sources },
                        );
                    },
                    None => {},
                }
                true
            },
            // A renderer restates its condition on every poll, so this is only news when it
            // actually differs. A report about a renderer stream there is not describes nothing;
            // and just after a pause or play, a report saying otherwise was most likely taken
            // before the device got the command.
            EngineEvent::RendererState(reported) => {
                if self.renderer.is_none() {
                    return false;
                }
                if let Some((expect, until)) = self.expect {
                    if expect.confirmed_by(reported) || now.nanos >= until.nanos {
                        self.expect = None;
                    } else {
                        return false;
                    }
                }
                let state = match reported {
                    RendererState::Playing => PlaybackState::Playing,
                    RendererState::Paused => PlaybackState::Paused,
                    RendererState::Buffering => PlaybackState::Loading,
                };
                if self.state == state {
                    return false;
                }
                self.state = state;
                true
            },
            EngineEvent::RendererPosition(reported) => {
                if let Some(clock) = self.renderer {
                    let mut clock = clock;
                    let _outcome = clock.reconcile(reported, now);
                    self.renderer = Some(clock);
                }
                false
            },
            // The queue advances here, on the one input that says the track really finished,
            // whichever output it played on.
            EngineEvent::Ended => {
                if !self.in_play() {
                    return false;
                }
                match self.following() {
                    Some(next) => {
                        self.start(next, Duration::zero(), effects);
                    },
                    None => {
                        self.state = PlaybackState::Ended;
                    },
                }
                true
            },
            EngineEvent::Failed(message) => {
                self.state = PlaybackState::Error;
                self.error = Some(message);
                true
            },
            // Straight on into the prepared entry: a new playback, but not a restart.
            EngineEvent::Advanced { to } => {
                match self.prepared {
                    None => false,
                    Some((generation, index)) => {
                        self.prepared = None;
                        if generation != to {
                            return false;
                        }
                        self.generation = to;
                        self.index = index;
                        self.revision = self.revision + 1;
                        let track = self.queue[index].clone();
                        self.duration_ms = track.meta.duration_ms;
                        self.track = Some(track);
                        self.error = None;
                        true
                    },
                }
            },
            EngineEvent::DeviceChanged => {
                self.clock.mark_device_change();
                true
            },
            // Fail back to local, and carry on from where the listener was: playback is never
            // left wedged on an output that is gone.
            EngineEvent::SinkFailed(id) => {
                let active: bool = match &self.sink {
                    Some(sink) => sink.0 == id.0,
                    None => false,
                };
                if !active {
                    return false;
                }
                self.sink = Some(SinkInfo::local().id);
                self.restart_here(now, effects);
                true
            },
        }
    }

    /// Set the renderer clock right and count a change. The renderer clock runs exactly while
    /// playing; restoring that here, once, means no input can leave it disagreeing.
    fn conclude(&mut self, changed: bool, now: Instant)
        requires
            old(self)@.seq < u64::MAX,
        ensures
            final(self)@ == (PlayerModel {
                seq: if changed {
                    old(self)@.seq + 1
                } else {
                    old(self)@.seq
                },
                ..old(self)@.settled(now)
            }),
    {
        if let Some(clock) = self.renderer {
            let mut clock = clock;
            if self.state == PlaybackState::Playing {
                clock.resume(now);
            } else {
                clock.pause(now);
            }
            self.renderer = Some(clock);
        }
        if changed {
            self.seq = self.seq + 1;
        }
    }

    /// Take a command: the verdict on it, and what the world should now do.
    pub fn command(&mut self, command: Command, now: Instant) -> (outcome: (
        std::result::Result<(), Error>,
        Vec<Effect>,
    ))
        requires
            old(self)@.wf(),
            old(self)@.has_room(),
        ensures
            final(self)@.wf(),
            final(self)@ == concluded(old(self)@.commanded(command, now), now).model,
            effects_view(outcome.1@) == old(self)@.commanded(command, now).effects,
            match outcome.0 {
                Ok(_) => old(self)@.commanded(command, now).refused is None,
                Err(e) => old(self)@.commanded(command, now).refused == Some(e@),
            },
    {
        proof {
            a_command_keeps_the_player_well_formed(self@, command, now);
        }
        let mut effects: Vec<Effect> = Vec::new();
        let ghost wanted = self@.commanded(command, now).effects;
        assert(effects_view(effects@) + wanted =~= wanted);
        match self.handle_command(command, now, &mut effects) {
            Ok(changed) => {
                self.conclude(changed, now);
                (Ok(()), effects)
            },
            Err(e) => {
                proof {
                    a_refused_command_changes_nothing(old(self)@, command, now);
                }
                self.conclude(false, now);
                (Err(e), effects)
            },
        }
    }

    /// Take a report about the playback of `generation`: what the world should now do. Reports
    /// about a playback that is no longer current are dropped.
    pub fn engine(&mut self, generation: u64, event: EngineEvent, now: Instant) -> (effects: Vec<
        Effect,
    >)
        requires
            old(self)@.wf(),
            old(self)@.has_room(),
        ensures
            final(self)@.wf(),
            final(self)@ == concluded(
                old(self)@.reported(generation as int, event, now),
                now,
            ).model,
            effects_view(effects@) == old(self)@.reported(generation as int, event, now).effects,
    {
        proof {
            a_report_keeps_the_player_well_formed(self@, generation as int, event, now);
        }
        let mut effects: Vec<Effect> = Vec::new();
        let ghost wanted = self@.reported(generation as int, event, now).effects;
        assert(effects_view(effects@) + wanted =~= wanted);
        let about_prepared: bool = match self.prepared {
            Some((prepared, _)) => prepared == generation,
            None => false,
        };
        let about_output: bool = match &event {
            EngineEvent::SinkFailed(_) => true,
            _ => false,
        };
        let changed: bool = match event {
            EngineEvent::Described(meta) if about_prepared => {
                match self.prepared {
                    Some((_, index)) => {
                        self.describe_entry(index, meta);
                    },
                    None => {},
                }
                true
            },
            event => if generation != self.generation && !about_output {
                false
            } else {
                self.handle_engine(event, now, &mut effects)
            },
        };
        self.conclude(changed, now);
        effects
    }

    /// A network sink died. Not tied to any one playback.
    pub fn sink_failed(&mut self, id: SinkId, now: Instant) -> (effects: Vec<Effect>)
        requires
            old(self)@.wf(),
            old(self)@.has_room(),
        ensures
            final(self)@.wf(),
            final(self)@ == concluded(
                old(self)@.informed(EngineEvent::SinkFailed(id), now),
                now,
            ).model,
            effects_view(effects@) == old(self)@.informed(
                EngineEvent::SinkFailed(id),
                now,
            ).effects,
    {
        let generation: u64 = self.generation;
        self.engine(generation, EngineEvent::SinkFailed(id), now)
    }

    /// Time has passed: what the world should now do, and whether the position has moved enough
    /// to be published again.
    pub fn tick(&mut self, now: Instant) -> (outcome: (Vec<Effect>, bool))
        requires
            old(self)@.wf(),
            old(self)@.has_room(),
        ensures
            final(self)@.wf(),
            final(self)@ == old(self)@.preparing(now).model,
            effects_view(outcome.0@) == old(self)@.preparing(now).effects,
            outcome.1 == (old(self)@.state == PlaybackState::Playing && old(self)@.position_ms(now)
                != old(self)@.told_ms),
    {
        let mut effects: Vec<Effect> = Vec::new();
        let ghost wanted = self@.preparing(now).effects;
        assert(effects_view(effects@) + wanted =~= wanted);
        self.maybe_prepare(now, &mut effects);
        let moved: bool = self.state == PlaybackState::Playing && self.position_ms(now)
            != self.told_ms;
        (effects, moved)
    }

    /// The current view of playback.
    pub fn snapshot(&self, now: Instant) -> (snapshot: PlayerSnapshot)
        ensures
            snapshot.shows(self@, now),
    {
        PlayerSnapshot {
            seq: self.seq,
            state: self.state,
            track: match &self.track {
                Some(track) => Some(track.clone()),
                None => None,
            },
            position_ms: self.position_ms(now),
            duration_ms: self.duration_ms,
            rate: if self.state == PlaybackState::Playing {
                1
            } else {
                0
            },
            volume: self.volume,
            muted: self.muted,
            sink: clone_opt_sink(&self.sink),
            error: clone_opt(&self.error),
            queue: QueueView {
                len: self.queue.len(),
                index: self.index,
                revision: self.revision,
                repeat: self.repeat,
            },
        }
    }

    /// The current view of playback, to be published: its position is the one clients were last
    /// told.
    pub fn emit(&mut self, now: Instant) -> (snapshot: PlayerSnapshot)
        ensures
            snapshot.shows(old(self)@, now),
            final(self)@ == (PlayerModel { told_ms: old(self)@.position_ms(now), ..old(self)@ }),
    {
        let snapshot = self.snapshot(now);
        self.told_ms = snapshot.position_ms;
        snapshot
    }

    /// The queue's current contents.
    pub fn queue(&self) -> (queue: QueueSnapshot)
        ensures
            queue.revision == self@.revision,
            queue.index == self@.index,
            tracks_view(queue.tracks@) == self@.queue,
    {
        QueueSnapshot {
            revision: self.revision,
            index: self.index,
            tracks: clone_tracks(&self.queue),
        }
    }

    /// The current playback.
    pub fn generation(&self) -> (generation: u64)
        ensures
            generation == self@.generation,
    {
        self.generation
    }

    /// The output emitted `frames` more frames.
    pub fn advance(&mut self, frames: u64)
        ensures
            final(self)@ == (PlayerModel {
                clock: (FrameClock {
                    frames: old(self)@.clock.frames.wrapping_add(frames),
                    ..old(self)@.clock
                }),
                ..old(self)@
            }),
    {
        self.clock.advance(frames);
    }

    /// The listener has crossed into a track that was joined on at `boundary` of the clock.
    pub fn rebase(&mut self, boundary: u64)
        ensures
            final(self)@ == (PlayerModel {
                clock: old(self)@.clock.joined_at(boundary),
                ..old(self)@
            }),
    {
        self.clock.rebase(boundary);
    }

    /// The frame clock.
    pub fn clock(&self) -> (clock: FrameClock)
        ensures
            clock == self@.clock,
    {
        self.clock
    }

    /// Whether the counters can take one more input.
    pub fn can_count_on(&self) -> (r: bool)
        ensures
            r == self@.has_room(),
    {
        self.seq < u64::MAX && self.issued < u64::MAX && self.revision < u64::MAX - 1
    }
}

impl PlayerSnapshot {
    /// Whether this snapshot is what a player in the state `model` shows at `now`.
    pub open spec fn shows(self, model: PlayerModel, now: Instant) -> bool {
        &&& self.seq == model.seq
        &&& self.state == model.state
        &&& opt_track(self.track) == model.track
        &&& self.position_ms == model.position_ms(now)
        &&& self.duration_ms == model.duration_ms
        &&& self.rate == if model.state == PlaybackState::Playing {
            1int
        } else {
            0
        }
        &&& self.volume == model.volume
        &&& self.muted == model.muted
        &&& opt_sink(self.sink) == model.sink
        &&& opt_text(self.error) == model.error
        &&& self.queue.len == model.queue.len()
        &&& self.queue.index == model.index
        &&& self.queue.revision == model.revision
        &&& self.queue.repeat == model.repeat
    }

    /// The initial, nothing-loaded snapshot.
    pub fn idle() -> (snapshot: PlayerSnapshot)
        ensures
            snapshot.seq == 0,
            snapshot.state == PlaybackState::Idle,
            snapshot.track is None,
            snapshot.position_ms == 0,
            snapshot.duration_ms is None,
            snapshot.rate == 0,
            snapshot.volume.bits == FULL_VOLUME,
            !snapshot.muted,
            snapshot.sink is None,
            snapshot.error is None,
            snapshot.queue == (QueueView { len: 0, index: 0, revision: 0, repeat: Repeat::Off }),
    {
        PlayerSnapshot {
            seq: 0,
            state: PlaybackState::Idle,
            track: None,
            position_ms: 0,
            duration_ms: None,
            rate: 0,
            volume: Volume::full(),
            muted: false,
            sink: None,
            error: None,
            queue: QueueView { len: 0, index: 0, revision: 0, repeat: Repeat::Off },
        }
    }
}

impl QueueSnapshot {
    /// The contents of a queue with nothing in it.
    pub fn empty() -> (queue: QueueSnapshot)
        ensures
            queue.revision == 0,
            queue.index == 0,
            queue.tracks@.len() == 0,
    {
        QueueSnapshot { revision: 0, index: 0, tracks: Vec::new() }
    }
}

/// Every command leaves the player well formed.
pub proof fn a_command_keeps_the_player_well_formed(
    model: PlayerModel,
    command: Command,
    now: Instant,
)
    requires
        model.wf(),
    ensures
        concluded(model.commanded(command, now), now).model.wf(),
{
}

/// A refused command changes nothing and asks the world for nothing.
pub proof fn a_refused_command_changes_nothing(model: PlayerModel, command: Command, now: Instant)
    requires
        model.commanded(command, now).refused is Some,
    ensures
        model.commanded(command, now).model == model,
        model.commanded(command, now).effects.len() == 0,
        !model.commanded(command, now).changed,
{
}

/// Every report leaves the player well formed.
pub proof fn a_report_keeps_the_player_well_formed(
    model: PlayerModel,
    generation: int,
    event: EngineEvent,
    now: Instant,
)
    requires
        model.wf(),
    ensures
        concluded(model.reported(generation, event, now), now).model.wf(),
{
}

/// The passing of time leaves the player well formed.
pub proof fn a_tick_keeps_the_player_well_formed(model: PlayerModel, now: Instant)
    requires
        model.wf(),
    ensures
        model.preparing(now).model.wf(),
{
}

/// Whatever the input, the renderer clock then runs exactly while playing.
pub proof fn the_renderer_clock_runs_exactly_while_playing(step: Step, now: Instant)
    requires
        step.model.renderer is Some,
    ensures
        concluded(step, now).model.renderer is Some,
        (concluded(step, now).model.renderer->0).running_since is Some <==> concluded(
            step,
            now,
        ).model.state == PlaybackState::Playing,
{
}

impl PlayerModel {
    /// The renderer clock runs exactly while playing.
    pub open spec fn steady(self) -> bool {
        match self.renderer {
            Some(clock) => clock.running_since is Some <==> self.state == PlaybackState::Playing,
            None => true,
        }
    }
}

/// A report about a playback already moved on from (a track skipped, sought or stopped) changes
/// nothing at all. What the source says about the prepared entry, and a dead sink, are not such
/// reports.
pub proof fn a_stale_report_changes_nothing(
    model: PlayerModel,
    generation: int,
    event: EngineEvent,
    now: Instant,
)
    requires
        model.steady(),
        generation != model.generation,
        !(event is SinkFailed),
        event is Described ==> (model.prepared is None || (model.prepared->0).0 != generation),
    ensures
        concluded(model.reported(generation, event, now), now) == quiet(model),
{
    assert(concluded(model.reported(generation, event, now), now).model =~= model);
}

/// An input that is not a transition changes nothing a client sees, but for the position.
pub open spec fn looks_the_same(a: PlayerModel, b: PlayerModel) -> bool {
    &&& a.seq == b.seq
    &&& a.state == b.state
    &&& a.track == b.track
    &&& a.duration_ms == b.duration_ms
    &&& a.volume == b.volume
    &&& a.muted == b.muted
    &&& a.sink == b.sink
    &&& a.error == b.error
    &&& a.queue == b.queue
    &&& a.index == b.index
    &&& a.revision == b.revision
    &&& a.repeat == b.repeat
    &&& a.generation == b.generation
}

/// A command moves the sequence number exactly when it is a transition, and one that is not a
/// transition changes nothing a client sees and asks the world for nothing.
pub proof fn a_command_that_changes_nothing_is_not_a_transition(
    model: PlayerModel,
    command: Command,
    now: Instant,
)
    ensures
        ({
            let step = concluded(model.commanded(command, now), now);
            &&& step.changed ==> step.model.seq == model.seq + 1
            &&& !step.changed ==> looks_the_same(step.model, model) && step.effects.len() == 0
        }),
{
}

/// A report moves the sequence number exactly when it is a transition, and one that is not a
/// transition changes nothing a client sees and asks the world for nothing.
pub proof fn a_report_that_changes_nothing_is_not_a_transition(
    model: PlayerModel,
    generation: int,
    event: EngineEvent,
    now: Instant,
)
    ensures
        ({
            let step = concluded(model.reported(generation, event, now), now);
            &&& step.changed ==> step.model.seq == model.seq + 1
            &&& !step.changed ==> looks_the_same(step.model, model) && step.effects.len() == 0
        }),
{
}

/// The revision tells a client when to fetch the queue again: it never goes back, and it moves
/// whenever the queue's contents or position do.
pub open spec fn revision_tells(before: PlayerModel, after: PlayerModel) -> bool {
    &&& before.revision <= after.revision
    &&& before.queue != after.queue || before.index != after.index ==> before.revision
        < after.revision
}

/// Whatever is commanded, the revision tells whether the queue changed.
pub proof fn a_command_that_moves_the_queue_moves_the_revision(
    model: PlayerModel,
    command: Command,
    now: Instant,
)
    ensures
        revision_tells(model, concluded(model.commanded(command, now), now).model),
{
}

/// Whatever is reported, the revision tells whether the queue changed.
pub proof fn a_report_that_moves_the_queue_moves_the_revision(
    model: PlayerModel,
    generation: int,
    event: EngineEvent,
    now: Instant,
)
    ensures
        revision_tells(model, concluded(model.reported(generation, event, now), now).model),
{
}

/// The generation an effect hands out, if it hands one out.
pub open spec fn hands_out(effect: EffectView) -> Option<int> {
    match effect {
        EffectView::Start { generation, .. } => Some(generation),
        EffectView::Halt { generation } => Some(generation),
        EffectView::Prepare { next_generation, .. } => Some(next_generation),
        _ => None,
    }
}

/// Every generation handed out by `effects` is newer than `before` and no newer than `after`,
/// and at most one is handed out.
pub open spec fn fresh(effects: Seq<EffectView>, before: int, after: int) -> bool {
    &&& before <= after <= before + 1
    &&& forall|i: int|
        0 <= i < effects.len() ==> match hands_out(#[trigger] effects[i]) {
            Some(generation) => before < generation <= after,
            None => true,
        }
    &&& forall|i: int, j: int|
        0 <= i < j < effects.len() ==> hands_out(#[trigger] effects[i]) is None || hands_out(
            #[trigger] effects[j],
        ) is None
}

/// No two playbacks ever share a generation, even one prepared and then abandoned: every
/// generation a command hands out is newer than all before it.
pub proof fn a_command_hands_out_fresh_generations(
    model: PlayerModel,
    command: Command,
    now: Instant,
)
    ensures
        fresh(
            model.commanded(command, now).effects,
            model.issued,
            model.commanded(command, now).model.issued,
        ),
{
}

/// Every generation a report hands out is newer than all before it.
pub proof fn a_report_hands_out_fresh_generations(
    model: PlayerModel,
    generation: int,
    event: EngineEvent,
    now: Instant,
)
    ensures
        fresh(
            model.reported(generation, event, now).effects,
            model.issued,
            model.reported(generation, event, now).model.issued,
        ),
{
}

/// Every generation the passing of time hands out is newer than all before it.
pub proof fn a_tick_hands_out_fresh_generations(model: PlayerModel, now: Instant)
    ensures
        fresh(model.preparing(now).effects, model.issued, model.preparing(now).model.issued),
{
}

/// Something that reaches the player.
pub enum Input {
    Command(Command),
    /// A report tagged with the generation it is about.
    Report { generation: int, event: EngineEvent },
    /// Time has passed.
    Tick,
    /// The position was published.
    Published,
    /// The output emitted so many more frames.
    Frames(u64),
    /// The listener crossed into a track that was joined on at this place of the clock.
    Joined(u64),
}

impl PlayerModel {
    /// What an input does, taken in whole.
    #[verifier::opaque]
    pub open spec fn given(self, input: Input, now: Instant) -> Step {
        match input {
            Input::Command(command) => concluded(self.commanded(command, now), now),
            Input::Report { generation, event } => concluded(
                self.reported(generation, event, now),
                now,
            ),
            Input::Tick => self.preparing(now),
            Input::Published => quiet(PlayerModel { told_ms: self.position_ms(now), ..self }),
            Input::Frames(frames) => quiet(
                PlayerModel {
                    clock: FrameClock {
                        frames: self.clock.frames.wrapping_add(frames),
                        ..self.clock
                    },
                    ..self
                },
            ),
            Input::Joined(boundary) => quiet(
                PlayerModel { clock: self.clock.joined_at(boundary), ..self },
            ),
        }
    }

    /// The player after `inputs`, in order.
    pub open spec fn after(self, inputs: Seq<(Input, Instant)>) -> PlayerModel
        decreases inputs.len(),
    {
        if inputs.len() == 0 {
            self
        } else {
            self.after(inputs.drop_last()).given(inputs.last().0, inputs.last().1).model
        }
    }

    /// Everything the world is asked for by `inputs`, in order.
    pub open spec fn asked(self, inputs: Seq<(Input, Instant)>) -> Seq<EffectView>
        decreases inputs.len(),
    {
        if inputs.len() == 0 {
            Seq::empty()
        } else {
            self.asked(inputs.drop_last()) + self.after(inputs.drop_last()).given(
                inputs.last().0,
                inputs.last().1,
            ).effects
        }
    }
}

/// Every generation an input hands out is newer than all before it.
proof fn an_input_hands_out_fresh_generations(model: PlayerModel, input: Input, now: Instant)
    ensures
        fresh(
            model.given(input, now).effects,
            model.issued,
            model.given(input, now).model.issued,
        ),
{
    reveal(PlayerModel::given);
    match input {
        Input::Command(command) => {
            a_command_hands_out_fresh_generations(model, command, now);
        },
        Input::Report { generation, event } => {
            a_report_hands_out_fresh_generations(model, generation, event, now);
        },
        Input::Tick => {
            a_tick_hands_out_fresh_generations(model, now);
        },
        _ => {},
    }
}

/// The generations handed out by `effects` are newer than `before`, no newer than `after`, and each
/// newer than the ones handed out before it.
pub open spec fn rising(effects: Seq<EffectView>, before: int, after: int) -> bool {
    &&& before <= after
    &&& forall|i: int|
        0 <= i < effects.len() ==> match hands_out(#[trigger] effects[i]) {
            Some(generation) => before < generation <= after,
            None => true,
        }
    &&& forall|i: int, j: int|
        0 <= i < j < effects.len() ==> match (
            hands_out(#[trigger] effects[i]),
            hands_out(#[trigger] effects[j]),
        ) {
            (Some(earlier), Some(later)) => earlier < later,
            _ => true,
        }
}

/// What is handed out afresh goes on rising.
proof fn fresh_generations_go_on_rising(
    earlier: Seq<EffectView>,
    more: Seq<EffectView>,
    start: int,
    middle: int,
    end: int,
)
    requires
        rising(earlier, start, middle),
        fresh(more, middle, end),
    ensures
        rising(earlier + more, start, end),
{
    let all = earlier + more;
    assert forall|i: int| 0 <= i < all.len() implies match hands_out(#[trigger] all[i]) {
        Some(generation) => start < generation <= end,
        None => true,
    } by {
        if i < earlier.len() {
            assert(all[i] == earlier[i]);
        } else {
            assert(all[i] == more[i - earlier.len()]);
        }
    }
    assert forall|i: int, j: int| 0 <= i < j < all.len() implies match (
        hands_out(#[trigger] all[i]),
        hands_out(#[trigger] all[j]),
    ) {
        (Some(first), Some(second)) => first < second,
        _ => true,
    } by {
        if j < earlier.len() {
            assert(all[i] == earlier[i] && all[j] == earlier[j]);
        } else if i < earlier.len() {
            assert(all[i] == earlier[i] && all[j] == more[j - earlier.len()]);
        } else {
            assert(all[i] == more[i - earlier.len()] && all[j] == more[j - earlier.len()]);
        }
    }
}

/// Over any history, no two playbacks share a generation, even one prepared and then abandoned:
/// each generation handed out (to a start, a halt or a preparation) is newer than every one handed
/// out before it.
pub proof fn no_generation_is_handed_out_twice(model: PlayerModel, inputs: Seq<(Input, Instant)>)
    ensures
        rising(model.asked(inputs), model.issued, model.after(inputs).issued),
    decreases inputs.len(),
{
    if inputs.len() > 0 {
        let sooner = inputs.drop_last();
        let (input, now) = inputs.last();
        let before = model.after(sooner);
        no_generation_is_handed_out_twice(model, sooner);
        an_input_hands_out_fresh_generations(before, input, now);
        fresh_generations_go_on_rising(
            model.asked(sooner),
            before.given(input, now).effects,
            model.issued,
            before.issued,
            model.after(inputs).issued,
        );
    }
}

/// Whatever `step` starts is the current playback from then on, newer than every one up to
/// `issued`, and nothing stays prepared.
pub open spec fn supersedes(step: Step, issued: int) -> bool {
    forall|i: int|
        0 <= i < step.effects.len() ==> match #[trigger] step.effects[i] {
            EffectView::Start { generation, .. } => {
                &&& step.model.prepared is None
                &&& step.model.generation == generation
                &&& issued < generation
            },
            _ => true,
        }
}

proof fn an_edit_that_starts_supersedes(model: PlayerModel, command: Command)
    ensures
        supersedes(model.edited(command), model.issued),
{
}

proof fn a_drive_that_starts_supersedes(model: PlayerModel, command: Command, now: Instant)
    ensures
        supersedes(model.driven(command, now), model.issued),
{
}

proof fn a_report_that_starts_supersedes(
    model: PlayerModel,
    generation: int,
    event: EngineEvent,
    now: Instant,
)
    ensures
        supersedes(model.reported(generation, event, now), model.issued),
{
}

/// A start supersedes everything: whatever leads to it, the playback it starts is the current one
/// from then on, newer than all before it, and nothing stays prepared.
pub proof fn a_start_leaves_nothing_prepared(model: PlayerModel, input: Input, now: Instant)
    ensures
        supersedes(model.given(input, now), model.issued),
{
    reveal(PlayerModel::given);
    match input {
        Input::Command(command) => {
            an_edit_that_starts_supersedes(model, command);
            a_drive_that_starts_supersedes(model, command, now);
            assert(model.given(input, now).effects == model.commanded(command, now).effects);
        },
        Input::Report { generation, event } => {
            a_report_that_starts_supersedes(model, generation, event, now);
            assert(model.given(input, now).effects == model.reported(
                generation,
                event,
                now,
            ).effects);
        },
        _ => {},
    }
}

/// The following entry is made ready exactly when it is time to, once: with something made ready
/// there is nothing more to do at any later time, and asking again at once does nothing either
/// way.
pub proof fn preparing_again_sends_nothing(model: PlayerModel, now: Instant, later: Instant)
    ensures
        model.should_prepare(now) ==> model.preparing(now).effects == seq![
            EffectView::Prepare {
                generation: model.generation,
                next_generation: model.issued + 1,
                track: model.queue[model.following()->0],
            },
        ],
        !model.should_prepare(now) ==> model.preparing(now) == quiet(model),
        model.preparing(now).model.preparing(now) == quiet(model.preparing(now).model),
        model.should_prepare(now) ==> model.preparing(now).model.preparing(later) == quiet(
            model.preparing(now).model,
        ),
{
}

/// Whatever happens, a well-formed player stays well formed, and its renderer clock runs exactly
/// while it plays.
pub proof fn any_history_keeps_the_player_well_formed(
    model: PlayerModel,
    inputs: Seq<(Input, Instant)>,
)
    requires
        model.wf(),
        model.steady(),
    ensures
        model.after(inputs).wf(),
        model.after(inputs).steady(),
    decreases inputs.len(),
{
    if inputs.len() > 0 {
        let (input, now) = inputs.last();
        any_history_keeps_the_player_well_formed(model, inputs.drop_last());
        an_input_keeps_the_player_well_formed(model.after(inputs.drop_last()), input, now);
    }
}

/// An input leaves the player well formed, and its renderer clock running exactly while it plays.
proof fn an_input_keeps_the_player_well_formed(model: PlayerModel, input: Input, now: Instant)
    requires
        model.wf(),
        model.steady(),
    ensures
        model.given(input, now).model.wf(),
        model.given(input, now).model.steady(),
{
    reveal(PlayerModel::given);
    match input {
        Input::Command(command) => {
            a_command_keeps_the_player_well_formed(model, command, now);
        },
        Input::Report { generation, event } => {
            a_report_keeps_the_player_well_formed(model, generation, event, now);
        },
        Input::Tick => {
            a_tick_keeps_the_player_well_formed(model, now);
        },
        _ => {},
    }
}

/// A track that ends is counted once: the report that ended it no longer belongs to the current
/// playback once the queue has moved on, so the same report again changes nothing.
pub proof fn an_end_is_counted_once(model: PlayerModel, now: Instant, later: Instant)
    requires
        model.wf(),
        model.in_play(),
        model.following() is Some,
    ensures
        ({
            let moved = concluded(
                model.reported(model.generation, EngineEvent::Ended, now),
                now,
            ).model;
            &&& moved.index == model.following()->0
            &&& concluded(moved.reported(model.generation, EngineEvent::Ended, later), later)
                == quiet(moved)
        }),
{
    let moved = concluded(model.reported(model.generation, EngineEvent::Ended, now), now).model;
    a_stale_report_changes_nothing(moved, model.generation, EngineEvent::Ended, later);
}

/// Nothing plays past the end of a track whose length is known.
pub proof fn position_never_runs_past_the_end(model: PlayerModel, now: Instant)
    requires
        model.duration_ms is Some,
    ensures
        model.position_ms(now) <= model.duration_ms->0,
{
}

/// Stopping keeps the queue and the place in it.
pub proof fn stopping_keeps_the_queue(model: PlayerModel, now: Instant)
    ensures
        ({
            let stopped = concluded(model.commanded(Command::Stop, now), now).model;
            &&& stopped.state == PlaybackState::Idle
            &&& stopped.queue == model.queue
            &&& stopped.index == model.index
            &&& stopped.revision == model.revision
        }),
{
}

/// Folding a renderer's position in is never a transition.
pub proof fn reconciling_position_is_not_a_transition(
    model: PlayerModel,
    generation: int,
    reported: Duration,
    now: Instant,
)
    ensures
        !model.reported(generation, EngineEvent::RendererPosition(reported), now).changed,
        looks_the_same(
            concluded(
                model.reported(generation, EngineEvent::RendererPosition(reported), now),
                now,
            ).model,
            model,
        ),
{
}

/// A report older than a pause or a play does not undo it: within the window a contradicting
/// report changes nothing.
pub proof fn a_report_within_the_window_does_not_undo_a_command(
    model: PlayerModel,
    reported: RendererState,
    now: Instant,
)
    requires
        model.steady(),
        model.expect is Some,
        !(model.expect->0).0.confirmed(reported),
        now.nanos < (model.expect->0).1.nanos,
    ensures
        concluded(
            model.reported(model.generation, EngineEvent::RendererState(reported), now),
            now,
        ) == quiet(model),
{
    assert(concluded(
        model.reported(model.generation, EngineEvent::RendererState(reported), now),
        now,
    ).model =~= model);
}

/// Once the window has passed, the device is believed whatever was expected of it.
pub proof fn a_device_is_believed_after_the_window(
    model: PlayerModel,
    reported: RendererState,
    now: Instant,
)
    requires
        model.renderer is Some,
        model.expect is Some,
        now.nanos >= (model.expect->0).1.nanos,
    ensures
        concluded(
            model.reported(model.generation, EngineEvent::RendererState(reported), now),
            now,
        ).model.state == match reported {
            RendererState::Playing => PlaybackState::Playing,
            RendererState::Paused => PlaybackState::Paused,
            RendererState::Buffering => PlaybackState::Loading,
        },
{
}

/// A pause on a renderer holds against the device saying it still plays, for as long as such a
/// report can be older than the pause: until then it is not a transition, and from then on it is
/// believed. A device that has confirmed the pause is believed at once.
pub proof fn a_pause_on_a_renderer_holds_for_the_window(
    model: PlayerModel,
    paused_at: Instant,
    confirmed_at: Instant,
    now: Instant,
)
    requires
        model.renderer is Some,
        model.state == PlaybackState::Playing,
    ensures
        ({
            let until = capped_sum(
                paused_at.nanos,
                (CONFIRM_WINDOW_MS * NANOS_PER_MILLI) as u128,
            );
            let plays = EngineEvent::RendererState(RendererState::Playing);
            let rests = EngineEvent::RendererState(RendererState::Paused);
            let paused = concluded(model.commanded(Command::Pause, paused_at), paused_at).model;
            let told = concluded(paused.reported(paused.generation, plays, now), now);
            let sure = concluded(
                paused.reported(paused.generation, rests, confirmed_at),
                confirmed_at,
            ).model;
            let told_again = concluded(sure.reported(sure.generation, plays, now), now);
            &&& paused.state == PlaybackState::Paused
            &&& now.nanos < until ==> told == quiet(paused)
            &&& now.nanos >= until ==> told.changed && told.model.state == PlaybackState::Playing
            &&& sure.state == PlaybackState::Paused && sure.expect is None
            &&& told_again.changed && told_again.model.state == PlaybackState::Playing
        }),
{
    let until = capped_sum(paused_at.nanos, (CONFIRM_WINDOW_MS * NANOS_PER_MILLI) as u128);
    let paused = concluded(model.commanded(Command::Pause, paused_at), paused_at).model;
    assert(paused.steady());
    assert(paused.expect == Some((Expect::Paused, Instant { nanos: until })));
    if now.nanos < until {
        a_report_within_the_window_does_not_undo_a_command(paused, RendererState::Playing, now);
    }
}

/// What a renderer says with no renderer stream loaded (after a stop, or on local output) changes
/// nothing.
pub proof fn a_renderer_report_without_a_stream_is_not_news(
    model: PlayerModel,
    generation: int,
    reported: RendererState,
    position: Duration,
    now: Instant,
)
    requires
        model.renderer is None,
    ensures
        concluded(
            model.reported(generation, EngineEvent::RendererState(reported), now),
            now,
        ) == quiet(model),
        concluded(
            model.reported(generation, EngineEvent::RendererPosition(position), now),
            now,
        ) == quiet(model),
{
    assert(concluded(
        model.reported(generation, EngineEvent::RendererState(reported), now),
        now,
    ).model =~= model);
    assert(concluded(
        model.reported(generation, EngineEvent::RendererPosition(position), now),
        now,
    ).model =~= model);
}

/// A reopened local output moves neither the position nor the playback.
pub proof fn a_device_change_is_not_a_restart(model: PlayerModel, now: Instant)
    ensures
        ({
            let step = concluded(
                model.reported(model.generation, EngineEvent::DeviceChanged, now),
                now,
            );
            &&& step.effects.len() == 0
            &&& step.model.generation == model.generation
            &&& step.model.renderer is None ==> step.model.position_ms(now) == model.position_ms(
                now,
            )
        }),
{
}

/// When the active sink dies, playback resumes on local output from where the listener was.
pub proof fn a_dead_sink_falls_back_to_local(
    model: PlayerModel,
    generation: int,
    id: SinkId,
    now: Instant,
)
    requires
        model.wf(),
        model.sink == Some(id@),
        model.in_play(),
        model.has_entry(),
    ensures
        ({
            let step = concluded(
                model.reported(generation, EngineEvent::SinkFailed(id), now),
                now,
            );
            &&& step.model.sink == Some(local_id())
            &&& step.effects == seq![
                EffectView::Start {
                    generation: model.issued + 1,
                    track: model.queue[model.index],
                    position: Duration {
                        nanos: (model.position_ms(now) * NANOS_PER_MILLI) as u128,
                    },
                },
            ]
        }),
{
}

/// Crossing into the prepared entry moves the queue on without a restart: nothing is asked of
/// the world, and the state is kept.
pub proof fn crossing_into_the_prepared_entry_is_not_a_restart(model: PlayerModel, now: Instant)
    requires
        model.wf(),
        model.prepared is Some,
        (model.prepared->0).0 <= u64::MAX,
    ensures
        ({
            let (next, index) = model.prepared->0;
            let step = concluded(
                model.reported(
                    model.generation,
                    EngineEvent::Advanced { to: next as u64 },
                    now,
                ),
                now,
            );
            &&& step.effects.len() == 0
            &&& step.model.state == model.state
            &&& step.model.generation == next
            &&& step.model.index == index
            &&& step.model.track == Some(model.queue[index])
            &&& step.model.prepared is None
        }),
{
}

/// Dealing a pool out uses every entry exactly once.
pub proof fn dealing_is_a_permutation<T>(pool: Seq<T>, draws: Seq<u64>, k: int)
    ensures
        dealt(pool, draws, k).len() == pool.len(),
        dealt(pool, draws, k).to_multiset() == pool.to_multiset(),
    decreases pool.len(),
{
    broadcast use vstd::seq_lib::group_to_multiset_ensures;

    if pool.len() > 0 {
        let pick = draw(draws, k) % (pool.len() as int);
        let rest = pool.remove(pick);
        dealing_is_a_permutation(rest, draws, k + 1);
        let out = dealt(rest, draws, k + 1);
        vstd::seq_lib::lemma_multiset_commutative(seq![pool[pick]], out);
        assert(seq![pool[pick]].to_multiset() =~= vstd::multiset::Multiset::singleton(pool[pick]))
            by {
            assert(seq![pool[pick]] =~= Seq::<T>::empty().push(pool[pick]));
        }
        assert(pool.to_multiset() =~= rest.to_multiset().insert(pool[pick])) by {
            assert(pool.contains(pool[pick]));
        }
        assert(dealt(pool, draws, k) =~= seq![pool[pick]] + out);
        assert(dealt(pool, draws, k).to_multiset() =~= pool.to_multiset());
    } else {
        assert(dealt(pool, draws, k) =~= pool);
    }
}

/// A shuffle keeps the entries up to the current one where they are, and plays each of the rest
/// once, in some order.
pub proof fn a_shuffle_reorders_what_is_next(model: PlayerModel, draws: Vec<u64>, now: Instant)
    requires
        model.wf(),
        model.index + 2 < model.queue.len(),
    ensures
        ({
            let queue = model.commanded(Command::Shuffle { draws }, now).model.queue;
            &&& queue.len() == model.queue.len()
            &&& queue.take(model.index + 1) == model.queue.take(model.index + 1)
            &&& queue.skip(model.index + 1).to_multiset() == model.queue.skip(
                model.index + 1,
            ).to_multiset()
        }),
{
    let rest = model.queue.skip(model.index + 1);
    dealing_is_a_permutation(rest, draws@, 0);
    let queue = model.commanded(Command::Shuffle { draws }, now).model.queue;
    assert(queue.take(model.index + 1) =~= model.queue.take(model.index + 1));
    assert(queue.skip(model.index + 1) =~= dealt(rest, draws@, 0));
}

/// Editing the queue around the entry in play leaves it in play: the place in the queue follows
/// it, the playback goes on, and nothing is restarted.
pub proof fn editing_around_the_current_entry_keeps_it(
    model: PlayerModel,
    command: Command,
    now: Instant,
)
    requires
        model.wf(),
        model.in_play(),
        model.has_entry(),
        command is Enqueue || command is EnqueueMany || command is PlayNext || command is Move
            || command is Shuffle || (command is Remove && command->Remove_0 != model.index),
    ensures
        ({
            let after = model.commanded(command, now).model;
            &&& after.has_entry()
            &&& after.queue[after.index] == model.queue[model.index]
            &&& after.generation == model.generation
            &&& after.state == model.state
        }),
{
    if command is Shuffle && model.index + 2 < model.queue.len() {
        a_shuffle_reorders_what_is_next(model, command->draws, now);
        let queue = model.commanded(command, now).model.queue;
        assert(queue.take(model.index + 1)[model.index] == model.queue.take(
            model.index + 1,
        )[model.index]);
    }
}

/// Removing the entry in play moves on to the entry after it.
pub proof fn removing_the_entry_in_play_moves_on(model: PlayerModel, index: usize, now: Instant)
    requires
        model.wf(),
        model.in_play(),
        index == model.index,
        model.index + 1 < model.queue.len(),
    ensures
        ({
            let after = model.commanded(Command::Remove(index), now).model;
            &&& after.track == Some(model.queue[model.index + 1])
            &&& after.state == PlaybackState::Loading
            &&& after.generation > model.generation
        }),
{
}

} // verus!
