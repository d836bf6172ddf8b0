//! The playback controller: turning the player's decisions into actual sound.
//!
//! The player owns every decision and emits each one as an [`Effect`]. What is decided here is what
//! carrying it out takes on whatever is producing sound right now: the local engine, a network
//! session, or both; which playback a renderer's report is about; and when a session is gone.

use vstd::prelude::*;
use vstd::string::*;

use crate::command::Volume;
use crate::error::{Error, ErrorView, Result};
use crate::player::{Effect, EngineEvent};
use crate::rows::{first_at, found_first, found_none};
use crate::settings::OutputMode;
use crate::sink::{local_id, RendererState, SinkId, SinkInfo};
use crate::text::{concat, quoted, quoted_text, same};
use crate::time::Duration;
use crate::track::{TrackRef, TrackRefView};

verus! {

/// A load a renderer was given: what its reports name.
#[derive(Debug, Clone, Copy, PartialEq, Eq, Structural)]
pub struct LoadId(pub u64);

/// What a renderer says about a load.
#[derive(Debug, PartialEq, Eq)]
pub enum RendererEvent {
    State(RendererState),
    /// Where it is on the stream it was handed.
    Position(Duration),
    /// The stream played out.
    Ended,
    /// Something else took the renderer over.
    Superseded(String),
    Failed(String),
}

/// A renderer's report, and the load it is about.
#[derive(Debug, PartialEq, Eq)]
pub struct RendererReport {
    pub load: LoadId,
    pub event: RendererEvent,
}

/// How often the stream watchdog checks whether a renderer is still pulling, in milliseconds.
pub const CONSUMER_POLL_MS: u64 = 1_000;

/// How long the stream may go unconsumed before the session is taken to be gone, in milliseconds.
/// Generous enough to cover a renderer's first fetch and a brief reconnect, short enough that a
/// takeover surfaces promptly.
pub const CONSUMER_GRACE_MS: u64 = 10_000;

/// How many times to try opening a renderer session.
pub const CONNECT_ATTEMPTS: u32 = 3;

/// A live network output.
#[derive(Debug, PartialEq, Eq)]
pub struct Session {
    /// Which session this is. What watches a session carries this rather than the sink's id, so
    /// re-selecting the *same* speaker can't let the old session's late teardown be mistaken for
    /// the new one failing.
    pub epoch: u64,
    /// The speaker's address: what identifies it across protocols.
    pub host: String,
    /// The output this session drives, as settings name it.
    pub output: SinkId,
    /// Whether the current stream joins following tracks on to itself.
    pub joins: bool,
    /// The load the renderer is playing for us, and the playback it was issued for. `None` before
    /// the first load and after a halt: then nothing the renderer says about its media is about
    /// ours.
    pub current: Option<(LoadId, u64)>,
}

/// What a [`Session`] says.
#[verifier::ext_equal]
pub struct SessionModel {
    pub epoch: u64,
    pub host: Seq<char>,
    pub output: Seq<char>,
    pub joins: bool,
    pub current: Option<(LoadId, u64)>,
}

impl View for Session {
    type V = SessionModel;

    open spec fn view(&self) -> SessionModel {
        SessionModel {
            epoch: self.epoch,
            host: self.host@,
            output: self.output@,
            joins: self.joins,
            current: self.current,
        }
    }
}

/// What is producing sound right now.
#[derive(Debug, PartialEq, Eq)]
pub struct PlaybackController {
    /// The generation of the newest start or halt. A start whose stream resolves after a newer
    /// one arrived is discarded instead of installed.
    pub latest: u64,
    /// Whether an engine is running.
    pub audio: bool,
    /// The selected output: `None` is local. One output is active at a time.
    pub network: Option<Session>,
    /// The last epoch handed out.
    pub sessions: u64,
}

/// What a [`PlaybackController`] says.
#[verifier::ext_equal]
pub struct ControllerModel {
    pub latest: u64,
    pub audio: bool,
    pub network: Option<SessionModel>,
    pub sessions: u64,
}

pub open spec fn opt_session(session: Option<Session>) -> Option<SessionModel> {
    match session {
        Some(s) => Some(s@),
        None => None,
    }
}

impl View for PlaybackController {
    type V = ControllerModel;

    open spec fn view(&self) -> ControllerModel {
        ControllerModel {
            latest: self.latest,
            audio: self.audio,
            network: opt_session(self.network),
            sessions: self.sessions,
        }
    }
}

/// Something to do, now.
#[derive(Debug, PartialEq, Eq)]
pub enum Act {
    StopAudio,
    PauseAudio,
    ResumeAudio,
    AudioVolume(Volume),
    AudioMuted(bool),
    StopRenderer,
    PauseRenderer,
    PlayRenderer,
    RendererVolume(Volume),
    RendererMuted(bool),
    /// Resolve the track and start it, without holding up the next decision.
    Resolve { generation: u64, track: TrackRef, position: Duration },
    /// Resolve the track and hand it on as the successor of `generation`.
    ResolveNext { generation: u64, next_generation: u64, track: TrackRef },
    /// Forget what was prepared.
    CancelNext(u64),
}

/// What an [`Act`] says.
pub enum ActView {
    StopAudio,
    PauseAudio,
    ResumeAudio,
    AudioVolume(Volume),
    AudioMuted(bool),
    StopRenderer,
    PauseRenderer,
    PlayRenderer,
    RendererVolume(Volume),
    RendererMuted(bool),
    Resolve { generation: u64, track: TrackRefView, position: Duration },
    ResolveNext { generation: u64, next_generation: u64, track: TrackRefView },
    CancelNext(u64),
}

impl View for Act {
    type V = ActView;

    open spec fn view(&self) -> ActView {
        match self {
            Act::StopAudio => ActView::StopAudio,
            Act::PauseAudio => ActView::PauseAudio,
            Act::ResumeAudio => ActView::ResumeAudio,
            Act::AudioVolume(v) => ActView::AudioVolume(*v),
            Act::AudioMuted(m) => ActView::AudioMuted(*m),
            Act::StopRenderer => ActView::StopRenderer,
            Act::PauseRenderer => ActView::PauseRenderer,
            Act::PlayRenderer => ActView::PlayRenderer,
            Act::RendererVolume(v) => ActView::RendererVolume(*v),
            Act::RendererMuted(m) => ActView::RendererMuted(*m),
            Act::Resolve { generation, track, position } => ActView::Resolve {
                generation: *generation,
                track: track@,
                position: *position,
            },
            Act::ResolveNext { generation, next_generation, track } => ActView::ResolveNext {
                generation: *generation,
                next_generation: *next_generation,
                track: track@,
            },
            Act::CancelNext(generation) => ActView::CancelNext(*generation),
        }
    }
}

pub open spec fn acts_view(all: Seq<Act>) -> Seq<ActView> {
    all.map_values(|a: Act| a@)
}

/// One thing to do, or nothing.
pub open spec fn only_if(condition: bool, act: ActView) -> Seq<ActView> {
    if condition {
        seq![act]
    } else {
        Seq::empty()
    }
}

impl ControllerModel {
    /// Whether a renderer is playing something of ours.
    pub open spec fn renderer_loaded(self) -> bool {
        self.network is Some && self.network->0.current is Some
    }

    /// The session, if it is the one `epoch` names.
    pub open spec fn session(self, epoch: u64) -> Option<SessionModel> {
        match self.network {
            Some(session) => if session.epoch == epoch {
                Some(session)
            } else {
                None
            },
            None => None,
        }
    }

    /// With nothing of ours on the renderer.
    pub open spec fn unloaded(self) -> ControllerModel {
        match self.network {
            Some(session) => ControllerModel {
                network: Some(SessionModel { current: None, ..session }),
                ..self
            },
            None => self,
        }
    }

    /// What becomes of the stream resolved for a playback: a newer decision supersedes it, and
    /// otherwise it goes to the selected output.
    pub open spec fn starting(self, generation: u64, mode: OutputMode) -> (
        ControllerModel,
        StartPlan,
    ) {
        if self.latest != generation {
            (self, StartPlan::Discard)
        } else {
            match self.network {
                None => (self, StartPlan::Local),
                Some(session) => {
                    let joins = mode == OutputMode::Flow;
                    (
                        ControllerModel {
                            network: Some(SessionModel { joins, ..session }),
                            ..self
                        },
                        StartPlan::Network { joins },
                    )
                },
            }
        }
    }

    /// Carrying out one decision of the player's: what changes, and what to do, in order.
    pub open spec fn executed(self, effect: Effect) -> (ControllerModel, Seq<ActView>) {
        match effect {
            // Whatever was playing stops now, not once the new stream has resolved.
            Effect::Start { generation, track, position } => (
                ControllerModel { latest: generation, audio: false, ..self },
                only_if(self.audio, ActView::StopAudio).push(
                    ActView::Resolve { generation, track: track@, position },
                ),
            ),
            // Stop the renderer too (it would otherwise play out its buffer) and forget the load,
            // so the "cancelled" it reports next is not about anything of ours.
            Effect::Halt { generation } => (
                ControllerModel { latest: generation, audio: false, ..self.unloaded() },
                only_if(self.audio, ActView::StopAudio) + only_if(
                    self.renderer_loaded(),
                    ActView::StopRenderer,
                ),
            ),
            Effect::Prepare { generation, next_generation, track } => (
                self,
                seq![ActView::ResolveNext { generation, next_generation, track: track@ }],
            ),
            Effect::Unprepare { next_generation } => (
                self,
                only_if(self.audio, ActView::CancelNext(next_generation)),
            ),
            // Transport goes to whatever is producing sound. On a renderer that is the device
            // itself, and the feed pauses too. With nothing of ours loaded there is nothing to
            // play or pause there.
            Effect::Pause => (
                self,
                only_if(self.audio, ActView::PauseAudio) + only_if(
                    self.renderer_loaded(),
                    ActView::PauseRenderer,
                ),
            ),
            Effect::Resume => (
                self,
                only_if(self.audio, ActView::ResumeAudio) + only_if(
                    self.renderer_loaded(),
                    ActView::PlayRenderer,
                ),
            ),
            // A renderer owns its volume; what is streamed to it is always full scale.
            Effect::SetVolume(volume) => (
                self,
                if self.network is Some {
                    seq![ActView::RendererVolume(volume)]
                } else {
                    only_if(self.audio, ActView::AudioVolume(volume))
                },
            ),
            Effect::SetMuted(muted) => (
                self,
                if self.network is Some {
                    seq![ActView::RendererMuted(muted)]
                } else {
                    only_if(self.audio, ActView::AudioMuted(muted))
                },
            ),
        }
    }
}

/// What to do with a stream that has resolved.
#[derive(Debug, Clone, Copy, PartialEq, Eq, Structural)]
pub enum StartPlan {
    /// Nothing: a newer start or a halt owns the output now.
    Discard,
    /// Play it here.
    Local,
    /// Give the renderer a fresh stream, fed by this track, and by what follows it if it joins.
    Network { joins: bool },
}

/// How selecting an output goes on.
#[derive(Debug, Clone, Copy, PartialEq, Eq, Structural)]
pub enum SelectStep {
    /// The local output is selected; any network session is over.
    Local,
    /// Connect to the renderer. Whether its speaker had to be released first.
    Connect { released: bool },
}

/// What to make of a renderer's report.
#[derive(Debug, PartialEq, Eq)]
pub enum ReportStep {
    /// The session it came from is over: stop listening.
    Over,
    /// It is about media that is not ours any more.
    Ignore,
    /// It is news of the playback `generation`.
    Forward { generation: u64, event: EngineEvent },
    /// The renderer is lost: fall back to local output.
    FailBack,
}

/// What the stream watchdog does next.
#[derive(Debug, Clone, Copy, PartialEq, Eq, Structural)]
pub enum WatchStep {
    /// The session is over: stop watching.
    Over,
    /// Look again after a while.
    Wait,
    /// The renderer is gone: fall back to local output.
    FailBack,
}

/// Which playback a renderer's report about `load` belongs to: `None` if it is about media no
/// longer playing there.
///
/// A renderer keeps reporting on the media it has until it accepts the next load, and after a halt
/// it reports the media that was stopped. Only a report about the session's current load is about
/// a playback of ours; whether that playback is still the *current* one is the player's call.
pub fn attribute(current: Option<(LoadId, u64)>, load: LoadId) -> (generation: Option<u64>)
    ensures
        generation == attributed(current, load),
{
    match current {
        Some((current_load, generation)) => if load == current_load {
            Some(generation)
        } else {
            None
        },
        None => None,
    }
}

/// Which playback a renderer's report about `load` belongs to.
pub open spec fn attributed(current: Option<(LoadId, u64)>, load: LoadId) -> Option<u64> {
    match current {
        Some((current_load, generation)) => if load == current_load {
            Some(generation)
        } else {
            None
        },
        None => None,
    }
}

/// What a renderer's report is to the player.
pub open spec fn report_step(
    controller: ControllerModel,
    epoch: u64,
    report: RendererReport,
) -> ReportStep {
    match controller.session(epoch) {
        None => ReportStep::Over,
        Some(session) => match report.event {
            // Losing the renderer is about the session, not one stream: honoured whatever load is
            // current.
            RendererEvent::Superseded(_) => ReportStep::FailBack,
            RendererEvent::Failed(_) => ReportStep::FailBack,
            RendererEvent::State(state) => forwarded(
                attributed(session.current, report.load),
                EngineEvent::RendererState(state),
            ),
            RendererEvent::Position(position) => forwarded(
                attributed(session.current, report.load),
                EngineEvent::RendererPosition(position),
            ),
            // The same end of track as the local engine's, so the queue advances identically on
            // either output.
            RendererEvent::Ended => forwarded(
                attributed(session.current, report.load),
                EngineEvent::Ended,
            ),
        },
    }
}

/// `event` as news of a playback, if it belongs to one.
pub open spec fn forwarded(generation: Option<u64>, event: EngineEvent) -> ReportStep {
    match generation {
        Some(generation) => ReportStep::Forward { generation, event },
        None => ReportStep::Ignore,
    }
}

impl PlaybackController {
    /// Nothing playing, on the local output.
    pub fn new() -> (controller: Self)
        ensures
            controller@ == (ControllerModel { latest: 0, audio: false, network: None, sessions: 0 }),
    {
        PlaybackController { latest: 0, audio: false, network: None, sessions: 0 }
    }

    /// Whether the renderer is playing something of ours.
    fn renderer_loaded(&self) -> (r: bool)
        ensures
            r == self@.renderer_loaded(),
    {
        match &self.network {
            Some(session) => session.current.is_some(),
            None => false,
        }
    }

    /// Carry out one decision of the player's: what to do, in order.
    pub fn execute(&mut self, effect: Effect) -> (acts: Vec<Act>)
        ensures
            (final(self)@, acts_view(acts@)) == old(self)@.executed(effect),
    {
        let mut acts: Vec<Act> = Vec::new();
        let ghost before = self@;
        match effect {
            Effect::Start { generation, track, position } => {
                self.latest = generation;
                if self.audio {
                    acts.push(Act::StopAudio);
                }
                self.audio = false;
                acts.push(Act::Resolve { generation, track, position });
            },
            Effect::Halt { generation } => {
                let loaded = self.renderer_loaded();
                self.latest = generation;
                if self.audio {
                    acts.push(Act::StopAudio);
                }
                self.audio = false;
                if let Some(session) = self.network.take() {
                    self.network = Some(
                        Session {
                            epoch: session.epoch,
                            host: session.host,
                            output: session.output,
                            joins: session.joins,
                            current: None,
                        },
                    );
                }
                if loaded {
                    acts.push(Act::StopRenderer);
                }
            },
            Effect::Prepare { generation, next_generation, track } => {
                acts.push(Act::ResolveNext { generation, next_generation, track });
            },
            Effect::Unprepare { next_generation } => {
                if self.audio {
                    acts.push(Act::CancelNext(next_generation));
                }
            },
            Effect::Pause => {
                if self.audio {
                    acts.push(Act::PauseAudio);
                }
                if self.renderer_loaded() {
                    acts.push(Act::PauseRenderer);
                }
            },
            Effect::Resume => {
                if self.audio {
                    acts.push(Act::ResumeAudio);
                }
                if self.renderer_loaded() {
                    acts.push(Act::PlayRenderer);
                }
            },
            Effect::SetVolume(volume) => {
                if self.network.is_some() {
                    acts.push(Act::RendererVolume(volume));
                } else if self.audio {
                    acts.push(Act::AudioVolume(volume));
                }
            },
            Effect::SetMuted(muted) => {
                if self.network.is_some() {
                    acts.push(Act::RendererMuted(muted));
                } else if self.audio {
                    acts.push(Act::AudioMuted(muted));
                }
            },
        }
        assert(acts_view(acts@) =~= before.executed(effect).1);
        acts
    }

    /// The stream of the playback `generation` has resolved. `mode` is what settings say of the
    /// session's output.
    pub fn start(&mut self, generation: u64, mode: OutputMode) -> (plan: StartPlan)
        ensures
            (final(self)@, plan) == old(self)@.starting(generation, mode),
    {
        if self.latest != generation {
            return StartPlan::Discard;
        }
        match self.network.take() {
            Some(session) => {
                let joins: bool = mode == OutputMode::Flow;
                self.network = Some(
                    Session {
                        epoch: session.epoch,
                        host: session.host,
                        output: session.output,
                        joins,
                        current: session.current,
                    },
                );
                StartPlan::Network { joins }
            },
            None => StartPlan::Local,
        }
    }

    /// The renderer was told to load the stream of the playback `generation`. What to report, if
    /// it could not be.
    pub fn loaded(&mut self, generation: u64, load: Result<LoadId>) -> (report: Option<EngineEvent>)
        ensures
            match load {
                Ok(load) => report is None && final(self)@ == match old(self)@.network {
                    Some(session) => ControllerModel {
                        network: Some(
                            SessionModel { current: Some((load, generation)), ..session },
                        ),
                        ..old(self)@
                    },
                    None => old(self)@,
                },
                Err(e) => final(self)@ == old(self)@ && (report matches Some(
                    EngineEvent::Failed(why),
                ) && why@ == e@.message()),
            },
    {
        match load {
            Ok(load) => {
                if let Some(session) = self.network.take() {
                    self.network = Some(
                        Session {
                            epoch: session.epoch,
                            host: session.host,
                            output: session.output,
                            joins: session.joins,
                            current: Some((load, generation)),
                        },
                    );
                }
                None
            },
            Err(e) => Some(EngineEvent::Failed(e.message())),
        }
    }

    /// An engine is running. A fresh engine starts at full gain, so the local output must be
    /// brought to the level the player says it is at; a renderer keeps its own.
    pub fn started(&mut self, plan: StartPlan, volume: Volume, muted: bool) -> (acts: Vec<Act>)
        ensures
            final(self)@ == (ControllerModel { audio: true, ..old(self)@ }),
            acts_view(acts@) == if plan == StartPlan::Local {
                seq![ActView::AudioVolume(volume), ActView::AudioMuted(muted)]
            } else {
                Seq::empty()
            },
    {
        self.audio = true;
        let mut acts: Vec<Act> = Vec::new();
        if plan == StartPlan::Local {
            acts.push(Act::AudioVolume(volume));
            acts.push(Act::AudioMuted(muted));
        }
        assert(acts_view(acts@) =~= if plan == StartPlan::Local {
            seq![ActView::AudioVolume(volume), ActView::AudioMuted(muted)]
        } else {
            Seq::empty()
        });
        acts
    }

    /// Whether the playback `generation` can take a successor that has resolved: only the run it
    /// was prepared for can, and only on a stream that joins.
    pub fn prepare(&self, generation: u64) -> (takes: bool)
        ensures
            takes == (self@.latest == generation && self@.audio && (self@.network is Some
                ==> self@.network->0.joins)),
    {
        let joins: bool = match &self.network {
            Some(session) => session.joins,
            None => true,
        };
        self.latest == generation && joins && self.audio
    }

    /// Switch to the output `id`, whose renderer answers at `host`.
    ///
    /// A speaker plays one input at a time. Switching protocols on the *same* speaker must release
    /// it first. Between different devices the old session stays up until the new one is, so there
    /// is no gap.
    pub fn select_sink(&mut self, id: &SinkId, host: &str) -> (step: SelectStep)
        ensures
            ({
                let released = old(self)@.network is Some && old(self)@.network->0.host == host@;
                if id@ == local_id() {
                    step == SelectStep::Local && final(self)@ == (ControllerModel {
                        network: None,
                        ..old(self)@
                    })
                } else {
                    step == (SelectStep::Connect { released }) && final(self)@ == if released {
                        ControllerModel { network: None, ..old(self)@ }
                    } else {
                        old(self)@
                    }
                }
            }),
    {
        if SinkInfo::is_local(id) {
            self.network = None;
            return SelectStep::Local;
        }
        let released: bool = match &self.network {
            Some(session) => same(session.host.as_str(), host),
            None => false,
        };
        if released {
            self.network = None;
        }
        SelectStep::Connect { released }
    }

    /// Whether another session can be numbered.
    pub fn can_connect(&self) -> (r: bool)
        ensures
            r == (self@.sessions < u64::MAX),
    {
        self.sessions < u64::MAX
    }

    /// The renderer is connected: its session takes over from any other. Returns its epoch.
    pub fn connected(&mut self, host: String, output: SinkId) -> (epoch: u64)
        requires
            old(self)@.sessions < u64::MAX,
        ensures
            epoch == old(self)@.sessions + 1,
            final(self)@ == (ControllerModel {
                network: Some(
                    SessionModel {
                        epoch,
                        host: host@,
                        output: output@,
                        joins: false,
                        current: None,
                    },
                ),
                sessions: epoch,
                ..old(self)@
            }),
    {
        let epoch: u64 = self.sessions + 1;
        self.sessions = epoch;
        self.network = Some(Session { epoch, host, output, joins: false, current: None });
        epoch
    }

    /// The output to select when the renderer could not be connected to. With its speaker already
    /// released there is nothing left to go back to; carry on locally rather than leave playback
    /// nowhere.
    pub fn connect_failed(released: bool) -> (instead: Option<SinkId>)
        ensures
            match instead {
                Some(id) => released && id@ == local_id(),
                None => !released,
            },
    {
        if released {
            Some(SinkInfo::local().id)
        } else {
            None
        }
    }

    /// What a report of the session `epoch` is to the player.
    pub fn renderer_report(&self, epoch: u64, report: RendererReport) -> (step: ReportStep)
        ensures
            step == report_step(self@, epoch, report),
    {
        let current: Option<(LoadId, u64)> = match &self.network {
            Some(session) => if session.epoch == epoch {
                session.current
            } else {
                return ReportStep::Over;
            },
            None => {
                return ReportStep::Over;
            },
        };
        let generation = attribute(current, report.load);
        let event = match report.event {
            RendererEvent::State(state) => EngineEvent::RendererState(state),
            RendererEvent::Position(position) => EngineEvent::RendererPosition(position),
            RendererEvent::Ended => EngineEvent::Ended,
            RendererEvent::Superseded(_) => {
                return ReportStep::FailBack;
            },
            RendererEvent::Failed(_) => {
                return ReportStep::FailBack;
            },
        };
        match generation {
            Some(generation) => ReportStep::Forward { generation, event },
            None => ReportStep::Ignore,
        }
    }

    /// Whether the session `epoch` has one of our loads on its renderer, or `None` if it is no
    /// longer the live session.
    pub fn session_loaded(&self, epoch: u64) -> (loaded: Option<bool>)
        ensures
            loaded == match self@.session(epoch) {
                Some(session) => Some(session.current is Some),
                None => None,
            },
    {
        match &self.network {
            Some(session) => if session.epoch == epoch {
                Some(session.current.is_some())
            } else {
                None
            },
            None => None,
        }
    }

    /// Drop the session `epoch`, if it is still the live one. Returns whether it was: the player
    /// is then told that its sink failed.
    pub fn fail_back_to_local(&mut self, epoch: u64) -> (dropped: bool)
        ensures
            dropped == (old(self)@.session(epoch) is Some),
            final(self)@ == if dropped {
                ControllerModel { network: None, ..old(self)@ }
            } else {
                old(self)@
            },
    {
        let live: bool = match &self.network {
            Some(session) => session.epoch == epoch,
            None => false,
        };
        if live {
            self.network = None;
        }
        live
    }

    /// The outputs a client may select: the local one, then every one discovered.
    pub fn sinks(discovered: Vec<SinkInfo>) -> (sinks: Vec<SinkInfo>)
        ensures
            sinks@.len() == discovered@.len() + 1,
            sinks@[0].id@ == local_id(),
            sinks@[0].kind == crate::sink::SinkKind::Local,
            sinks@[0].name@ == "Local output"@,
            sinks@.skip(1) == discovered@,
    {
        let mut sinks: Vec<SinkInfo> = Vec::new();
        let mut rest = discovered;
        sinks.push(SinkInfo::local());
        sinks.append(&mut rest);
        assert(sinks@.skip(1) =~= discovered@);
        sinks
    }
}

/// Whether a track has to be described before it plays, so that clients are shown how long it is.
pub fn needs_description(track: &TrackRef) -> (r: bool)
    ensures
        r == (track@.meta.duration_ms is None),
{
    track.meta.duration_ms.is_none()
}

/// The attempt to make after attempt `attempt` at opening a renderer session failed, if there is
/// one more. A speaker that has just been released by another protocol, or woken from standby,
/// commonly refuses the first.
pub fn connect_again(attempt: u32) -> (next: Option<u32>)
    ensures
        next == if attempt < CONNECT_ATTEMPTS {
            Some((attempt + 1) as u32)
        } else {
            None
        },
{
    if attempt < CONNECT_ATTEMPTS {
        Some(attempt + 1)
    } else {
        None
    }
}

/// Whether a renderer is still *consuming* our stream. A multi-protocol speaker can be taken over
/// by something its control channel cannot see; whether anything is pulling bytes is ground truth.
#[derive(Debug, Clone, Copy, PartialEq, Eq, Structural)]
pub struct Watchdog {
    /// For how long nothing has been pulling, in milliseconds.
    pub absent_ms: u64,
}

impl Watchdog {
    /// It gives up as soon as the grace is used up.
    pub open spec fn wf(self) -> bool {
        self.absent_ms < CONSUMER_GRACE_MS
    }

    pub fn new() -> (dog: Self)
        ensures
            dog.wf(),
            dog.absent_ms == 0,
    {
        Watchdog { absent_ms: 0 }
    }

    /// One look: whether the session is live and has something of ours loaded, how many are
    /// pulling, and whether the track has been fed in full (a renderer then has all of it, and
    /// stops pulling while it plays out its buffer).
    pub fn look(&mut self, loaded: Option<bool>, consumers: usize, drained: bool) -> (step: WatchStep)
        requires
            old(self).wf(),
        ensures
            ({
                let silent = loaded == Some(true) && consumers == 0 && !drained;
                let absent = old(self).absent_ms + CONSUMER_POLL_MS;
                if loaded is None {
                    step == WatchStep::Over && *final(self) == *old(self)
                } else if !silent {
                    step == WatchStep::Wait && final(self).absent_ms == 0
                } else if absent >= CONSUMER_GRACE_MS {
                    step == WatchStep::FailBack && *final(self) == *old(self)
                } else {
                    step == WatchStep::Wait && final(self).absent_ms == absent
                }
            }),
            final(self).wf(),
    {
        match loaded {
            None => WatchStep::Over,
            Some(loaded) => {
                if loaded && consumers == 0 && !drained {
                    if self.absent_ms + CONSUMER_POLL_MS >= CONSUMER_GRACE_MS {
                        return WatchStep::FailBack;
                    }
                    self.absent_ms = self.absent_ms + CONSUMER_POLL_MS;
                } else {
                    self.absent_ms = 0;
                }
                WatchStep::Wait
            },
        }
    }
}

/// The discovered device with the id asked for: where it is in the list of ids.
pub fn find_device(discovered: &Option<Vec<SinkId>>, id: &SinkId) -> (at: Result<usize>)
    ensures
        match (at, discovered) {
            (Ok(i), Some(ids)) => i < ids@.len() && ids@[i as int]@ == id@ && forall|k: int|
                0 <= k < i ==> (#[trigger] ids@[k])@ != id@,
            (Ok(_), None) => false,
            (Err(e), Some(ids)) => e@ == ErrorView::NotFound(
                "no renderer SinkId("@ + quoted_text(id@) + ") discovered"@,
            ) && forall|k: int| 0 <= k < ids@.len() ==> (#[trigger] ids@[k])@ != id@,
            (Err(e), None) => e@ == ErrorView::Unsupported(
                "renderer discovery is unavailable"@,
            ),
        },
{
    let ids = match discovered {
        Some(ids) => ids,
        None => {
            return Err(Error::Unsupported("renderer discovery is unavailable".to_owned()));
        },
    };
    let mut i: usize = 0;
    while i < ids.len()
        invariant
            i <= ids@.len(),
            discovered == Some(*ids),
            forall|k: int| 0 <= k < i ==> (#[trigger] ids@[k])@ != id@,
        decreases ids.len() - i,
    {
        if same(ids[i].0.as_str(), id.0.as_str()) {
            return Ok(i);
        }
        i = i + 1;
    }
    let mut text = concat("no renderer SinkId(", quoted(id.0.as_str()).as_str());
    text.append(") discovered");
    Err(Error::NotFound(text))
}

/// An output one of whose protocols has the id `device`.
pub open spec fn reaches(device: Seq<char>) -> spec_fn((SinkId, Vec<SinkId>)) -> bool {
    |output: (SinkId, Vec<SinkId>)| exists|k: int|
        0 <= k < output.1@.len() && (#[trigger] output.1@[k])@ == device
}

fn is_reached(protocols: &Vec<SinkId>, device: &SinkId) -> (r: bool)
    ensures
        r == exists|k: int| 0 <= k < protocols@.len() && (#[trigger] protocols@[k])@ == device@,
{
    let mut i: usize = 0;
    while i < protocols.len()
        invariant
            i <= protocols@.len(),
            forall|k: int| 0 <= k < i ==> (#[trigger] protocols@[k])@ != device@,
        decreases protocols.len() - i,
    {
        if same(protocols[i].0.as_str(), device.0.as_str()) {
            assert(protocols@[i as int]@ == device@);
            return true;
        }
        i = i + 1;
    }
    false
}

/// The output that settings know a device by: the speaker, whichever protocol reaches it. One that
/// is not listed is known by its own id.
pub fn speaker_of(outputs: &Vec<(SinkId, Vec<SinkId>)>, device: &SinkId) -> (output: SinkId)
    ensures
        match first_at(outputs@, reaches(device@)) {
            Some(i) => output@ == outputs@[i].0@,
            None => output@ == device@,
        },
{
    let ghost p = reaches(device@);
    let mut i: usize = 0;
    while i < outputs.len()
        invariant
            i <= outputs@.len(),
            p == reaches(device@),
            forall|k: int| 0 <= k < i ==> !p(#[trigger] outputs@[k]),
        decreases outputs.len() - i,
    {
        if is_reached(&outputs[i].1, device) {
            proof {
                found_first(outputs@, p, i as int);
            }
            return outputs[i].0.clone();
        }
        i = i + 1;
    }
    proof {
        found_none(outputs@, p);
    }
    device.clone()
}

/// A start that a newer start or a halt supersedes while its stream resolves is discarded: it
/// changes nothing and plays nowhere.
pub proof fn a_superseded_start_is_discarded(
    controller: ControllerModel,
    start: Effect,
    newer: Effect,
    mode: OutputMode,
)
    requires
        start is Start,
        newer is Start ==> newer->Start_generation != start->Start_generation,
        newer is Halt ==> newer->Halt_generation != start->Start_generation,
        newer is Start || newer is Halt,
    ensures
        ({
            let now = controller.executed(start).0.executed(newer).0;
            now.starting(start->Start_generation, mode) == (now, StartPlan::Discard)
        }),
{
}

/// After a halt nothing a renderer says about its media counts.
pub proof fn nothing_counts_after_a_halt(
    controller: ControllerModel,
    halt: Effect,
    epoch: u64,
    report: RendererReport,
)
    requires
        halt is Halt,
    ensures
        !(report_step(controller.executed(halt).0, epoch, report) is Forward),
{
}

/// A session that has been replaced is never listened to, nor can it take the new one down: not
/// even where the new one is the same speaker.
pub proof fn a_replaced_session_is_over(
    controller: ControllerModel,
    epoch: u64,
    newer: ControllerModel,
    report: RendererReport,
)
    requires
        epoch <= controller.sessions < newer.sessions,
        newer.network is Some,
        newer.network->0.epoch == newer.sessions,
    ensures
        newer.session(epoch) is None,
        report_step(newer, epoch, report) is Over,
{
}

/// One output is active at a time: whatever the player decides, which session is live does not
/// change by it.
pub proof fn effects_keep_the_output(controller: ControllerModel, effect: Effect, epoch: u64)
    ensures
        controller.executed(effect).0.session(epoch) is Some <==> controller.session(
            epoch,
        ) is Some,
        controller.executed(effect).0.sessions == controller.sessions,
{
}

/// What a renderer says of the load that plays reaches the player, as news of the playback that
/// load belongs to: the state it is in, where it is, and that it has ended, each as it was said.
pub proof fn news_of_the_current_load_reaches_the_player(
    controller: ControllerModel,
    generation: u64,
    report: RendererReport,
)
    requires
        controller.network is Some,
        controller.network->0.current == Some((report.load, generation)),
    ensures
        report_step(controller, controller.network->0.epoch, report) == match report.event {
            RendererEvent::State(state) => ReportStep::Forward {
                generation,
                event: EngineEvent::RendererState(state),
            },
            RendererEvent::Position(position) => ReportStep::Forward {
                generation,
                event: EngineEvent::RendererPosition(position),
            },
            RendererEvent::Ended => ReportStep::Forward { generation, event: EngineEvent::Ended },
            RendererEvent::Superseded(_) => ReportStep::FailBack,
            RendererEvent::Failed(_) => ReportStep::FailBack,
        },
{
}

/// What a renderer says of any other load is not about anything that plays, and goes nowhere;
/// losing the renderer counts whatever it was playing.
pub proof fn news_of_another_load_goes_nowhere(controller: ControllerModel, report: RendererReport)
    requires
        controller.network is Some,
        match controller.network->0.current {
            Some((load, _)) => load != report.load,
            None => true,
        },
    ensures
        report_step(controller, controller.network->0.epoch, report) == match report.event {
            RendererEvent::State(_) => ReportStep::Ignore,
            RendererEvent::Position(_) => ReportStep::Ignore,
            RendererEvent::Ended => ReportStep::Ignore,
            RendererEvent::Superseded(_) => ReportStep::FailBack,
            RendererEvent::Failed(_) => ReportStep::FailBack,
        },
{
}

/// What comes from a session that is not the one in use is over and done with.
pub proof fn news_from_another_session_is_over(
    controller: ControllerModel,
    epoch: u64,
    report: RendererReport,
)
    requires
        match controller.network {
            Some(session) => session.epoch != epoch,
            None => true,
        },
    ensures
        report_step(controller, epoch, report) == ReportStep::Over,
{
}

/// Starting stops what sounds locally at once and then looks for what was asked for: that track,
/// from that position, for that playback. The output stays the one chosen.
pub proof fn a_start_asks_for_the_track_from_the_position(
    controller: ControllerModel,
    generation: u64,
    track: TrackRef,
    position: Duration,
)
    ensures
        ({
            let (after, acts) = controller.executed(Effect::Start { generation, track, position });
            &&& acts.len() == if controller.audio {
                2int
            } else {
                1
            }
            &&& controller.audio ==> acts[0] == ActView::StopAudio
            &&& acts.last() == (ActView::Resolve { generation, track: track@, position })
            &&& after.latest == generation
            &&& !after.audio
            &&& after.network == controller.network
            &&& after.sessions == controller.sessions
        }),
{
}

/// Halting stops what sounds, on this machine and on a renderer that was given something to play,
/// and leaves nothing loaded there. The output stays the one chosen.
pub proof fn a_halt_stops_every_output(controller: ControllerModel, generation: u64)
    ensures
        ({
            let (after, acts) = controller.executed(Effect::Halt { generation });
            let loaded = controller.network is Some && controller.network->0.current is Some;
            &&& acts.contains(ActView::StopAudio) <==> controller.audio
            &&& acts.contains(ActView::StopRenderer) <==> loaded
            &&& forall|i: int|
                0 <= i < acts.len() ==> #[trigger] acts[i] == ActView::StopAudio || acts[i]
                    == ActView::StopRenderer
            &&& after.latest == generation
            &&& !after.audio
            &&& after.network is Some <==> controller.network is Some
            &&& after.network is Some ==> after.network->0.current is None
                && after.network->0.output == controller.network->0.output
                && after.network->0.epoch == controller.network->0.epoch
        }),
{
    let (after, acts) = controller.executed(Effect::Halt { generation });
    let loaded = controller.network is Some && controller.network->0.current is Some;
    if controller.audio {
        assert(acts[0] == ActView::StopAudio);
        if loaded {
            assert(acts[1] == ActView::StopRenderer);
        }
    } else if loaded {
        assert(acts[0] == ActView::StopRenderer);
    }
}

/// Pausing and resuming go to whatever sounds: the feed on this machine, the renderer that plays
/// what it was given, or both. Nothing else changes.
pub proof fn transport_reaches_whatever_sounds(controller: ControllerModel)
    ensures
        ({
            let (after, acts) = controller.executed(Effect::Pause);
            let loaded = controller.network is Some && controller.network->0.current is Some;
            &&& after == controller
            &&& acts.contains(ActView::PauseAudio) <==> controller.audio
            &&& acts.contains(ActView::PauseRenderer) <==> loaded
            &&& forall|i: int|
                0 <= i < acts.len() ==> #[trigger] acts[i] == ActView::PauseAudio || acts[i]
                    == ActView::PauseRenderer
        }),
        ({
            let (after, acts) = controller.executed(Effect::Resume);
            let loaded = controller.network is Some && controller.network->0.current is Some;
            &&& after == controller
            &&& acts.contains(ActView::ResumeAudio) <==> controller.audio
            &&& acts.contains(ActView::PlayRenderer) <==> loaded
            &&& forall|i: int|
                0 <= i < acts.len() ==> #[trigger] acts[i] == ActView::ResumeAudio || acts[i]
                    == ActView::PlayRenderer
        }),
{
    let loaded = controller.network is Some && controller.network->0.current is Some;
    let held = controller.executed(Effect::Pause).1;
    let gone_on = controller.executed(Effect::Resume).1;
    if controller.audio {
        assert(held[0] == ActView::PauseAudio);
        assert(gone_on[0] == ActView::ResumeAudio);
        if loaded {
            assert(held[1] == ActView::PauseRenderer);
            assert(gone_on[1] == ActView::PlayRenderer);
        }
    } else if loaded {
        assert(held[0] == ActView::PauseRenderer);
        assert(gone_on[0] == ActView::PlayRenderer);
    }
}

/// Volume and muting go to the renderer where one is chosen, and to what sounds on this machine
/// where none is, as they were set.
pub proof fn volume_goes_to_the_output_in_use(
    controller: ControllerModel,
    volume: Volume,
    muted: bool,
)
    ensures
        controller.executed(Effect::SetVolume(volume)) == (
            controller,
            if controller.network is Some {
                seq![ActView::RendererVolume(volume)]
            } else if controller.audio {
                seq![ActView::AudioVolume(volume)]
            } else {
                Seq::empty()
            },
        ),
        controller.executed(Effect::SetMuted(muted)) == (
            controller,
            if controller.network is Some {
                seq![ActView::RendererMuted(muted)]
            } else if controller.audio {
                seq![ActView::AudioMuted(muted)]
            } else {
                Seq::empty()
            },
        ),
{
}

/// What is to follow is looked for under its own generation, and given up by it; nothing that
/// sounds changes.
pub proof fn what_follows_is_looked_for_and_given_up(
    controller: ControllerModel,
    generation: u64,
    next_generation: u64,
    track: TrackRef,
)
    ensures
        controller.executed(Effect::Prepare { generation, next_generation, track }) == (
            controller,
            seq![ActView::ResolveNext { generation, next_generation, track: track@ }],
        ),
        controller.executed(Effect::Unprepare { next_generation }) == (
            controller,
            if controller.audio {
                seq![ActView::CancelNext(next_generation)]
            } else {
                Seq::empty()
            },
        ),
{
}

/// A start that is still the latest plays on the output in use, joining tracks there only where its
/// mode is to flow; one that has been overtaken is dropped.
pub proof fn a_start_plays_on_the_output_in_use(
    controller: ControllerModel,
    generation: u64,
    mode: OutputMode,
)
    ensures
        ({
            let (after, plan) = controller.starting(generation, mode);
            if controller.latest != generation {
                plan == StartPlan::Discard && after == controller
            } else if controller.network is None {
                plan == StartPlan::Local && after == controller
            } else {
                &&& plan == (StartPlan::Network { joins: mode == OutputMode::Flow })
                &&& after.network is Some
                &&& after.network->0.joins == (mode == OutputMode::Flow)
                &&& after.network->0.epoch == controller.network->0.epoch
                &&& after.network->0.output == controller.network->0.output
                &&& after.network->0.current == controller.network->0.current
                &&& after.latest == controller.latest
                &&& after.audio == controller.audio
            }
        }),
{
}

/// An act says what it holds.
pub proof fn an_act_says_what_it_holds(act: Act)
    ensures
        match act {
            Act::AudioVolume(v) => act@ == ActView::AudioVolume(v),
            Act::AudioMuted(m) => act@ == ActView::AudioMuted(m),
            Act::RendererVolume(v) => act@ == ActView::RendererVolume(v),
            Act::RendererMuted(m) => act@ == ActView::RendererMuted(m),
            Act::Resolve { generation, track, position } => act@ == (ActView::Resolve {
                generation,
                track: track@,
                position,
            }),
            Act::ResolveNext { generation, next_generation, track } => act@ == (
            ActView::ResolveNext { generation, next_generation, track: track@ }),
            Act::CancelNext(generation) => act@ == ActView::CancelNext(generation),
            Act::StopAudio => act@ == ActView::StopAudio,
            Act::PauseAudio => act@ == ActView::PauseAudio,
            Act::ResumeAudio => act@ == ActView::ResumeAudio,
            Act::StopRenderer => act@ == ActView::StopRenderer,
            Act::PauseRenderer => act@ == ActView::PauseRenderer,
            Act::PlayRenderer => act@ == ActView::PlayRenderer,
        },
{
}

/// A device is reached through the first speaker that lists it, and is its own speaker where none
/// does.
pub proof fn a_device_belongs_to_the_speaker_that_lists_it(
    outputs: Seq<(SinkId, Vec<SinkId>)>,
    device: Seq<char>,
    at: int,
    k: int,
)
    requires
        0 <= at < outputs.len(),
        0 <= k < outputs[at].1@.len(),
        outputs[at].1@[k]@ == device,
        forall|i: int, j: int|
            0 <= i < at && 0 <= j < outputs[i].1@.len() ==> (#[trigger] outputs[i].1@[j])@
                != device,
    ensures
        first_at(outputs, reaches(device)) == Some(at),
{
    found_first(outputs, reaches(device), at);
}

/// A renderer that is lost, or that something else took over, is lost to its session whatever it
/// was playing: playback falls back to the local output.
pub proof fn losing_the_renderer_falls_back(
    controller: ControllerModel,
    epoch: u64,
    load: LoadId,
    why: String,
)
    requires
        controller.session(epoch) is Some,
    ensures
        report_step(
            controller,
            epoch,
            RendererReport { load, event: RendererEvent::Failed(why) },
        ) == ReportStep::FailBack,
        report_step(
            controller,
            epoch,
            RendererReport { load, event: RendererEvent::Superseded(why) },
        ) == ReportStep::FailBack,
{
}

/// A start or a halt is the latest there is from then on, and what sounded before is over. A halt
/// forgets what the renderer was given and keeps the connection; nothing else changes where
/// playback goes.
pub proof fn the_latest_start_supersedes_what_sounded(controller: ControllerModel, effect: Effect)
    ensures
        ({
            let after = controller.executed(effect).0;
            &&& effect matches Effect::Start { generation, .. } ==> after.latest == generation
                && !after.audio && after.network == controller.network
            &&& effect matches Effect::Halt { generation } ==> after.latest == generation
                && !after.audio && (after.network is Some <==> controller.network is Some) && (
            after.network is Some ==> after.network->0.current is None && after.network->0.epoch
                == controller.network->0.epoch && after.network->0.output
                == controller.network->0.output)
            &&& !(effect is Start) && !(effect is Halt) ==> after == controller
            &&& after.sessions == controller.sessions
        }),
{
}

} // verus!
