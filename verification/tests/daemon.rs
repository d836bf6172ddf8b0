use canon::autoplay::{due, fresh, Autoplay, TOP_UP};
use canon::command::{Command, Repeat, Volume};
use canon::connection::{Capabilities, Capability, ConnectionInfo, Health};
use canon::controller::{
    attribute, connect_again, find_device, needs_description, speaker_of, Act, LoadId,
    PlaybackController, RendererEvent, RendererReport, ReportStep, SelectStep, StartPlan,
    WatchStep, Watchdog,
};
use canon::dispatch::{
    dispatch, queue_command, refuse, track_command, Available, LibraryCall, Plan, Refusal,
    SessionCall,
};
use canon::error::Error;
use canon::id::{EntityId, Quality, Service, SourceRef};
use canon::model::{EntityKind, ItemRef};
use canon::player::{Effect, EngineEvent, PlayerSnapshot, QueueSnapshot, QueueView};
use canon::protocol::{ClientMessage, QueueAt, ReplyData, ServerMessage};
use canon::schema::{pending, NEWEST_SCHEMA};
use canon::session::{country, Account, DeviceCode, LoginStatus, LoginStep, LoginWait};
use canon::settings::{FileRead, FileSettings, OutputMode, OutputSettings, Settings};
use canon::sink::{RendererState, SinkId, SinkInfo};
use canon::state::PlaybackState;
use canon::time::{Duration, Instant};
use canon::track::{TrackMeta, TrackRef};

fn track() -> TrackRef {
    TrackRef {
        id: EntityId::new(),
        meta: TrackMeta {
            title: String::new(),
            artists: vec![],
            album: None,
            duration_ms: None,
            artwork_url: None,
        },
        sources: vec![],
    }
}

fn snapshot(state: PlaybackState, index: usize, len: usize, repeat: Repeat) -> PlayerSnapshot {
    PlayerSnapshot {
        seq: 1,
        state,
        track: Some(track()),
        position_ms: 0,
        duration_ms: None,
        rate: 1,
        volume: Volume::full(),
        muted: false,
        sink: None,
        error: None,
        queue: QueueView { len, index, revision: 1, repeat },
    }
}

#[test]
fn only_the_last_entry_playing_without_repeat_is_due() {
    let playing_last = snapshot(PlaybackState::Playing, 2, 3, Repeat::Off);
    assert_eq!(due(&playing_last), playing_last.track.as_ref().map(|t| t.id));
    assert!(due(&snapshot(PlaybackState::Loading, 0, 1, Repeat::Off)).is_some());
    assert!(due(&snapshot(PlaybackState::Playing, 1, 3, Repeat::Off)).is_none());
    assert!(due(&snapshot(PlaybackState::Paused, 2, 3, Repeat::Off)).is_none());
    assert!(due(&snapshot(PlaybackState::Playing, 2, 3, Repeat::All)).is_none());
    assert!(due(&snapshot(PlaybackState::Playing, 2, 3, Repeat::One)).is_none());
    assert!(due(&snapshot(PlaybackState::Ended, 2, 3, Repeat::Off)).is_none());
}

#[test]
fn a_top_up_is_tried_once_and_repeats_nothing() {
    let mut autoplay = Autoplay::new();
    let end = snapshot(PlaybackState::Playing, 0, 1, Repeat::Off);
    assert_eq!(autoplay.consider(&end, false), None);
    assert_eq!(autoplay.consider(&end, true), due(&end));
    assert_eq!(autoplay.consider(&end, true), None);

    let queued = track();
    let queue = QueueSnapshot { revision: 1, index: 0, tracks: vec![queued.clone()] };
    let mut radio = vec![queued.id];
    for _ in 0..30 {
        radio.push(EntityId::new());
    }
    let added = fresh(&queue, &radio);
    assert_eq!(added.len(), TOP_UP);
    assert_eq!(added[..], radio[1..TOP_UP + 1]);
}

#[test]
fn a_report_about_the_current_load_goes_to_its_playback() {
    assert_eq!(attribute(Some((LoadId(3), 7)), LoadId(3)), Some(7));
}

#[test]
fn a_report_about_a_superseded_load_goes_nowhere() {
    assert_eq!(attribute(Some((LoadId(4), 8)), LoadId(3)), None);
}

#[test]
fn nothing_counts_with_nothing_loaded() {
    assert_eq!(attribute(None, LoadId(3)), None);
}

fn sink(id: &str) -> SinkId {
    SinkId(id.to_string())
}

fn start(generation: u64) -> Effect {
    Effect::Start { generation, track: track(), position: Duration::zero() }
}

#[test]
fn a_start_is_discarded_once_superseded() {
    let mut controller = PlaybackController::new();
    controller.execute(start(1));
    assert_eq!(controller.start(1, OutputMode::Flow), StartPlan::Local);
    assert_eq!(
        controller.started(StartPlan::Local, Volume { bits: 3 }, true),
        vec![Act::AudioVolume(Volume { bits: 3 }), Act::AudioMuted(true)]
    );
    assert!(controller.prepare(1));
    let acts = controller.execute(start(2));
    assert_eq!(acts[0], Act::StopAudio);
    assert_eq!(controller.execute(Effect::Halt { generation: 3 }), vec![]);
    assert_eq!(controller.start(2, OutputMode::Flow), StartPlan::Discard);
}

#[test]
fn a_renderer_is_driven_while_it_has_our_media() {
    let mut controller = PlaybackController::new();
    assert_eq!(
        controller.select_sink(&sink("cast-1"), "10.0.0.2"),
        SelectStep::Connect { released: false }
    );
    let epoch = controller.connected("10.0.0.2".to_string(), sink("speaker"));
    controller.execute(start(1));
    assert_eq!(
        controller.start(1, OutputMode::Standard),
        StartPlan::Network { joins: false }
    );
    assert_eq!(controller.loaded(1, Ok(LoadId(5))), None);
    controller.started(StartPlan::Network { joins: false }, Volume::full(), false);
    assert!(!controller.prepare(1), "a standard stream joins nothing");
    assert_eq!(
        controller.execute(Effect::Pause),
        vec![Act::PauseAudio, Act::PauseRenderer]
    );
    let report = |load, event| RendererReport { load: LoadId(load), event };
    assert_eq!(
        controller.renderer_report(epoch, report(5, RendererEvent::Ended)),
        ReportStep::Forward { generation: 1, event: EngineEvent::Ended }
    );
    assert_eq!(
        controller.renderer_report(
            epoch,
            report(4, RendererEvent::State(RendererState::Playing))
        ),
        ReportStep::Ignore
    );
    assert_eq!(
        controller.renderer_report(epoch, report(4, RendererEvent::Failed("x".to_string()))),
        ReportStep::FailBack
    );
    assert_eq!(controller.session_loaded(epoch), Some(true));
    assert_eq!(
        controller.execute(Effect::Halt { generation: 2 }),
        vec![Act::StopAudio, Act::StopRenderer]
    );
    assert_eq!(controller.session_loaded(epoch), Some(false));
    assert!(controller.fail_back_to_local(epoch));
    assert!(!controller.fail_back_to_local(epoch));
    assert_eq!(
        controller.renderer_report(epoch, report(5, RendererEvent::Ended)),
        ReportStep::Over
    );
}

#[test]
fn a_load_that_fails_is_reported() {
    let mut controller = PlaybackController::new();
    let failed = controller.loaded(1, Err(Error::Sink("busy".to_string())));
    assert_eq!(failed, Some(EngineEvent::Failed("sink: busy".to_string())));
}

#[test]
fn the_same_speaker_is_released_first() {
    let mut controller = PlaybackController::new();
    controller.connected("10.0.0.2".to_string(), sink("speaker"));
    assert_eq!(
        controller.select_sink(&sink("dlna-1"), "10.0.0.2"),
        SelectStep::Connect { released: true }
    );
    assert_eq!(PlaybackController::connect_failed(true), Some(SinkInfo::local().id));
    assert_eq!(PlaybackController::connect_failed(false), None);
    assert_eq!(controller.select_sink(&sink("local"), ""), SelectStep::Local);
    assert_eq!(connect_again(1), Some(2));
    assert_eq!(connect_again(3), None);
}

#[test]
fn a_renderer_that_stops_pulling_is_gone_after_a_while() {
    let mut dog = Watchdog::new();
    for _ in 0..9 {
        assert_eq!(dog.look(Some(true), 0, false), WatchStep::Wait);
    }
    assert_eq!(dog.look(Some(true), 1, false), WatchStep::Wait, "it came back");
    for _ in 0..9 {
        assert_eq!(dog.look(Some(true), 0, false), WatchStep::Wait);
    }
    assert_eq!(dog.look(Some(true), 0, false), WatchStep::FailBack);
    assert_eq!(Watchdog::new().look(None, 0, false), WatchStep::Over);
}

#[test]
fn a_renderer_is_found_by_its_id() {
    let found = Some(vec![sink("a"), sink("b\"")]);
    assert_eq!(find_device(&found, &sink("b\"")), Ok(1));
    assert_eq!(
        find_device(&found, &sink("c\"")).unwrap_err().message(),
        "not found: no renderer SinkId(\"c\\\"\") discovered"
    );
    assert_eq!(
        find_device(&None, &sink("a")).unwrap_err().message(),
        "unsupported: renderer discovery is unavailable"
    );
    let outputs = vec![(sink("a"), vec![sink("a"), sink("a-dlna")])];
    assert_eq!(speaker_of(&outputs, &sink("a-dlna")), sink("a"));
    assert_eq!(speaker_of(&outputs, &sink("x")), sink("x"));
    assert!(needs_description(&track()));
}

fn everything() -> Available {
    Available { settings: true, library: true, sessions: vec![Service::Tidal] }
}

fn nothing() -> Available {
    Available { settings: false, library: false, sessions: vec![] }
}

#[test]
fn a_request_becomes_a_plan() {
    let given = everything();
    assert_eq!(
        dispatch(ClientMessage::Seek { position_ms: 1_500 }, &given),
        Plan::Command(Command::Seek(Duration::from_millis(1_500)))
    );
    assert_eq!(dispatch(ClientMessage::Shuffle, &given), Plan::Shuffle);
    assert_eq!(
        dispatch(
            ClientMessage::Enqueue { service: Service::Tidal, track_id: "1".to_string() },
            &given
        ),
        Plan::Track { binding: SourceRef::Tidal { id: "1".to_string() }, append: true }
    );
    assert_eq!(
        dispatch(
            ClientMessage::Search { query: "q".to_string(), service: None, limit: None },
            &given
        ),
        Plan::Library(LibraryCall::Search {
            service: Service::Tidal,
            query: "q".to_string(),
            limit: 10,
        })
    );
    assert_eq!(
        dispatch(
            ClientMessage::Library {
                kind: EntityKind::Album,
                query: None,
                limit: None,
                offset: 3,
            },
            &given
        ),
        Plan::Library(LibraryCall::Page {
            kind: EntityKind::Album,
            query: None,
            limit: 50,
            offset: 3,
        })
    );
    assert_eq!(
        dispatch(ClientMessage::Account { service: None }, &given),
        Plan::Session { service: Service::Tidal, call: SessionCall::Account }
    );
}

#[test]
fn what_is_not_there_is_refused() {
    let refused = |message| match dispatch(message, &nothing()) {
        Plan::Refuse(refusal) => refusal.message(),
        other => panic!("{:?}", other),
    };
    assert_eq!(refused(ClientMessage::Settings), "settings are unavailable");
    assert_eq!(
        refused(ClientMessage::Album { item: ItemRef::Entity { entity: EntityId(1) } }),
        "the library is unavailable"
    );
    assert_eq!(
        refused(ClientMessage::LoginBegin { service: Some(Service::Spotify) }),
        "no session registered for spotify"
    );
    assert_eq!(
        refused(ClientMessage::PlayTrack {
            service: Service::Local,
            track_id: "1".to_string(),
        }),
        "a local track has no id to name it by"
    );
    assert_eq!(
        refuse(Some(4), Refusal::NoSettings),
        ServerMessage::err(Some(4), "settings are unavailable".to_string())
    );
}

#[test]
fn replies_answer_the_request() {
    assert_eq!(
        ServerMessage::reply_to_command(Some(1), Ok(())),
        ServerMessage::ack(Some(1))
    );
    let refused = ServerMessage::reply_to_command(
        Some(1),
        Err(Error::NotFound("no next track".to_string())),
    );
    assert_eq!(
        refused,
        ServerMessage::err(Some(1), "not found: no next track".to_string())
    );
    assert_eq!(
        ServerMessage::bad_request("eof"),
        ServerMessage::err(None, "bad request: eof".to_string())
    );
    assert_eq!(
        ServerMessage::reply(None, Ok(ReplyData::Ack)),
        ServerMessage::ok(None, ReplyData::Ack)
    );
    assert_eq!(ServerMessage::hello(), ServerMessage::Hello { protocol: 1 });
    let tracks = vec![track()];
    let copy = tracks.clone();
    assert_eq!(
        queue_command(tracks, QueueAt::Now, 2),
        Command::Replace { tracks: copy, start: 2 }
    );
    let one = track();
    assert_eq!(track_command(one.clone(), true), Command::Enqueue(one));
}

#[test]
fn settings_are_read_changed_and_kept() {
    let fresh = FileSettings::load("/s.json", FileRead::Missing).unwrap();
    assert_eq!(fresh.get(), Settings::default());
    assert_eq!(
        FileSettings::load("/s.json", FileRead::Garbled("eof".to_string()))
            .unwrap_err()
            .message(),
        "unsupported: unreadable settings at /s.json: eof"
    );
    assert_eq!(
        FileSettings::load("/s.json", FileRead::Failed("denied".to_string()))
            .unwrap_err()
            .message(),
        "denied"
    );
    let mut settings = fresh.get();
    let output = sink("cast-1");
    assert_eq!(settings.output(&output).mode, OutputMode::Flow);
    settings.set_output(&output, OutputSettings { mode: OutputMode::Standard });
    assert_eq!(settings.output(&output).mode, OutputMode::Standard);
    assert_eq!(settings.output(&sink("cast-2")).mode, OutputMode::Flow);
    let mut store = fresh;
    let failed = Err(Error::Io("full".to_string()));
    assert!(store.set(settings.clone(), failed).is_err());
    assert_eq!(store.get(), Settings::default(), "nothing changed");
    store.set(settings.clone(), Ok(())).unwrap();
    assert_eq!(store.get(), settings);
    let again = FileSettings::load("/s.json", FileRead::Settings(settings.clone())).unwrap();
    assert_eq!(again.current, settings);
}

#[test]
fn a_newer_schema_is_refused() {
    assert_eq!(pending(0).unwrap(), vec![1, 2]);
    assert_eq!(pending(NEWEST_SCHEMA).unwrap(), vec![]);
    let error = pending(99).unwrap_err().message();
    assert!(error.contains("newer than this canon"), "{}", error);
}

fn grants() -> Capabilities {
    Capabilities {
        stream: Some(Quality::Lossless),
        catalog: true,
        library_read: false,
        library_write: false,
        recommendations: true,
    }
}

#[test]
fn a_login_polls_until_its_code_expires() {
    let code = DeviceCode {
        user_code: "ABCD".to_string(),
        verification_uri: "https://x".to_string(),
        verification_uri_complete: None,
        expires_in: 10,
        interval: 0,
    };
    let start = Instant { nanos: 0 };
    let mut wait = LoginWait::new(&code, start);
    assert_eq!(wait.next(start), LoginStep::PollAfter { secs: 1 });
    assert!(!wait.polled(LoginStatus::Pending));
    assert!(!wait.polled(LoginStatus::SlowDown));
    let later = start.after(Duration::from_secs(9));
    assert_eq!(wait.next(later), LoginStep::PollAfter { secs: 3 });
    assert_eq!(wait.next(start.after(Duration::from_secs(10))), LoginStep::Expired);
    assert!(wait.polled(LoginStatus::Authorized));
    let account = Account {
        service: Service::Tidal,
        user_id: "1".to_string(),
        username: None,
        attributes: vec![
            ("plan".to_string(), "hifi".to_string()),
            ("country_code".to_string(), "GB".to_string()),
        ],
    };
    assert_eq!(country(&account), "GB");
    assert_eq!(country(&Account { attributes: vec![], ..account }), "?");
}

#[test]
fn a_connection_is_used_for_what_it_grants() {
    let granted = grants();
    assert!(granted.has(Capability::Stream));
    assert!(granted.has(Capability::Catalog));
    assert!(!granted.has(Capability::LibraryRead));
    let error = Error::NotEntitled {
        service: Service::Tidal,
        capability: Capability::Stream,
        hint: "sign in".to_string(),
    };
    assert!(error.message().starts_with("tidal can't "), "{}", error.message());
    assert!(error.message().ends_with(": sign in"), "{}", error.message());
    let connection = ConnectionInfo {
        id: "tidal.pkce".to_string(),
        service: Service::Tidal,
        label: "Tidal (browser)".to_string(),
        grants: granted,
        verified: None,
        health: Health::NeedsLogin,
        account: None,
    };
    let lines = canon::screen::connection_lines(&connection);
    assert_eq!(
        lines,
        vec![
            "  tidal.pkce       Tidal (browser)                  not signed in".to_string(),
            "                   grants: browse, recommendations, streaming up to lossless"
                .to_string(),
        ]
    );
}
