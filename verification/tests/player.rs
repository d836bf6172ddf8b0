use canon::command::{Command, Repeat, Volume};
use canon::id::{EntityId, SourceRef};
use canon::player::{Effect, EngineEvent, Player, PlayerSnapshot};
use canon::position::PositionDrive;
use canon::sink::{RendererState, SinkId, SinkInfo};
use canon::state::{FrameClock, PlaybackState};
use canon::time::{Duration, Instant};
use canon::track::{TrackMeta, TrackRef};

/// A player and the clock on its wall.
struct Bench {
    player: Player,
    now: Instant,
}

impl Bench {
    fn new() -> Bench {
        Bench { player: Player::new(), now: Instant { nanos: 1_000_000_000 } }
    }

    fn wait(&mut self, ms: u64) {
        self.now = self.now.after(Duration::from_millis(ms));
    }

    fn command(&mut self, command: Command) -> Vec<Effect> {
        let (verdict, effects) = self.player.command(command, self.now);
        assert!(verdict.is_ok(), "{:?}", verdict);
        effects
    }

    fn refused(&mut self, command: Command) -> String {
        let (verdict, effects) = self.player.command(command, self.now);
        assert!(effects.is_empty());
        verdict.unwrap_err().message()
    }

    fn engine(&mut self, generation: u64, event: EngineEvent) -> Vec<Effect> {
        self.player.engine(generation, event, self.now)
    }

    fn engine_now(&mut self, event: EngineEvent) -> Vec<Effect> {
        let generation = self.player.generation();
        self.engine(generation, event)
    }

    fn snapshot(&self) -> PlayerSnapshot {
        self.player.snapshot(self.now)
    }
}

fn meta(title: &str, duration_ms: Option<u64>) -> TrackMeta {
    TrackMeta {
        title: title.to_string(),
        artists: vec![],
        album: None,
        duration_ms,
        artwork_url: None,
    }
}

fn track(title: &str, duration_ms: u64) -> TrackRef {
    TrackRef {
        id: EntityId::new(),
        meta: meta(title, Some(duration_ms)),
        sources: vec![SourceRef::Tidal { id: "1".to_string() }],
    }
}

fn loaded(sample_rate: u32, drive: PositionDrive) -> EngineEvent {
    EngineEvent::Loaded { sample_rate, duration_ms: None, start_ms: 0, drive }
}

fn started(effects: &Vec<Effect>) -> (u64, String, Duration) {
    assert_eq!(effects.len(), 1, "{:?}", effects);
    match &effects[0] {
        Effect::Start { generation, track, position } => {
            (*generation, track.meta.title.clone(), *position)
        }
        other => panic!("expected a start, got {:?}", other),
    }
}

fn prepared(effects: &Vec<Effect>) -> (u64, u64, String) {
    assert_eq!(effects.len(), 1, "{:?}", effects);
    match &effects[0] {
        Effect::Prepare { generation, next_generation, track } => {
            (*generation, *next_generation, track.meta.title.clone())
        }
        other => panic!("expected a prepare, got {:?}", other),
    }
}

#[test]
fn frame_clock_math() {
    let mut clock = FrameClock::new();
    assert_eq!(clock.position_ms(), 0);

    clock.reset(48_000);
    clock.advance(48_000);
    assert_eq!(clock.position_ms(), 1000);

    let epoch = clock.epoch();
    clock.seek(Duration::from_secs(2));
    assert_eq!(clock.position_ms(), 2000);
    assert_eq!(clock.epoch(), epoch + 1);

    let frames = clock.frames();
    let epoch = clock.epoch();
    clock.mark_device_change();
    assert_eq!(clock.frames(), frames);
    assert_eq!(clock.epoch(), epoch + 1);
}

#[test]
fn a_clock_without_a_rate_cannot_be_sought() {
    let mut clock = FrameClock::new();
    clock.seek(Duration::from_secs(2));
    assert_eq!(clock, FrameClock::new());
    clock.reset(44_100);
    clock.seek(Duration::from_millis(1_500));
    assert_eq!(clock.frames(), 66_150);
    assert_eq!(clock.position_ms(), 1_500);
}

#[test]
fn a_rebased_clock_counts_from_the_join() {
    let mut clock = FrameClock::new();
    clock.reset(48_000);
    clock.advance(100_000);
    let epoch = clock.epoch();
    clock.rebase(96_000);
    assert_eq!(clock.frames(), 4_000);
    assert_eq!(clock.epoch(), epoch + 1);
}

#[test]
fn lifecycle_transitions() {
    let mut bench = Bench::new();
    bench.command(Command::Load(track("t", 1000)));
    let loading = bench.snapshot();
    assert_eq!(loading.state, PlaybackState::Loading);
    assert_eq!(loading.duration_ms, Some(1000));

    bench.engine_now(loaded(44_100, PositionDrive::Frames));
    let playing = bench.snapshot();
    assert!(playing.seq > loading.seq);
    assert_eq!(playing.state, PlaybackState::Playing);
    assert_eq!(playing.rate, 1);

    bench.command(Command::Pause);
    let paused = bench.snapshot();
    assert!(paused.seq > playing.seq);
    assert_eq!(paused.state, PlaybackState::Paused);
    assert_eq!(paused.rate, 0);

    bench.command(Command::Play);
    let resumed = bench.snapshot();
    assert!(resumed.seq > paused.seq);
    assert_eq!(resumed.state, PlaybackState::Playing);

    bench.command(Command::Stop);
    let stopped = bench.snapshot();
    assert!(stopped.seq > resumed.seq);
    assert_eq!(stopped.state, PlaybackState::Idle);
    assert!(stopped.track.is_none());
    assert_eq!(stopped.position_ms, 0);
}

#[test]
fn device_change_reemits_with_continuous_position() {
    let mut bench = Bench::new();
    bench.command(Command::Load(track("t", 5000)));
    bench.engine_now(loaded(48_000, PositionDrive::Frames));
    let playing = bench.snapshot();
    assert_eq!(playing.state, PlaybackState::Playing);

    bench.player.advance(48_000);
    bench.engine_now(EngineEvent::DeviceChanged);

    let after = bench.snapshot();
    assert_eq!(after.state, PlaybackState::Playing);
    assert!(after.seq > playing.seq);
    assert!(after.position_ms >= 1000 && after.position_ms < 1100);
}

#[test]
fn sink_failure_falls_back_to_local_and_resumes() {
    let mut bench = Bench::new();
    let (generation, _, _) = started(&bench.command(Command::Load(track("t", 60_000))));
    bench.engine(generation, loaded(48_000, PositionDrive::Frames));
    let moved = bench.command(Command::SelectSink(SinkId("cast-1".to_string())));
    started(&moved);
    bench.player.advance(5 * 48_000);

    let before = bench.snapshot().seq;
    let effects = bench.player.sink_failed(SinkId("cast-1".to_string()), bench.now);
    let (_, title, _) = started(&effects);
    assert_eq!(title, "t");
    let recovered = bench.snapshot();
    assert!(recovered.seq > before);
    assert_eq!(recovered.sink, Some(SinkInfo::local().id));
    assert_eq!(recovered.state, PlaybackState::Loading);
}

#[test]
fn enqueueing_while_playing_is_a_transition() {
    let mut bench = Bench::new();
    let (generation, title, _) = started(&bench.command(Command::Enqueue(track("a", 1_000))));
    assert_eq!(title, "a", "enqueueing into an idle player starts it");
    bench.engine(generation, loaded(44_100, PositionDrive::Frames));
    let playing = bench.snapshot();

    let effects = bench.command(Command::Enqueue(track("b", 1_000)));
    let grown = bench.snapshot();
    assert!(grown.seq > playing.seq);
    assert_eq!(grown.queue.len, 2);
    assert!(grown.queue.revision > playing.queue.revision);
    assert_eq!(grown.state, PlaybackState::Playing, "the new entry waits its turn");
    let titles: Vec<String> =
        bench.player.queue().tracks.iter().map(|t| t.meta.title.clone()).collect();
    assert_eq!(titles, ["a", "b"]);
    assert!(effects.is_empty(), "nothing new to start");
}

#[test]
fn the_end_of_a_track_advances_the_queue() {
    let mut bench = Bench::new();
    let (first, _, _) = started(&bench.command(Command::Enqueue(track("a", 1_000))));
    bench.command(Command::Enqueue(track("b", 1_000)));

    let (second, title, position) = started(&bench.engine(first, EngineEvent::Ended));
    assert_eq!((title.as_str(), position), ("b", Duration::zero()));
    assert!(second > first);

    bench.engine(second, EngineEvent::Ended);
    assert_eq!(bench.snapshot().state, PlaybackState::Ended);
    assert_eq!(bench.snapshot().queue.index, 1);
}

#[test]
fn an_end_from_a_playback_we_left_is_ignored() {
    let mut bench = Bench::new();
    let (first, _, _) = started(&bench.command(Command::Enqueue(track("a", 1_000))));
    bench.command(Command::Enqueue(track("b", 1_000)));
    bench.command(Command::Enqueue(track("c", 1_000)));
    let (second, title, _) = started(&bench.command(Command::Next));
    assert_eq!(title, "b");

    assert!(bench.engine(first, EngineEvent::Ended).is_empty());
    assert_eq!(bench.command(Command::SetMuted(true)), vec![Effect::SetMuted(true)]);
    assert_eq!(bench.snapshot().queue.index, 1, "still on b");
    assert!(second > first);
}

#[test]
fn impossible_commands_are_refused() {
    let mut bench = Bench::new();
    bench.refused(Command::Next);
    bench.refused(Command::Previous);
    bench.refused(Command::Seek(Duration::from_secs(5)));
    bench.command(Command::Load(track("only", 1_000)));
    bench.refused(Command::Next);
}

#[test]
fn a_command_that_changes_nothing_is_not_a_transition() {
    let mut bench = Bench::new();
    bench.command(Command::Pause);
    bench.command(Command::Stop);
    bench.command(Command::SetVolume(Volume::full()));
    let effects = bench.command(Command::SetMuted(true));
    assert_eq!(bench.snapshot().seq, 1, "only the mute was a transition");
    assert_eq!(effects, vec![Effect::SetMuted(true)]);
}

#[test]
fn stop_halts_and_keeps_the_queue() {
    let mut bench = Bench::new();
    let (first, _, _) = started(&bench.command(Command::Enqueue(track("a", 1_000))));
    let effects = bench.command(Command::Stop);
    match &effects[0] {
        Effect::Halt { generation } => assert!(*generation > first),
        other => panic!("expected a halt, got {:?}", other),
    }
    assert_eq!(bench.snapshot().state, PlaybackState::Idle);
    assert_eq!(bench.player.queue().tracks.len(), 1);
}

#[test]
fn resolved_metadata_is_written_back_into_the_queue() {
    let mut bench = Bench::new();
    let bare = TrackRef { id: EntityId::new(), meta: meta("", None), sources: vec![] };
    let (generation, _, _) = started(&bench.command(Command::Load(bare)));
    bench.engine(generation, EngineEvent::Described(meta("Army of Me", Some(234_000))));
    bench.command(Command::SetMuted(true));
    assert_eq!(bench.player.queue().tracks[0].meta.title, "Army of Me");
    let snapshot = bench.snapshot();
    assert_eq!(snapshot.duration_ms, Some(234_000));
    assert_eq!(snapshot.track.unwrap().meta.title, "Army of Me");
}

#[test]
fn a_renderer_stream_is_loading_until_the_device_says_otherwise() {
    let mut bench = Bench::new();
    bench.command(Command::Load(track("t", 300_000)));
    bench.engine_now(loaded(44_100, PositionDrive::Renderer));
    let opened = bench.snapshot();
    assert_eq!(opened.state, PlaybackState::Loading);

    bench.engine_now(EngineEvent::RendererState(RendererState::Playing));
    let playing = bench.snapshot();
    assert!(playing.seq > opened.seq);
    assert_eq!(playing.state, PlaybackState::Playing);
}

#[test]
fn frames_fed_are_not_position_on_a_renderer() {
    let mut bench = Bench::new();
    bench.command(Command::Load(track("t", 300_000)));
    bench.engine_now(loaded(48_000, PositionDrive::Renderer));

    bench.player.advance(4 * 48_000);
    bench.engine_now(EngineEvent::RendererState(RendererState::Playing));
    assert!(bench.snapshot().position_ms < 500);

    bench.engine_now(EngineEvent::RendererPosition(Duration::from_secs(30)));
    assert!(bench.snapshot().position_ms >= 29_000);
}

#[test]
fn reconciling_position_is_not_a_transition() {
    let mut bench = Bench::new();
    bench.command(Command::Load(track("t", 300_000)));
    bench.engine_now(loaded(44_100, PositionDrive::Renderer));
    bench.engine_now(EngineEvent::RendererState(RendererState::Playing));
    let playing = bench.snapshot();
    for tick in 1..=4 {
        bench.engine_now(EngineEvent::RendererPosition(Duration::from_millis(tick * 500)));
    }
    bench.command(Command::Pause);
    assert_eq!(bench.snapshot().seq, playing.seq + 1);
}

#[test]
fn a_restated_renderer_condition_is_absorbed_not_a_transition() {
    let mut bench = Bench::new();
    bench.command(Command::Load(track("t", 300_000)));
    bench.engine_now(loaded(44_100, PositionDrive::Renderer));
    assert_eq!(bench.snapshot().state, PlaybackState::Loading);
    bench.engine_now(EngineEvent::RendererState(RendererState::Playing));
    let playing = bench.snapshot();
    assert_eq!(playing.state, PlaybackState::Playing);
    for _ in 0..4 {
        bench.engine_now(EngineEvent::RendererState(RendererState::Playing));
    }
    bench.command(Command::Stop);
    assert_eq!(bench.snapshot().seq, playing.seq + 1);
}

#[test]
fn a_renderer_report_is_relative_to_the_stream_it_was_given() {
    let mut bench = Bench::new();
    bench.command(Command::Load(track("t", 300_000)));
    bench.engine_now(EngineEvent::Loaded {
        sample_rate: 44_100,
        duration_ms: None,
        start_ms: 47_000,
        drive: PositionDrive::Renderer,
    });
    assert_eq!(bench.snapshot().position_ms, 47_000);

    bench.engine_now(EngineEvent::RendererState(RendererState::Playing));
    let playing = bench.snapshot();
    bench.engine_now(EngineEvent::RendererPosition(Duration::from_secs(4)));
    let reconciled = bench.snapshot();
    assert_eq!(reconciled.seq, playing.seq);
    assert!(reconciled.position_ms >= 50_000);
}

#[test]
fn a_renderer_report_after_stop_is_not_news() {
    let mut bench = Bench::new();
    bench.command(Command::Load(track("t", 300_000)));
    bench.engine_now(loaded(44_100, PositionDrive::Renderer));
    bench.command(Command::Stop);
    let stopped = bench.snapshot();
    assert_eq!(stopped.state, PlaybackState::Idle);

    bench.engine_now(EngineEvent::RendererState(RendererState::Playing));
    bench.engine_now(EngineEvent::RendererPosition(Duration::from_secs(9)));
    bench.command(Command::SetMuted(true));
    let after = bench.snapshot();
    assert_eq!(after.seq, stopped.seq + 1);
    assert_eq!(after.state, PlaybackState::Idle);
    assert_eq!(after.position_ms, 0);
}

#[test]
fn position_never_runs_past_the_end_of_the_track() {
    let mut bench = Bench::new();
    bench.command(Command::Load(track("t", 10_000)));
    bench.engine_now(loaded(44_100, PositionDrive::Renderer));
    bench.engine_now(EngineEvent::RendererState(RendererState::Playing));
    bench.engine_now(EngineEvent::RendererPosition(Duration::from_secs(12)));
    assert_eq!(bench.snapshot().position_ms, 10_000);
}

/// Two entries on the local output, the first already within the preload lead of its end.
fn near_the_end_of_a(bench: &mut Bench) -> u64 {
    let (generation, _, _) = started(&bench.command(Command::Enqueue(track("a", 10_000))));
    bench.command(Command::Enqueue(track("b", 200_000)));
    bench.engine(generation, loaded(48_000, PositionDrive::Frames));
    generation
}

#[test]
fn the_next_entry_is_prepared_near_the_end_of_a_track() {
    let mut bench = Bench::new();
    let current = near_the_end_of_a(&mut bench);
    bench.wait(250);
    let (generation, next_generation, title) = prepared(&bench.player.tick(bench.now).0);
    assert_eq!((generation, title.as_str()), (current, "b"));
    assert!(next_generation > current);
    for _ in 0..3 {
        bench.wait(250);
        assert!(bench.player.tick(bench.now).0.is_empty(), "prepared once, not on every tick");
    }
}

#[test]
fn crossing_into_the_prepared_entry_moves_the_queue_on_without_a_restart() {
    let mut bench = Bench::new();
    let current = near_the_end_of_a(&mut bench);
    bench.wait(250);
    let (_, next, _) = prepared(&bench.player.tick(bench.now).0);
    bench.engine(next, EngineEvent::Described(meta("b, described", Some(200_000))));

    let before = bench.snapshot().seq;
    let effects = bench.engine(current, EngineEvent::Advanced { to: next });
    let crossed = bench.snapshot();
    assert!(crossed.seq > before);
    assert_eq!(crossed.state, PlaybackState::Playing, "no loading between tracks");
    assert_eq!(crossed.queue.index, 1);
    assert_eq!(crossed.track.unwrap().meta.title, "b, described");
    assert_eq!(crossed.duration_ms, Some(200_000));
    assert!(effects.is_empty(), "nothing was started or stopped");

    bench.engine(current, EngineEvent::Ended);
    assert_eq!(bench.snapshot().state, PlaybackState::Playing);
    bench.engine(next, EngineEvent::Ended);
    assert_eq!(bench.snapshot().state, PlaybackState::Ended);
}

#[test]
fn a_skip_abandons_the_prepared_entry() {
    let mut bench = Bench::new();
    let current = near_the_end_of_a(&mut bench);
    bench.wait(250);
    let (_, next, _) = prepared(&bench.player.tick(bench.now).0);

    let (started_generation, title, _) = started(&bench.command(Command::Next));
    assert_eq!(title, "b");
    assert_ne!(started_generation, next, "a fresh playback, never the abandoned one's");

    assert!(bench.engine(current, EngineEvent::Advanced { to: next }).is_empty());
    assert_eq!(bench.command(Command::SetMuted(true)), vec![Effect::SetMuted(true)]);
    assert_eq!(bench.snapshot().queue.index, 1);
}

/// Open a renderer stream and bring it to playing, for the confirmation-window tests.
fn playing_on_a_renderer(bench: &mut Bench) {
    bench.command(Command::Load(track("t", 300_000)));
    bench.engine_now(loaded(44_100, PositionDrive::Renderer));
    bench.engine_now(EngineEvent::RendererState(RendererState::Playing));
    assert_eq!(bench.snapshot().state, PlaybackState::Playing);
}

#[test]
fn a_report_older_than_a_pause_does_not_undo_it() {
    let mut bench = Bench::new();
    playing_on_a_renderer(&mut bench);
    bench.command(Command::Pause);
    let paused = bench.snapshot().seq;
    bench.engine_now(EngineEvent::RendererState(RendererState::Playing));
    bench.engine_now(EngineEvent::RendererState(RendererState::Paused));
    bench.command(Command::SetMuted(true));
    let after = bench.snapshot();
    assert_eq!(after.state, PlaybackState::Paused);
    assert_eq!(after.seq, paused + 1, "only the mute moved seq; no flicker");
}

#[test]
fn a_report_older_than_a_play_does_not_undo_it() {
    let mut bench = Bench::new();
    playing_on_a_renderer(&mut bench);
    bench.command(Command::Pause);
    bench.engine_now(EngineEvent::RendererState(RendererState::Paused));
    bench.command(Command::Play);
    bench.engine_now(EngineEvent::RendererState(RendererState::Paused));
    bench.command(Command::SetMuted(true));
    assert_eq!(bench.snapshot().state, PlaybackState::Playing);
}

#[test]
fn a_device_that_ignored_the_pause_is_believed_after_the_window() {
    let mut bench = Bench::new();
    playing_on_a_renderer(&mut bench);
    bench.command(Command::Pause);
    bench.wait(canon::player::CONFIRM_WINDOW_MS + 1);
    bench.engine_now(EngineEvent::RendererState(RendererState::Playing));
    bench.command(Command::SetMuted(true));
    assert_eq!(bench.snapshot().state, PlaybackState::Playing);
}

#[test]
fn rebuffering_freezes_position_instead_of_zeroing_it() {
    let mut bench = Bench::new();
    bench.command(Command::Load(track("t", 300_000)));
    bench.engine_now(loaded(44_100, PositionDrive::Renderer));
    bench.engine_now(EngineEvent::RendererState(RendererState::Playing));
    bench.engine_now(EngineEvent::RendererPosition(Duration::from_secs(45)));
    bench.engine_now(EngineEvent::RendererState(RendererState::Buffering));
    let buffering = bench.snapshot();
    assert_eq!(buffering.state, PlaybackState::Loading);
    assert!(buffering.position_ms >= 44_000);
    bench.wait(60);
    assert!(bench.snapshot().position_ms < 46_000);
}

#[test]
fn the_queue_is_edited_in_place() {
    let mut bench = Bench::new();
    let tracks = vec![track("a", 1), track("b", 1), track("c", 1), track("d", 1)];
    let (_, title, _) = started(&bench.command(Command::Replace { tracks, start: 1 }));
    assert_eq!(title, "b");
    bench.command(Command::PlayNext(vec![track("x", 1), track("y", 1)]));
    bench.command(Command::Move { from: 0, to: 5 });
    let titles: Vec<String> =
        bench.player.queue().tracks.iter().map(|t| t.meta.title.clone()).collect();
    assert_eq!(titles, ["b", "x", "y", "c", "d", "a"]);
    assert_eq!(bench.snapshot().queue.index, 0);
    bench.command(Command::Remove(1));
    bench.command(Command::Shuffle { draws: vec![2, 1, 0, 0] });
    let titles: Vec<String> =
        bench.player.queue().tracks.iter().map(|t| t.meta.title.clone()).collect();
    assert_eq!(titles.len(), 5);
    assert_eq!(titles[0], "b", "the current entry stays where it is");
    assert_eq!(bench.refused(Command::Jump(9)), "not found: no entry 9 in the queue");
    bench.command(Command::Clear);
    assert_eq!(bench.snapshot().queue.len, 0);
}

#[test]
fn repeating_goes_round() {
    let mut bench = Bench::new();
    let tracks = vec![track("a", 1), track("b", 1)];
    let (generation, _, _) = started(&bench.command(Command::Replace { tracks, start: 1 }));
    bench.command(Command::SetRepeat(Repeat::All));
    let (generation, title, _) = started(&bench.engine(generation, EngineEvent::Ended));
    assert_eq!(title, "a");
    bench.command(Command::SetRepeat(Repeat::One));
    let (_, title, _) = started(&bench.engine(generation, EngineEvent::Ended));
    assert_eq!(title, "a");
}

#[test]
fn a_volume_is_held_at_full_scale() {
    let mut bench = Bench::new();
    let effects = bench.command(Command::SetVolume(Volume { bits: 0.25f32.to_bits() }));
    assert_eq!(effects, vec![Effect::SetVolume(Volume { bits: 0.25f32.to_bits() })]);
    let effects = bench.command(Command::SetVolume(Volume { bits: 2.0f32.to_bits() }));
    assert_eq!(effects, vec![Effect::SetVolume(Volume::full())]);
    assert_eq!(bench.snapshot().volume, Volume::full());
}

#[test]
fn a_confirmed_pause_leaves_the_device_believed_at_once() {
    let mut bench = Bench::new();
    playing_on_a_renderer(&mut bench);
    bench.command(Command::Pause);
    bench.engine_now(EngineEvent::RendererState(RendererState::Paused));
    bench.engine_now(EngineEvent::RendererState(RendererState::Playing));
    assert_eq!(bench.snapshot().state, PlaybackState::Playing);
}

#[test]
fn the_window_of_a_pause_is_exact() {
    let mut bench = Bench::new();
    playing_on_a_renderer(&mut bench);
    bench.command(Command::Pause);
    bench.wait(canon::player::CONFIRM_WINDOW_MS - 1);
    bench.engine_now(EngineEvent::RendererState(RendererState::Playing));
    assert_eq!(bench.snapshot().state, PlaybackState::Paused);
    bench.wait(1);
    bench.engine_now(EngineEvent::RendererState(RendererState::Playing));
    assert_eq!(bench.snapshot().state, PlaybackState::Playing);
}

#[test]
fn generations_only_go_up() {
    let mut bench = Bench::new();
    let mut handed_out: Vec<u64> = Vec::new();
    let mut note = |effects: &Vec<Effect>| {
        for effect in effects {
            match effect {
                Effect::Start { generation, .. } | Effect::Halt { generation } => {
                    handed_out.push(*generation)
                }
                Effect::Prepare { next_generation, .. } => handed_out.push(*next_generation),
                _ => {}
            }
        }
    };
    note(&bench.command(Command::Enqueue(track("a", 10_000))));
    note(&bench.command(Command::Enqueue(track("b", 200_000))));
    note(&bench.engine_now(loaded(48_000, PositionDrive::Frames)));
    note(&bench.player.tick(bench.now).0);
    note(&bench.command(Command::SetRepeat(Repeat::All)));
    note(&bench.player.tick(bench.now).0);
    note(&bench.command(Command::Next));
    note(&bench.command(Command::Stop));
    note(&bench.command(Command::Jump(0)));
    assert_eq!(handed_out, vec![1, 2, 3, 4, 5, 6]);
}
