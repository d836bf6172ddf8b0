use canon::command::{Volume, FULL_VOLUME};
use canon::decoding::{
    first_frames, first_packet, next_frames, next_packet, DecodeError, Decoded, Handle, OpenFault,
    Packet, SeekableInput, Tally, TrackParams,
};
use canon::engine::{
    cross_if_reached, heard, pace, AudioPlayer, Controls, Crossing, FeedEvent, Feeding, LocalFeed,
    NetworkFeed, Prepared,
};
use canon::output::{
    choose_config, pick_output_config, resolve_device, Chosen, Device, Devices, OutputDefault,
    OutputRange, PlayError, PlayStats, Reopen, Reopening, REOPEN_ATTEMPTS,
};
use canon::player::EngineEvent;
use canon::position::PositionDrive;
use canon::ring::{
    drained, frames_of, played, pull, push_samples, push_step, ring, ring_capacity, Push,
};
use canon::state::FrameClock;
use canon::time::{Duration, Instant};
use canon::track::Codec;

fn range(channels: u16, float: bool, lowest: u32, highest: u32) -> OutputRange {
    OutputRange { channels, float, lowest, highest }
}

#[test]
fn a_ring_holds_half_a_second_of_audio() {
    assert_eq!(ring_capacity(44_100, 2), 44_100);
    assert_eq!(ring_capacity(1, 2), 2, "never less than a frame");
}

#[test]
fn samples_come_out_of_a_ring_as_they_went_in() {
    let (mut producer, mut consumer) = ring(4, 2);
    assert!(drained(&producer));
    let samples = vec![1, 2, 3, 4, 5, 6];
    let at = push_samples(&mut producer, &samples, 0);
    assert_eq!(at, 4, "a full ring takes no more");
    assert!(!drained(&producer));
    let mut filled = 0;
    assert_eq!(pull(&mut consumer, &mut filled), 1);
    assert_eq!(pull(&mut consumer, &mut filled), 2);
    assert_eq!(filled, 2);
    assert_eq!(push_samples(&mut producer, &samples, at), 6);
    for expected in [3, 4, 5, 6] {
        assert_eq!(pull(&mut consumer, &mut filled), expected);
    }
    assert!(drained(&producer));
    assert_eq!(pull(&mut consumer, &mut filled), 0, "silence while the ring is empty");
    assert_eq!(filled, 6);
    assert_eq!(frames_of(filled, 2), 3);
}

#[test]
fn a_push_parks_on_a_full_ring_and_gives_up_when_told() {
    assert_eq!(push_step(4, 4, true, true), Push::Done);
    assert_eq!(push_step(3, 4, false, false), Push::Park);
    assert_eq!(push_step(3, 4, true, false), Push::Interrupted);
    assert_eq!(push_step(3, 4, false, true), Push::Interrupted);
}

#[test]
fn the_source_rate_is_preferred() {
    let ranges = vec![
        range(2, false, 8_000, 192_000),
        range(2, true, 48_000, 96_000),
        range(2, true, 44_100, 44_100),
    ];
    let own = Some(OutputDefault { channels: 2, float: true, rate: 48_000 });
    assert_eq!(
        choose_config(&ranges, own, 44_100, 2),
        Ok(Chosen::Range { at: 2, rate: 44_100 })
    );
    assert_eq!(choose_config(&ranges, own, 22_050, 2), Ok(Chosen::Default { rate: 48_000 }));
    assert_eq!(
        choose_config(&ranges, None, 22_050, 2),
        Ok(Chosen::Range { at: 1, rate: 96_000 })
    );
    let error = choose_config(&ranges, own, 44_100, 6).unwrap_err();
    assert_eq!(
        error.message(),
        "unsupported output format: device has no f32 output config for 6 channels"
    );
    assert_eq!(pick_output_config(&ranges, 44_100, 2), Ok(2));
    assert_eq!(
        pick_output_config(&ranges, 22_050, 2).unwrap_err().message(),
        "unsupported output format: default device has no f32 config for 22050 Hz / 2 ch \
         (resampling not yet implemented)"
    );
}

#[test]
fn a_device_is_found_again_by_name() {
    let devices = Devices {
        names: vec![None, Some("Desk".to_string()), Some("Sofa".to_string())],
        default: Some(Some("Desk".to_string())),
    };
    assert_eq!(resolve_device(Some("Sofa"), &devices), Ok(Device::Same(2)));
    assert_eq!(
        resolve_device(Some("Gone"), &devices),
        Ok(Device::Default("Desk".to_string()))
    );
    let nameless = Devices { names: vec![], default: Some(None) };
    assert_eq!(
        resolve_device(None, &nameless),
        Ok(Device::Default("default".to_string()))
    );
    let none = Devices { names: vec![], default: None };
    assert_eq!(resolve_device(None, &none), Err(PlayError::NoDevice));
}

#[test]
fn a_device_that_stays_away_is_given_up_on() {
    let mut opening = Reopening::new();
    for _ in 0..REOPEN_ATTEMPTS {
        let (step, same) = opening.next(false);
        assert_eq!(step, Reopen::Open);
        opening = same;
        let wait = opening.failed(PlayError::Device("busy".to_string()));
        assert_eq!(wait, Duration::from_millis(250));
    }
    let (step, _) = opening.next(false);
    assert_eq!(step, Reopen::GiveUp(PlayError::Device("busy".to_string())));
    let (step, _) = Reopening::new().next(true);
    assert_eq!(
        step,
        Reopen::GiveUp(PlayError::Device("stopped while opening device".to_string()))
    );
}

#[test]
fn errors_say_what_went_wrong() {
    let say = |e: PlayError| e.message();
    assert_eq!(say(PlayError::Io("gone".to_string())), "io: gone");
    assert_eq!(say(PlayError::NoDevice), "no default audio output device");
    assert_eq!(say(PlayError::Device("busy".to_string())), "audio device: busy");
    assert_eq!(
        OpenFault::NoDecoder("mp3".to_string()).into_error().message(),
        "decode: no decoder: mp3"
    );
    assert_eq!(OpenFault::NoTrack.into_error().message(), "decode: no audio track");
    assert_eq!(
        DecodeError::Io("x".to_string()).message(),
        "io error preparing media source: x"
    );
    assert_eq!(DecodeError::NoAudioTrack.message(), "no audio track in container");
    assert_eq!(
        DecodeError::MissingCodecParams.message(),
        "audio track missing codec parameters"
    );
    assert_eq!(
        DecodeError::UnsupportedCodec("x".to_string()).message(),
        "no decoder for codec: x"
    );
    assert_eq!(DecodeError::Probe("x".to_string()).message(), "format probe failed: x");
}

#[test]
fn the_first_frames_tell_the_format() {
    assert_eq!(first_packet(1, Packet::Of(1)), Ok(Handle::Decode));
    assert_eq!(first_packet(1, Packet::Of(2)), Ok(Handle::Skip));
    assert_eq!(
        first_packet(1, Packet::End).unwrap_err().message(),
        "decode: stream had no audio"
    );
    assert_eq!(
        first_packet(1, Packet::Reset("reset".to_string())).unwrap_err().message(),
        "decode: demux: reset"
    );
    let audio = Decoded::Audio { rate: 44_100, channels: 2, frames: 10 };
    assert_eq!(first_frames(audio), Ok(Some((44_100, 2))));
    assert_eq!(first_frames(Decoded::Damaged("x".to_string())), Ok(None));
    let silent = Decoded::Audio { rate: 0, channels: 2, frames: 10 };
    assert_eq!(
        first_frames(silent).unwrap_err().message(),
        "decode: stream reported no rate/channels"
    );
    assert_eq!(next_packet(1, Packet::Reset("reset".to_string())), Ok(Handle::Finish));
    assert_eq!(next_frames(Decoded::Unreadable("x".to_string())), Ok(false));
    assert_eq!(
        next_frames(Decoded::Failed("x".to_string())).unwrap_err().message(),
        "decode: decode: x"
    );
}

#[test]
fn a_run_over_a_stream_is_counted() {
    let mut tally = Tally::new(TrackParams {
        track: 1,
        codec: Codec::Flac,
        bits_per_sample: Some(300),
        sample_rate: None,
        channels: Some(2),
    });
    assert_eq!(tally.packet(Packet::Of(3)), Ok(Handle::Skip));
    assert_eq!(tally.packet(Packet::Of(1)), Ok(Handle::Decode));
    tally.decoded(Decoded::Audio { rate: 44_100, channels: 1, frames: 4_096 }).unwrap();
    tally.decoded(Decoded::Damaged("x".to_string())).unwrap();
    assert_eq!(tally.packet(Packet::End), Ok(Handle::Finish));
    let summary = tally.summary;
    assert_eq!(summary.sample_rate, 44_100);
    assert_eq!(summary.channels, 2, "what the container advertised stands");
    assert_eq!(summary.bit_depth, Some(255));
    assert_eq!(summary.frames_decoded, 4_096);
    assert_eq!((summary.packets, summary.decode_errors), (2, 1));
    assert_eq!(
        tally.decoded(Decoded::Failed("x".to_string())),
        Err(DecodeError::Demux("x".to_string()))
    );
}

#[test]
fn an_input_is_measured_from_where_it_stood() {
    assert_eq!(SeekableInput::new((), 10, 110).byte_len(), Some(100));
    assert_eq!(SeekableInput::new((), 110, 10).byte_len(), Some(0));
    assert!(SeekableInput::new((), 0, 0).is_seekable());
}

#[test]
fn a_played_stream_is_counted_in_frames() {
    let mut stats = PlayStats::begun(44_100, 2);
    stats.hand_over(1_001);
    stats.hand_over(3);
    assert_eq!(stats.frames_played, 501);
}

fn playing() -> Controls {
    AudioPlayer::start().controls
}

#[test]
fn a_playback_is_loaded_once_and_reopened_after() {
    let mut feed = LocalFeed::new(44_100, 2, 1_000);
    let mut controls = playing();
    controls.device_failed = true;
    assert!(feed.session(&mut controls));
    assert!(!controls.device_failed);
    assert_eq!(
        feed.opened(48_000),
        FeedEvent::Loaded {
            sample_rate: 48_000,
            start_ms: 1_000,
            drive: PositionDrive::Frames,
            joins: true,
        }
    );
    assert!(feed.resamples());
    assert_eq!(feed.fed, 48_000);
    assert_eq!(feed.pushed(true, 960, &controls), Feeding::Decode);
    assert_eq!(feed.fed, 48_480);
    controls.device_failed = true;
    let mut clock = FrameClock::new();
    assert_eq!(feed.feed(&controls, &mut clock), (Feeding::Reopen, None));
    assert_eq!(feed.pushed(false, 960, &controls), Feeding::Reopen);
    assert!(feed.session(&mut controls));
    assert_eq!(feed.opened(44_100), FeedEvent::DeviceChanged);
    assert_eq!(feed.fed, 48_480, "the decoder keeps its place");
    controls.stopped = true;
    assert!(!feed.session(&mut controls));
}

#[test]
fn a_successor_of_the_same_format_is_joined_on() {
    let mut player = AudioPlayer::start();
    let mut feed = LocalFeed::new(44_100, 2, 0);
    feed.opened(44_100);
    feed.pushed(true, 2_000, &player.controls);
    player.prepare_next(Prepared { source_rate: 44_100, channels: 2, to: 9 });
    assert_eq!(feed.end_of_track(&mut player.next), Some(9));
    assert_eq!(feed.fed, 0);
    assert_eq!(feed.crossing, Some(Crossing { boundary: 1_000, to: 9 }));

    player.prepare_next(Prepared { source_rate: 44_100, channels: 2, to: 10 });
    assert_eq!(feed.end_of_track(&mut player.next), None, "one join in flight at a time");

    let mut clock = FrameClock::new();
    clock.reset(44_100);
    clock.advance(999);
    assert_eq!(feed.feed(&player.controls, &mut clock), (Feeding::Decode, None));
    clock.advance(3);
    assert_eq!(
        feed.feed(&player.controls, &mut clock),
        (Feeding::Decode, Some(FeedEvent::Advanced { to: 9 }))
    );
    assert_eq!(clock.frames(), 2);

    player.prepare_next(Prepared { source_rate: 48_000, channels: 2, to: 11 });
    assert_eq!(feed.end_of_track(&mut player.next), None, "a format change is a break");
    assert_eq!(player.next.prepared, None);
}

#[test]
fn a_successor_given_up_on_is_not_joined() {
    let mut player = AudioPlayer::start();
    let next = Prepared { source_rate: 44_100, channels: 2, to: 9 };
    player.prepare_next(next);
    player.cancel_next(8);
    assert_eq!(player.next.prepared, Some(next));
    player.cancel_next(9);
    assert_eq!(player.next.prepared, None);
    player.prepare_next(next);
    assert_eq!(player.next.prepared, None, "still being opened when it was given up on");
}

#[test]
fn a_playback_ends_when_it_has_been_heard() {
    let controls = playing();
    let mut feed = LocalFeed::new(44_100, 2, 0);
    let mut clock = FrameClock::new();
    assert_eq!(feed.drain(false, &controls, &mut clock), (Feeding::Nap, None));
    assert_eq!(feed.drain(true, &controls, &mut clock), (Feeding::Tail, None));
    feed.crossing = Some(Crossing { boundary: 5, to: 3 });
    assert_eq!(
        feed.finish(&controls, &mut clock),
        (Some(FeedEvent::Advanced { to: 3 }), Some(FeedEvent::Ended))
    );
    let broken = Controls { device_failed: true, ..controls };
    assert_eq!(feed.drain(false, &broken, &mut clock), (Feeding::Tail, None));
    assert_eq!(feed.finish(&broken, &mut clock), (None, None));
    let mut crossing = None;
    assert_eq!(cross_if_reached(&mut crossing, &mut clock), None);
}

#[test]
fn controls_take_effect() {
    let mut player = AudioPlayer::start();
    assert_eq!(player.controls.gain(), Volume { bits: FULL_VOLUME });
    player.set_volume(Volume { bits: 5 });
    player.set_muted(true);
    assert_eq!(player.controls.gain(), Volume { bits: 0 });
    player.set_muted(false);
    assert_eq!(player.controls.gain(), Volume { bits: 5 });
    player.pause();
    assert!(player.controls.silent());
    player.resume();
    assert!(!player.controls.silent());
    player.request_reopen();
    assert!(player.controls.device_failed);
    assert_eq!(
        player.failure(&PlayError::NoDevice),
        Some(EngineEvent::Failed("no default audio output device".to_string()))
    );
    player.stop();
    assert_eq!(player.failure(&PlayError::NoDevice), None);
}

#[test]
fn a_network_feed_keeps_two_seconds_ahead() {
    let at = |ms: u64| Instant { nanos: ms as u128 * 1_000_000 };
    let mut controls = playing();
    let mut clock = FrameClock::new();
    let (mut feed, loaded) = NetworkFeed::new(48_000, 2, 500, true, at(1_000));
    assert_eq!(
        loaded,
        FeedEvent::Loaded {
            sample_rate: 48_000,
            start_ms: 500,
            drive: PositionDrive::Renderer,
            joins: true,
        }
    );
    assert_eq!(feed.step(&controls, at(1_000)), Feeding::Decode);
    assert_eq!(feed.submitted(2 * 96_000, &mut clock, at(1_000)), None);
    assert_eq!(
        feed.submitted(2 * 48_000, &mut clock, at(1_000)),
        Some(Duration::from_millis(1_000))
    );
    assert_eq!(clock.frames(), 144_000);

    controls.paused = true;
    assert_eq!(feed.step(&controls, at(2_000)), Feeding::Nap);
    assert_eq!(feed.step(&controls, at(2_020)), Feeding::Nap);
    controls.paused = false;
    assert_eq!(feed.step(&controls, at(5_000)), Feeding::Decode);
    assert_eq!(
        feed.submitted(0, &mut clock, at(5_000)),
        None,
        "paused time does not count against the pace"
    );

    let mut next = AudioPlayer::start().next;
    next.prepared = Some(Prepared { source_rate: 48_000, channels: 2, to: 4 });
    assert_eq!(
        feed.end_of_track(&mut next),
        Some(FeedEvent::Joined { to: 4, at: Duration::from_secs(3) })
    );
    assert_eq!(feed.end_of_track(&mut next), None);
    controls.stopped = true;
    assert_eq!(feed.step(&controls, at(5_000)), Feeding::Stop);
}

#[test]
fn a_pacing_sleep_wakes_promptly() {
    let at = |ms: u64| Instant { nanos: ms as u128 * 1_000_000 };
    let mut controls = playing();
    assert_eq!(pace(at(100), at(0), &controls), Some(Duration::from_millis(20)));
    assert_eq!(pace(at(100), at(95), &controls), Some(Duration::from_millis(5)));
    assert_eq!(pace(at(100), at(100), &controls), None);
    controls.paused = true;
    assert_eq!(pace(at(100), at(0), &controls), None);
}

#[test]
fn the_player_hears_of_a_feed() {
    assert_eq!(heard(FeedEvent::Ended), Some(EngineEvent::Ended));
    assert_eq!(
        heard(FeedEvent::Advanced { to: 2 }),
        Some(EngineEvent::Advanced { to: 2 })
    );
    assert_eq!(heard(FeedEvent::Joined { to: 2, at: Duration::zero() }), None);
}

#[test]
fn what_the_ring_gave_up_is_played_and_counted() {
    assert_eq!(played(Some(7), 2), (7, 3));
    assert_eq!(played(None, 2), (0, 2), "silence is not counted");
}
