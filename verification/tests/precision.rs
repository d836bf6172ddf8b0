use canon::amount::{parse_seek, parse_volume};
use canon::client::{Desk, Typed};
use canon::command::{Volume, FULL_VOLUME};
use canon::engine::{FeedEvent, NetworkFeed, NextSlot, Prepared};
use canon::natural::Natural;
use canon::state::{whole_frames, FrameClock};
use canon::time::{Duration, Instant};

/// Numbers as they might be typed, and some that hardly would.
const TYPED: [&str; 40] = [
    "0", "1", "90", "1.001", "4.35", "0.1", "0.3", "2.675", "1.0005", "1.1", "8.41", "1e2", "1e-3",
    ".5", "7.", "+3.3", "123456.789", "9007199254740993", "9007199254740992.5", "1e15", "1e19",
    "18446744073709551.615", "18446744073709551.616", "1e300", "1.7976931348623157e308", "1e309",
    "1e400", "1e99999999999999999999999999", "1e-99999999999999999999999999", "1e-400", "5e-324",
    "2.4703282292062327e-324", "2.4703282292062329e-324", "0.000000000000000000000000000001",
    "0000000000000000000001.001", "1234567890123456789012345678901234567890e-30", "0e999999",
    "3.4028235677973366e38", "1.401298464324817e-45", "16777217",
];

/// Whether a volume is this number, or both are none.
fn same(read: Option<Volume>, expected: Option<f32>) -> bool {
    match (read, expected) {
        (Some(v), Some(e)) => v.bits == e.to_bits() || (f32::from_bits(v.bits).is_nan() && e.is_nan()),
        (None, None) => true,
        _ => false,
    }
}

/// Numbers that look like any.
struct Any(u64);

impl Any {
    fn next(&mut self) -> u64 {
        self.0 = self.0.wrapping_mul(6_364_136_223_846_793_005).wrapping_add(1_442_695_040_888_963_407);
        self.0 >> 11
    }
}

fn volume(fraction: f32) -> Volume {
    Volume { bits: fraction.to_bits() }
}

fn seconds_to_ms(secs: f64) -> Option<u64> {
    if secs < 0.0 {
        None
    } else {
        Some((secs * 1000.0) as u64)
    }
}

#[test]
fn seconds_are_read_in_double_precision() {
    assert_eq!(parse_seek("1.001", 0), Some(1_000));
    assert_eq!(parse_seek("4.35", 0), Some(4_350));
    for typed in TYPED {
        let secs: f64 = typed.parse().unwrap();
        let plain = typed.trim_start_matches('+');
        assert_eq!(parse_seek(plain, 0), seconds_to_ms(secs), "{}", typed);
        assert_eq!(parse_seek(&format!("0:{}", typed), 0), seconds_to_ms(secs), "{}", typed);
        let below: f64 = format!("-{}", plain).parse().unwrap();
        assert_eq!(parse_seek(&format!("0:-{}", plain), 0), seconds_to_ms(below), "-{}", typed);
    }
    let mut any = Any(7);
    for _ in 0..60 {
        let typed = format!("{}.{:03}", any.next() % 100_000, any.next() % 1_000);
        let secs: f64 = typed.parse().unwrap();
        assert_eq!(parse_seek(&typed, 0), seconds_to_ms(secs), "{}", typed);
    }
}

#[test]
fn a_seek_counts_frames_in_double_precision() {
    let mut any = Any(11);
    for rate in [1, 44_100, 48_000, 96_000, 192_000, u32::MAX] {
        for _ in 0..12 {
            let nanos = any.next() % 40_000_000_000_000;
            let position = std::time::Duration::from_nanos(nanos);
            let frames = (position.as_secs_f64() * f64::from(rate)).max(0.0) as u64;
            let mut clock = FrameClock::new();
            clock.reset(rate);
            clock.seek(Duration::from_nanos(nanos));
            assert_eq!(clock.frames(), frames, "{} at {}", nanos, rate);
        }
    }
    let longest = std::time::Duration::new(u64::MAX, 999_999_999);
    assert_eq!(
        whole_frames(Duration { nanos: longest.as_nanos() }, 48_000),
        (longest.as_secs_f64() * 48_000.0) as u64
    );
    assert_eq!(whole_frames(Duration { nanos: longest.as_nanos() }, 0), 0);
    assert_eq!(whole_frames(Duration::from_millis(10), 44_100), 441);
}

#[test]
fn a_seek_lands_within_a_frame_of_where_it_was_asked_to() {
    let mut any = Any(13);
    for rate in [8_000u32, 44_100, 192_000] {
        for _ in 0..12 {
            let nanos = any.next() % 3_600_000_000_000;
            let mut clock = FrameClock::new();
            clock.reset(rate);
            clock.seek(Duration::from_nanos(nanos));
            let landed = clock.position().nanos as u64;
            assert!(landed <= nanos);
            assert!((nanos - landed).saturating_sub(2) * u64::from(rate) < 1_000_000_000);
        }
    }
}

#[test]
fn what_was_fed_lasts_as_double_precision_has_it() {
    let mut any = Any(17);
    for rate in [1, 44_100, 48_000, 192_000, u32::MAX] {
        for _ in 0..12 {
            let frames = any.next() >> (any.next() % 40);
            let lasts = std::time::Duration::from_secs_f64(frames as f64 / f64::from(rate));
            let (mut feed, _) = NetworkFeed::new(rate, 2, 0, true, Instant { nanos: 0 });
            feed.frames_fed = frames;
            let mut next = NextSlot {
                prepared: Some(Prepared { source_rate: rate, channels: 2, to: 1 }),
                cancelled: 0,
            };
            assert_eq!(
                feed.end_of_track(&mut next),
                Some(FeedEvent::Joined { to: 1, at: Duration { nanos: lasts.as_nanos() } }),
                "{} at {}",
                frames,
                rate
            );
        }
    }
}

#[test]
fn a_sleep_is_timed_to_the_nanosecond() {
    let desk = Desk {
        listing: vec![],
        playing: None,
        position_ms: 0,
        volume: Volume::full(),
        playlist: None,
    };
    for typed in TYPED {
        let asked = desk.command(&format!("sleep {}", typed));
        match std::time::Duration::try_from_secs_f64(typed.parse().unwrap()) {
            Ok(d) => assert_eq!(asked, Typed::Sleep(Duration { nanos: d.as_nanos() }), "{}", typed),
            Err(_) => assert!(matches!(asked, Typed::Say(_)), "{}", typed),
        }
    }
    assert_eq!(desk.command("sleep 0.0000000026"), Typed::Sleep(Duration { nanos: 3 }));
    assert_eq!(desk.command("sleep -0"), Typed::Sleep(Duration { nanos: 0 }));
    for unable in ["sleep -1", "sleep nan", "sleep inf", "sleep soon"] {
        assert!(matches!(desk.command(unable), Typed::Say(_)), "{}", unable);
    }
}

fn percent(typed: &str, current: f32) -> Option<f32> {
    let typed = typed.trim();
    let relative = typed.starts_with('+') || typed.starts_with('-');
    let percent: f32 = typed.parse().ok()?;
    let level = if relative { current + percent / 100.0 } else { percent / 100.0 };
    Some(level.clamp(0.0, 1.0))
}

#[test]
fn a_volume_is_read_in_single_precision() {
    let levels = [0.0, -0.0, 1.0, 0.1, 0.3, 0.5, 0.7, 1e-30, 1e-45, 3.0e38, -2.0, f32::INFINITY];
    for typed in TYPED {
        for sign in ["", "+", "-"] {
            let typed = format!(" {}{} ", sign, typed.trim_start_matches('+'));
            for current in levels {
                let read = parse_volume(&typed, volume(current));
                assert!(same(read, percent(&typed, current)), "{} from {}", typed, current);
            }
        }
    }
    let mut any = Any(19);
    for _ in 0..60 {
        let typed = format!("-{}.{}", any.next() % 100, any.next() % 100_000);
        let current = f32::from_bits((any.next() % u64::from(FULL_VOLUME)) as u32);
        let read = parse_volume(&typed, volume(current)).map(|v| v.bits);
        assert_eq!(read, percent(&typed, current).map(f32::to_bits), "{} from {}", typed, current);
    }
}

#[test]
fn a_volume_that_is_no_number_stays_none() {
    for typed in ["nan", "+nan", "-NaN"] {
        let read = parse_volume(typed, volume(0.5)).unwrap();
        assert!(f32::from_bits(read.bits).is_nan());
    }
    let from_nowhere = parse_volume("+10", volume(f32::NAN)).unwrap();
    assert!(f32::from_bits(from_nowhere.bits).is_nan());
    let undecided = parse_volume("-inf", volume(f32::INFINITY)).unwrap();
    assert!(f32::from_bits(undecided.bits).is_nan());
    assert_eq!(parse_volume("inf", volume(0.5)), Some(volume(1.0)));
    assert_eq!(parse_volume("-inf", volume(0.5)), Some(volume(0.0)));
    assert_eq!(parse_volume("", volume(0.5)), None);
}

#[test]
fn volumes_are_held_and_compared_in_single_precision() {
    let mut levels = vec![0.0, -0.0, 1.0, 2.0, -1.0, 1e-45, f32::MAX, f32::INFINITY, f32::NAN];
    let mut any = Any(23);
    for _ in 0..12 {
        let level = f32::from_bits((any.next() % u64::from(FULL_VOLUME)) as u32);
        levels.push(level);
        levels.push(level + f32::EPSILON / 2.0);
        levels.push(0.75 + (any.next() % 9) as f32 * (f32::EPSILON / 4.0));
    }
    for a in &levels {
        assert_eq!(volume(*a).clamp().bits, a.clamp(0.0, 1.0).to_bits(), "{}", a);
        for b in &levels {
            let close = (a - b).abs() < f32::EPSILON;
            assert_eq!(volume(*a).is_close_to(volume(*b)), close, "{} and {}", a, b);
        }
    }
}

#[test]
fn natural_numbers_add_up() {
    let most = Natural::from_whole(u128::MAX);
    let more = most.plus(&Natural::from_whole(1));
    assert!(most.minus(&more).is_none());
    assert!(more.minus(&most).unwrap().minus(&Natural::from_whole(1)).is_some());
    assert!(more.minus(&most).unwrap().minus(&Natural::from_whole(2)).is_none());
    let thrice = most.times_plus(3, 2);
    let left = thrice.minus(&most).unwrap().minus(&most).unwrap().minus(&most).unwrap();
    assert!(left.minus(&Natural::from_whole(2)).is_some());
    assert!(left.minus(&Natural::from_whole(3)).is_none());
    assert!(Natural::zero().minus(&Natural::zero()).is_some());
}
