use canon::position::{millis, Reconcile, RendererClock};
use canon::time::{Duration, Instant};

fn at(ms: u64) -> Duration {
    Duration::from_millis(ms)
}

fn moment(ms: u64) -> Instant {
    Instant { nanos: ms as u128 * 1_000_000 }
}

#[test]
fn a_stopped_clock_does_not_advance() {
    let clock = RendererClock::new(at(5_000));
    assert_eq!(clock.position(moment(0)), at(5_000));
    assert_eq!(
        clock.position(moment(20)),
        at(5_000),
        "buffering time must not count as progress"
    );
}

#[test]
fn running_advances_and_pausing_freezes() {
    let mut clock = RendererClock::new(at(1_000));
    clock.resume(moment(0));
    clock.pause(moment(30));
    let frozen = clock.position(moment(30));
    assert!(frozen.nanos >= at(1_030).nanos, "expected progress, got {:?}", frozen);
    assert_eq!(clock.position(moment(60)), frozen, "paused time must not accumulate");
}

#[test]
fn resume_and_pause_are_idempotent() {
    let mut clock = RendererClock::new(at(0));
    clock.resume(moment(0));
    let started = clock.position(moment(0));
    clock.resume(moment(20));
    assert!(clock.position(moment(20)).nanos > started.nanos);
    clock.pause(moment(20));
    let frozen = clock.position(moment(20));
    clock.pause(moment(40));
    assert_eq!(clock.position(moment(40)), frozen);
}

#[test]
fn a_small_disagreement_slews_rather_than_jumping() {
    let mut clock = RendererClock::new(at(0));
    clock.jump_to(at(10_000), moment(0));
    let outcome = clock.reconcile(at(10_400), moment(0));
    assert_eq!(outcome, Reconcile::Slewed { by_ms: 100 });
    assert_eq!(clock.position(moment(0)), at(10_100));
}

#[test]
fn being_ahead_of_the_renderer_eases_back_gently() {
    let mut clock = RendererClock::new(at(0));
    clock.jump_to(at(10_000), moment(0));
    let outcome = clock.reconcile(at(9_200), moment(0));
    assert_eq!(outcome, Reconcile::Slewed { by_ms: -100 });
    assert_eq!(clock.position(moment(0)), at(9_900));
}

#[test]
fn repeated_slews_converge_on_the_renderer() {
    let mut clock = RendererClock::new(at(0));
    clock.jump_to(at(10_000), moment(0));
    for _ in 0..24 {
        clock.reconcile(at(10_400), moment(0));
    }
    let drift = millis(clock.position(moment(0))) - millis(at(10_400));
    assert!(drift.abs() <= 5, "still {}ms out after 24 reports", drift);
}

#[test]
fn a_real_divergence_snaps() {
    let mut clock = RendererClock::new(at(0));
    clock.jump_to(at(10_000), moment(0));
    let outcome = clock.reconcile(at(60_000), moment(0));
    assert_eq!(outcome, Reconcile::Snapped { drift_ms: 50_000 });
    assert_eq!(clock.position(moment(0)), at(60_000));
}

#[test]
fn reports_are_read_against_the_streams_origin() {
    let mut clock = RendererClock::new(at(47_000));
    assert_eq!(clock.position(moment(0)), at(47_000));
    clock.reconcile(at(4_000), moment(0));
    assert_eq!(clock.position(moment(0)), at(51_000));
}

#[test]
fn seeking_moves_the_origin_with_the_position() {
    let mut clock = RendererClock::new(at(0));
    clock.resume(moment(0));
    clock.seek(at(120_000), moment(5));
    let position = clock.position(moment(6));
    assert!(
        position.nanos >= at(120_000).nanos && position.nanos < at(120_100).nanos,
        "seek landed at {:?}",
        position
    );
    assert!(clock.is_running(), "a seek must not stop playback");

    clock.reconcile(at(0), moment(7));
    assert!(
        clock.position(moment(7)).nanos >= at(119_000).nanos,
        "the new stream's zero was read as the top of the track: {:?}",
        clock.position(moment(7))
    );
}

#[test]
fn a_snap_keeps_the_clock_running() {
    let mut clock = RendererClock::new(at(0));
    clock.jump_to(at(10_000), moment(0));
    clock.resume(moment(0));
    clock.reconcile(at(60_000), moment(0));
    assert!(clock.is_running(), "a correction must not stop playback");
}

#[test]
fn slewing_never_walks_the_position_below_zero() {
    let mut clock = RendererClock::new(at(0));
    clock.jump_to(at(10), moment(0));
    clock.reconcile(at(0), moment(0));
    assert_eq!(clock.position(moment(0)), at(9));
}

#[test]
fn the_same_report_over_and_over_ends_within_seven_milliseconds() {
    for start in [8_600, 9_999, 10_000, 10_001, 10_007, 11_499, 11_500, 60_000] {
        let mut clock = RendererClock::new(at(0));
        clock.jump_to(at(start), moment(0));
        for _ in 0..45 {
            clock.reconcile(at(10_000), moment(0));
        }
        let drift = 10_000 - millis(clock.position(moment(0)));
        assert!((-7..=3).contains(&drift), "{}ms out from {}", drift, start);
    }
}
