use canon::sink::{OutputRoute, RouteGuard, SinkId, SinkInfo};

/// A network session. The guard does not give itself back: the session that holds it does, when it
/// goes out of scope.
struct Held<'a> {
    route: &'a mut OutputRoute,
    guard: Option<RouteGuard>,
}

impl<'a> Drop for Held<'a> {
    fn drop(&mut self) {
        if let Some(guard) = self.guard.take() {
            self.route.release(guard);
        }
    }
}

#[test]
fn local_owns_output_at_rest() {
    let route = OutputRoute::new();
    assert!(!route.local_muted());
    assert!(!route.local_gate().local_muted());
}

#[test]
fn taking_the_route_mutes_local_and_dropping_restores_it() {
    let mut route = OutputRoute::new();
    let guard = route.take();
    assert!(route.local_muted(), "network session holds the route");
    route.release(guard);
    assert!(!route.local_muted(), "dropping the guard restores local");
}

#[test]
fn forgotten_teardown_still_restores_local() {
    let mut route = OutputRoute::new();
    {
        let guard = route.take();
        let held = Held { route: &mut route, guard: Some(guard) };
        assert!(held.route.local_muted());
    }
    assert!(!route.local_muted(), "scope exit is the un-mute");
}

#[test]
fn handoff_between_sinks_never_unmutes_local() {
    let mut route = OutputRoute::new();
    let first = route.take();
    assert!(route.local_muted());
    let second = route.take();
    assert!(route.local_muted());
    route.release(first);
    assert!(route.local_muted(), "superseded guard must not un-mute");
    route.release(second);
    assert!(!route.local_muted());
}

#[test]
fn a_superseded_guard_drop_is_a_noop() {
    let mut route = OutputRoute::new();
    let stale = route.take();
    let current = route.take();
    route.release(stale);
    assert!(route.local_muted(), "current holder still owns the route");
    route.release(current);
    assert!(!route.local_muted());
}

#[test]
fn the_local_output_is_named_local() {
    let local = SinkInfo::local();
    assert!(SinkInfo::is_local(&local.id));
    assert!(!SinkInfo::is_local(&SinkId("cast-1".to_string())));
}

#[test]
fn local_is_muted_while_the_guard_of_the_latest_take_is_out() {
    let mut route = OutputRoute::default();
    assert!(!route.local_muted());
    let first = route.take();
    let second = route.take();
    route.release(second);
    assert!(!route.local_muted(), "the latest is back, the first no longer counts");
    let third = route.take();
    route.release(first);
    assert!(route.local_muted());
    assert!(route.local_gate().local_muted());
    route.release(third);
    assert!(!route.local_gate().local_muted());
}
