//! Where audio goes, and the routing that keeps local output honest.
//!
//! Local speakers are the *resting route*, active precisely when no network session holds the
//! route. Muting local while a network sink plays is done by routing: [`OutputRoute::take`] hands
//! the route to a session, and giving the [`RouteGuard`] back is the only way local is restored.

use vstd::prelude::*;

use crate::text::same;

verus! {

/// Stable identifier for an output (a device's id, or "local").
#[derive(Debug, PartialEq, Eq)]
pub struct SinkId(pub String);

impl View for SinkId {
    type V = Seq<char>;

    open spec fn view(&self) -> Seq<char> {
        self.0@
    }
}

impl Clone for SinkId {
    fn clone(&self) -> (copy: Self)
        ensures
            copy == *self,
    {
        SinkId(self.0.clone())
    }
}

/// The identifier of an output that may be unset.
pub open spec fn opt_sink(sink: Option<SinkId>) -> Option<Seq<char>> {
    match sink {
        Some(id) => Some(id@),
        None => None,
    }
}

/// A copy of an identifier that may be unset.
pub fn clone_opt_sink(sink: &Option<SinkId>) -> (copy: Option<SinkId>)
    ensures
        copy == *sink,
{
    match sink {
        Some(id) => Some(id.clone()),
        None => None,
    }
}

/// The kind of output, for grouping and protocol-specific behaviour.
#[derive(Debug, Clone, Copy, PartialEq, Eq, Structural)]
pub enum SinkKind {
    Local,
    Chromecast,
    Dlna,
}

/// What a network renderer says it is doing.
#[derive(Debug, Clone, Copy, PartialEq, Eq, Structural)]
pub enum RendererState {
    Playing,
    Paused,
    Buffering,
}

/// A selectable output, as reported to clients. The local device is always listed, with the
/// reserved id `local`.
#[derive(Debug, PartialEq, Eq)]
pub struct SinkInfo {
    pub id: SinkId,
    pub name: String,
    pub kind: SinkKind,
}

/// The reserved id of the local output.
pub open spec fn local_id() -> Seq<char> {
    "local"@
}

impl SinkInfo {
    /// The always-present local device entry.
    pub fn local() -> (info: SinkInfo)
        ensures
            info.id@ == local_id(),
            info.name@ == "Local output"@,
            info.kind == SinkKind::Local,
    {
        SinkInfo {
            id: SinkId("local".to_owned()),
            name: "Local output".to_owned(),
            kind: SinkKind::Local,
        }
    }

    /// Whether `id` names the local output.
    pub fn is_local(id: &SinkId) -> (local: bool)
        ensures
            local == (id@ == local_id()),
    {
        same(id.0.as_str(), "local")
    }
}

/// Liveness of a network sink. `Degraded` is a warning that stays playing.
#[derive(Debug, PartialEq, Eq)]
pub enum SinkHealth {
    Healthy,
    Degraded(String),
    Failed(String),
}

/// The half of the output route that says whether the local audio callback owns the speakers. It is
/// borrowed from the route afresh for every buffer, so a reading never outlives a hand-over.
///
/// `0` means local owns the output. Any other value is the generation of the network session
/// that holds the route, during which the local callback emits silence.
#[derive(Debug, PartialEq, Eq, Structural)]
pub struct LocalGate {
    pub holder: u64,
}

impl Default for LocalGate {
    fn default() -> (gate: Self)
        ensures
            gate.holder == 0,
    {
        LocalGate { holder: 0 }
    }
}

impl LocalGate {
    /// True while a network session holds the route.
    pub open spec fn muted(self) -> bool {
        self.holder != 0
    }

    /// True while a network session holds the route (local should emit silence).
    pub fn local_muted(&self) -> (muted: bool)
        ensures
            muted == self.muted(),
    {
        self.holder != 0
    }
}

/// Owns the output route for the daemon's lifetime. Local speakers are the resting route; a network
/// session is handed it by [`take`](Self::take), and local is restored by giving the guard of the
/// latest hand-over back to [`release`](Self::release), and by nothing else. A guard does not give
/// itself back: whoever holds a session gives its guard back when the session ends.
#[derive(Debug, PartialEq, Eq)]
pub struct OutputRoute {
    gate: LocalGate,
    /// The last generation handed out, so a superseded guard can be told from the current one.
    seq: u64,
}

/// Proof that a network session was given the output route (see [`OutputRoute::take`]). Local stays
/// silent until it is given back to [`OutputRoute::release`].
#[derive(Debug, PartialEq, Eq)]
#[must_use]
pub struct RouteGuard {
    generation: u64,
}

impl RouteGuard {
    /// Which hand-over of the route this is.
    pub closed spec fn generation(self) -> int {
        self.generation as int
    }
}

/// The state of the route.
pub struct RouteView {
    /// The generation that holds the route; 0 while local does.
    pub holder: int,
    /// How often the route has been handed out.
    pub handed_out: int,
}

impl RouteView {
    /// Only a generation that was handed out can hold the route.
    pub open spec fn wf(self) -> bool {
        0 <= self.holder <= self.handed_out
    }

    /// True while a network session holds the route.
    pub open spec fn muted(self) -> bool {
        self.holder != 0
    }

    /// The route after it is handed to a session, under the next generation.
    pub open spec fn taken(self) -> RouteView {
        RouteView { holder: self.handed_out + 1, handed_out: self.handed_out + 1 }
    }

    /// The route after the guard of `generation` is given back.
    pub open spec fn released(self, generation: int) -> RouteView {
        RouteView {
            holder: if self.holder == generation {
                0
            } else {
                self.holder
            },
            handed_out: self.handed_out,
        }
    }
}

impl View for OutputRoute {
    type V = RouteView;

    closed spec fn view(&self) -> RouteView {
        RouteView { holder: self.gate.holder as int, handed_out: self.seq as int }
    }
}

impl Default for OutputRoute {
    fn default() -> (route: Self)
        ensures
            route@ == (RouteView { holder: 0, handed_out: 0 }),
    {
        OutputRoute::new()
    }
}

impl OutputRoute {
    pub fn new() -> (route: OutputRoute)
        ensures
            route@ == (RouteView { holder: 0, handed_out: 0 }),
    {
        OutputRoute { gate: LocalGate { holder: 0 }, seq: 0 }
    }

    /// What the local audio callback reads.
    pub fn local_gate(&self) -> (gate: &LocalGate)
        ensures
            gate.holder == self@.holder,
            gate.muted() == self@.muted(),
    {
        &self.gate
    }

    /// True while a network session holds the route.
    pub fn local_muted(&self) -> (muted: bool)
        ensures
            muted == self@.muted(),
    {
        self.gate.local_muted()
    }

    /// Hand the route to a network session. Local goes silent at once and stays silent until the
    /// guard is given back to [`release`](Self::release), which is the only way local is restored.
    ///
    /// Taking the route again supersedes the previous holder: giving the older guard back then
    /// changes nothing, so a late teardown of the old session can't un-mute local out from under
    /// the new one.
    #[must_use]
    pub fn take(&mut self) -> (guard: RouteGuard)
        requires
            old(self)@.handed_out < u64::MAX,
        ensures
            final(self)@ == old(self)@.taken(),
            guard.generation() == final(self)@.holder,
    {
        self.seq = self.seq + 1;
        self.gate = LocalGate { holder: self.seq };
        RouteGuard { generation: self.seq }
    }

    /// Give a guard back. Local is restored if the guard's session still holds the route;
    /// otherwise the route stays with whoever took it since.
    pub fn release(&mut self, guard: RouteGuard)
        ensures
            final(self)@ == old(self)@.released(guard.generation()),
    {
        if self.gate.holder == guard.generation {
            self.gate = LocalGate { holder: 0 };
        }
    }
}

/// Taking the route mutes local, and giving the guard back restores it.
pub proof fn giving_the_route_back_restores_local(route: RouteView)
    requires
        route.wf(),
    ensures
        route.taken().wf(),
        route.taken().muted(),
        route.taken().released(route.taken().holder).wf(),
        !route.taken().released(route.taken().holder).muted(),
{
}

/// A hand-off between sinks never un-mutes local: a guard that a later `take` superseded changes
/// nothing when it is given back, whenever that happens.
pub proof fn a_superseded_guard_changes_nothing(route: RouteView, earlier: int)
    requires
        route.wf(),
        earlier <= route.handed_out,
    ensures
        route.taken().released(earlier) == route.taken(),
        route.taken().released(earlier).muted(),
{
}

/// Something that happens to the route.
pub enum RouteStep {
    Take,
    /// The guard of this generation is given back.
    Release(int),
}

impl RouteView {
    /// The route after one step.
    pub open spec fn stepped(self, step: RouteStep) -> RouteView {
        match step {
            RouteStep::Take => self.taken(),
            RouteStep::Release(generation) => self.released(generation),
        }
    }

    /// The route after `steps`, in order.
    pub open spec fn after(self, steps: Seq<RouteStep>) -> RouteView
        decreases steps.len(),
    {
        if steps.len() == 0 {
            self
        } else {
            self.after(steps.drop_last()).stepped(steps.last())
        }
    }
}

/// How often `steps` take the route.
pub open spec fn takes(steps: Seq<RouteStep>) -> int
    decreases steps.len(),
{
    if steps.len() == 0 {
        0
    } else if steps.last() is Take {
        takes(steps.drop_last()) + 1
    } else {
        takes(steps.drop_last())
    }
}

/// Step `t` is the last take, and nothing since gave its guard back.
pub open spec fn still_held(steps: Seq<RouteStep>, t: int) -> bool {
    &&& 0 <= t < steps.len()
    &&& steps[t] is Take
    &&& forall|k: int|
        t < k < steps.len() ==> (#[trigger] steps[k]) is Release && steps[k] != RouteStep::Release(
            takes(steps.take(t + 1)),
        )
}

/// Steps that do not take the route leave the count as it was.
proof fn releases_take_nothing(steps: Seq<RouteStep>, n: int)
    requires
        0 <= n <= steps.len(),
        forall|k: int| n <= k < steps.len() ==> (#[trigger] steps[k]) is Release,
    ensures
        takes(steps.take(n)) == takes(steps),
    decreases steps.len(),
{
    if n < steps.len() {
        assert(steps.last() is Release);
        let less = steps.drop_last();
        assert(less.take(n) =~= steps.take(n));
        assert forall|k: int| n <= k < less.len() implies (#[trigger] less[k]) is Release by {
            assert(less[k] == steps[k]);
        }
        releases_take_nothing(less, n);
    } else {
        assert(steps.take(n) =~= steps);
    }
}

/// Local is muted exactly while the guard of the latest take is out: whatever was taken and given
/// back since the route was made, in whatever order, local is silent if and only if the route was
/// taken at least once and the guard of the last take has not been given back.
pub proof fn local_is_muted_while_the_latest_guard_is_out(steps: Seq<RouteStep>)
    ensures
        ({
            let route = (RouteView { holder: 0, handed_out: 0 }).after(steps);
            &&& route.wf()
            &&& route.handed_out == takes(steps)
            &&& route.holder == 0 || route.holder == route.handed_out
            &&& route.muted() <==> exists|t: int| still_held(steps, t)
        }),
    decreases steps.len(),
{
    let fresh = RouteView { holder: 0, handed_out: 0 };
    let route = fresh.after(steps);
    if steps.len() > 0 {
        let less = steps.drop_last();
        let before = fresh.after(less);
        local_is_muted_while_the_latest_guard_is_out(less);
        match steps.last() {
            RouteStep::Take => {
                assert(still_held(steps, steps.len() - 1));
            },
            RouteStep::Release(generation) => {
                if route.muted() {
                    let t = choose|t: int| still_held(less, t);
                    assert(less.take(t + 1) =~= steps.take(t + 1));
                    assert(forall|k: int| t < k < less.len() ==> less[k] == #[trigger] steps[k]);
                    releases_take_nothing(less, t + 1);
                    assert(still_held(steps, t));
                }
                if exists|t: int| still_held(steps, t) {
                    let t = choose|t: int| still_held(steps, t);
                    assert(t < steps.len() - 1);
                    assert(less.take(t + 1) =~= steps.take(t + 1));
                    assert forall|k: int| t < k < less.len() implies (#[trigger] less[k]) is Release
                        && less[k] != RouteStep::Release(takes(less.take(t + 1))) by {
                        assert(less[k] == steps[k]);
                    }
                    assert(still_held(less, t));
                    releases_take_nothing(less, t + 1);
                    assert(steps[steps.len() - 1] == steps.last());
                }
            },
        }
    } else {
        assert(forall|t: int| !still_held(steps, t));
    }
}

} // verus!
