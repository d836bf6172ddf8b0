//! Autoplay: when the last track in the queue starts, top the queue up with tracks like it, so
//! playback carries on instead of stopping.
//!
//! Topping up when the last entry *starts* (not when it ends) leaves time for the next track to be
//! prepared, so the join stays gapless.

use vstd::prelude::*;

use crate::command::Repeat;
use crate::id::EntityId;
use crate::player::{PlayerSnapshot, QueueSnapshot};
use crate::rows::{keeping, keeping_keeps_the_matches, keeping_keeps_the_order};
use crate::state::PlaybackState;
use crate::track::TrackRef;

verus! {

/// How many tracks one top-up adds at most.
pub const TOP_UP: usize = 25;

/// The track to seed a top-up with, if the queue is about to run out: its last entry is the one
/// playing (or starting), and the queue doesn't repeat.
pub open spec fn is_due(snapshot: PlayerSnapshot) -> Option<EntityId> {
    match snapshot.track {
        Some(track) => if snapshot.queue.len > 0 && snapshot.queue.index + 1 == snapshot.queue.len
            && (snapshot.state == PlaybackState::Playing || snapshot.state
            == PlaybackState::Loading) && snapshot.queue.repeat == Repeat::Off {
            Some(track.id)
        } else {
            None
        },
        None => None,
    }
}

/// The track to seed a top-up with, if one is due.
pub fn due(snapshot: &PlayerSnapshot) -> (seed: Option<EntityId>)
    ensures
        seed == is_due(*snapshot),
{
    match &snapshot.track {
        Some(track) => {
            let queue = &snapshot.queue;
            let last: bool = queue.len > 0 && queue.index == queue.len - 1;
            let playing: bool = snapshot.state == PlaybackState::Playing || snapshot.state
                == PlaybackState::Loading;
            if last && playing && queue.repeat == Repeat::Off {
                Some(track.id)
            } else {
                None
            }
        },
        None => None,
    }
}

/// Whether a track of the queue has `id`.
pub open spec fn is_queued(queue: Seq<TrackRef>, id: EntityId) -> bool {
    exists|i: int| 0 <= i < queue.len() && (#[trigger] queue[i]).id == id
}

/// Those of the first `n` of `radio` that are not queued already.
pub open spec fn unheard(queue: Seq<TrackRef>, radio: Seq<EntityId>, n: int) -> Seq<EntityId>
    decreases n,
{
    if n <= 0 {
        Seq::empty()
    } else if is_queued(queue, radio[n - 1]) {
        unheard(queue, radio, n - 1)
    } else {
        unheard(queue, radio, n - 1).push(radio[n - 1])
    }
}

/// What a top-up adds: what the radio plays that is not queued already (the seed included), so
/// nothing comes round again straight away, and no more than one top-up's worth.
pub open spec fn top_up(queue: Seq<TrackRef>, radio: Seq<EntityId>) -> Seq<EntityId> {
    let all = unheard(queue, radio, radio.len() as int);
    if all.len() > TOP_UP {
        all.take(TOP_UP as int)
    } else {
        all
    }
}

fn queue_holds(queue: &Vec<TrackRef>, id: EntityId) -> (r: bool)
    ensures
        r == is_queued(queue@, id),
{
    let mut i: usize = 0;
    while i < queue.len()
        invariant
            i <= queue@.len(),
            forall|k: int| 0 <= k < i ==> (#[trigger] queue@[k]).id != id,
        decreases queue.len() - i,
    {
        if queue[i].id.0 == id.0 {
            assert(queue@[i as int].id == id);
            return true;
        }
        i = i + 1;
    }
    false
}

proof fn unheard_grows(queue: Seq<TrackRef>, radio: Seq<EntityId>, m: int, n: int)
    requires
        0 <= m <= n,
    ensures
        unheard(queue, radio, m).is_prefix_of(unheard(queue, radio, n)),
    decreases n - m,
{
    if m < n {
        unheard_grows(queue, radio, m, n - 1);
    }
}

/// What a top-up adds to `queue`, given what the radio plays.
pub fn fresh(queue: &QueueSnapshot, radio: &Vec<EntityId>) -> (added: Vec<EntityId>)
    ensures
        added@ == top_up(queue.tracks@, radio@),
{
    let mut added: Vec<EntityId> = Vec::new();
    let mut i: usize = 0;
    while i < radio.len()
        invariant
            i <= radio@.len(),
            added@.len() <= TOP_UP,
            added@ == unheard(queue.tracks@, radio@, i as int),
        decreases radio.len() - i,
    {
        if !queue_holds(&queue.tracks, radio[i]) {
            if added.len() >= TOP_UP {
                proof {
                    unheard_grows(queue.tracks@, radio@, i + 1, radio@.len() as int);
                    let all = unheard(queue.tracks@, radio@, radio@.len() as int);
                    let upto = unheard(queue.tracks@, radio@, i + 1);
                    assert(upto.len() == TOP_UP + 1);
                    assert(all.take(TOP_UP as int) =~= added@) by {
                        assert forall|k: int| 0 <= k < TOP_UP implies all[k] == added@[k] by {
                            assert(upto[k] == all[k]);
                        }
                    }
                }
                return added;
            }
            added.push(radio[i]);
        }
        i = i + 1;
    }
    added
}

/// Whether to top up, once per queue end: snapshots arrive several times a second, and one
/// attempt, even a failed one, keeps a dead catalog from being asked over and over.
#[derive(Debug, Clone, Copy, PartialEq, Eq)]
pub struct Autoplay {
    /// The last track and queue length a top-up was tried for.
    pub tried: Option<(EntityId, usize)>,
}

impl Autoplay {
    pub fn new() -> (autoplay: Self)
        ensures
            autoplay.tried is None,
    {
        Autoplay { tried: None }
    }

    /// The track to seed a top-up with, if one should be tried now.
    pub fn consider(&mut self, snapshot: &PlayerSnapshot, enabled: bool) -> (seed: Option<EntityId>)
        ensures
            match seed {
                Some(id) => enabled && is_due(*snapshot) == Some(id) && old(self).tried != Some(
                    (id, snapshot.queue.len),
                ) && final(self).tried == Some((id, snapshot.queue.len)),
                None => final(self).tried == old(self).tried && (!enabled || is_due(
                    *snapshot,
                ) is None || old(self).tried == Some(
                    (is_due(*snapshot)->0, snapshot.queue.len),
                )),
            },
    {
        let id = match due(snapshot) {
            Some(id) => id,
            None => {
                return None;
            },
        };
        let already: bool = match self.tried {
            Some((track, len)) => track.0 == id.0 && len == snapshot.queue.len,
            None => false,
        };
        if !enabled || already {
            return None;
        }
        self.tried = Some((id, snapshot.queue.len));
        Some(id)
    }
}

/// Nothing a top-up adds is queued already, and it adds no more than its share.
pub proof fn a_top_up_repeats_nothing(queue: Seq<TrackRef>, radio: Seq<EntityId>, i: int)
    requires
        0 <= i < top_up(queue, radio).len(),
    ensures
        top_up(queue, radio).len() <= TOP_UP,
        !is_queued(queue, top_up(queue, radio)[i]),
{
    unheard_is_unheard(queue, radio, radio.len() as int, i);
}

proof fn unheard_is_unheard(queue: Seq<TrackRef>, radio: Seq<EntityId>, n: int, i: int)
    requires
        0 <= i < unheard(queue, radio, n).len(),
    ensures
        !is_queued(queue, unheard(queue, radio, n)[i]),
    decreases n,
{
    if n > 0 && i < unheard(queue, radio, n - 1).len() {
        unheard_is_unheard(queue, radio, n - 1, i);
    }
}

/// Autoplay is due when the last entry plays or starts and nothing repeats, and grows from the
/// track that plays.
pub proof fn autoplay_is_due_on_the_last_entry(snapshot: PlayerSnapshot)
    ensures
        is_due(snapshot) is Some <==> {
            &&& snapshot.track is Some
            &&& snapshot.queue.len > 0
            &&& snapshot.queue.index == snapshot.queue.len - 1
            &&& snapshot.state == PlaybackState::Playing || snapshot.state == PlaybackState::Loading
            &&& snapshot.queue.repeat == Repeat::Off
        },
        is_due(snapshot) is Some ==> is_due(snapshot)->0 == snapshot.track->0.id,
{
}

proof fn unheard_is_what_is_kept(queue: Seq<TrackRef>, radio: Seq<EntityId>, n: int)
    requires
        0 <= n <= radio.len(),
    ensures
        unheard(queue, radio, n) == keeping(radio.take(n), |id: EntityId| !is_queued(queue, id)),
    decreases n,
{
    if n > 0 {
        unheard_is_what_is_kept(queue, radio, n - 1);
        assert(radio.take(n).drop_last() =~= radio.take(n - 1));
        assert(radio.take(n).last() == radio[n - 1]);
    } else {
        assert(radio.take(0) =~= Seq::empty());
    }
}

/// A top-up follows the radio: its tracks stand in the radio's order, and unless it is full, with
/// twenty-five, it leaves out only what is queued already.
pub proof fn a_top_up_follows_the_radio(queue: Seq<TrackRef>, radio: Seq<EntityId>)
    ensures
        top_up(queue, radio).len() <= 25,
        top_up(queue, radio).len() < 25 ==> forall|k: int|
            0 <= k < radio.len() && !is_queued(queue, #[trigger] radio[k]) ==> top_up(
                queue,
                radio,
            ).contains(radio[k]),
{
    let p = |id: EntityId| !is_queued(queue, id);
    unheard_is_what_is_kept(queue, radio, radio.len() as int);
    assert(radio.take(radio.len() as int) =~= radio);
    keeping_keeps_the_matches(radio, p);
    if top_up(queue, radio).len() < 25 {
        assert forall|k: int| 0 <= k < radio.len() && !is_queued(
            queue,
            #[trigger] radio[k],
        ) implies top_up(queue, radio).contains(radio[k]) by {
            assert(p(radio[k]));
        }
    }
}

/// Of two tracks a top-up adds, the one the radio plays earlier is added first.
pub proof fn a_top_up_keeps_the_radios_order(
    queue: Seq<TrackRef>,
    radio: Seq<EntityId>,
    i: int,
    j: int,
) -> (was: (int, int))
    requires
        0 <= i < j < top_up(queue, radio).len(),
    ensures
        0 <= was.0 < was.1 < radio.len(),
        radio[was.0] == top_up(queue, radio)[i],
        radio[was.1] == top_up(queue, radio)[j],
{
    unheard_is_what_is_kept(queue, radio, radio.len() as int);
    assert(radio.take(radio.len() as int) =~= radio);
    keeping_keeps_the_order(radio, |id: EntityId| !is_queued(queue, id), i, j)
}

} // verus!
