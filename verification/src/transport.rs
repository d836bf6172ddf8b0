//! What the player does for a listener: what starts, from where, and what becomes of the queue.
//!
//! Each law takes a player in any state and says what a command or a report makes of it, in terms of
//! the queue, the place in it and what the world is asked for.

use vstd::prelude::*;

use crate::command::{Command, Repeat, Volume, FULL_VOLUME};
use crate::player::{
    concluded, dealing_is_a_permutation, dealt, Effect, EffectView, EngineEvent, PlayerModel,
    PlayerSnapshot,
};
use crate::position::PositionDrive;
use crate::single::INFINITE;
use crate::sink::{RendererState, SinkId};
use crate::state::PlaybackState;
use crate::time::{Duration, Instant};
use crate::track::{TrackMeta, TrackRef};

verus! {

/// What an effect says is what it holds: nothing of it is lost or made up.
pub proof fn an_effect_says_what_it_holds(effect: Effect)
    ensures
        match effect {
            Effect::Start { generation, track, position } => effect@ == (EffectView::Start {
                generation: generation as int,
                track: track@,
                position,
            }),
            Effect::Halt { generation } => effect@ == (EffectView::Halt {
                generation: generation as int,
            }),
            Effect::Prepare { generation, next_generation, track } => effect@ == (
            EffectView::Prepare {
                generation: generation as int,
                next_generation: next_generation as int,
                track: track@,
            }),
            Effect::Unprepare { next_generation } => effect@ == (EffectView::Unprepare {
                next_generation: next_generation as int,
            }),
            Effect::Pause => effect@ == EffectView::Pause,
            Effect::Resume => effect@ == EffectView::Resume,
            Effect::SetVolume(volume) => effect@ == EffectView::SetVolume(volume),
            Effect::SetMuted(muted) => effect@ == EffectView::SetMuted(muted),
        },
{
}

/// Seeking plays the same entry again from the position asked for, whatever that is, and does
/// nothing else to the queue. With nothing in play there is nothing to seek.
pub proof fn a_seek_starts_the_entry_at_the_position(
    model: PlayerModel,
    position: Duration,
    now: Instant,
)
    ensures
        ({
            let step = concluded(model.commanded(Command::Seek(position), now), now);
            let in_play = model.state == PlaybackState::Loading || model.state
                == PlaybackState::Playing || model.state == PlaybackState::Paused;
            if in_play && 0 <= model.index < model.queue.len() {
                &&& step.refused is None
                &&& step.effects == seq![
                    EffectView::Start {
                        generation: step.model.generation,
                        track: model.queue[model.index],
                        position,
                    },
                ]
                &&& step.model.generation > model.issued
                &&& step.model.state == PlaybackState::Loading
                &&& step.model.track == Some(model.queue[model.index])
                &&& step.model.queue == model.queue
                &&& step.model.index == model.index
                &&& step.model.repeat == model.repeat
                &&& step.model.sink == model.sink
                &&& step.model.volume == model.volume
            } else {
                &&& step.refused is Some
                &&& step.effects.len() == 0
                &&& step.model.state == model.state
                &&& step.model.queue == model.queue
                &&& step.model.index == model.index
            }
        }),
{
}

/// Skipping on starts the entry after the current one from its beginning; after the last there is
/// none, and the command is refused.
pub proof fn next_starts_the_entry_after(model: PlayerModel, now: Instant)
    ensures
        ({
            let step = concluded(model.commanded(Command::Next, now), now);
            if model.index + 1 < model.queue.len() {
                &&& step.refused is None
                &&& step.effects == seq![
                    EffectView::Start {
                        generation: step.model.generation,
                        track: model.queue[model.index + 1],
                        position: Duration { nanos: 0 },
                    },
                ]
                &&& step.model.index == model.index + 1
                &&& step.model.queue == model.queue
                &&& step.model.track == Some(model.queue[model.index + 1])
                &&& step.model.state == PlaybackState::Loading
            } else {
                &&& step.refused is Some && step.refused->0 is NotFound
                &&& step.effects.len() == 0
                &&& step.model.index == model.index
                &&& step.model.state == model.state
            }
        }),
{
}

/// Skipping back starts the entry before the current one from its beginning; before the first
/// there is none, and the command is refused.
pub proof fn previous_starts_the_entry_before(model: PlayerModel, now: Instant)
    ensures
        ({
            let step = concluded(model.commanded(Command::Previous, now), now);
            if model.index >= 1 {
                &&& step.refused is None
                &&& step.effects == seq![
                    EffectView::Start {
                        generation: step.model.generation,
                        track: model.queue[model.index - 1],
                        position: Duration { nanos: 0 },
                    },
                ]
                &&& step.model.index == model.index - 1
                &&& step.model.queue == model.queue
                &&& step.model.track == Some(model.queue[model.index - 1])
                &&& step.model.state == PlaybackState::Loading
            } else {
                &&& step.refused is Some && step.refused->0 is NotFound
                &&& step.effects.len() == 0
                &&& step.model.index == model.index
                &&& step.model.state == model.state
            }
        }),
{
}

/// Skipping on and then back comes to the entry that was current, and so does skipping back and
/// then on.
pub proof fn next_and_previous_undo_each_other(model: PlayerModel, now: Instant, later: Instant)
    ensures
        model.index + 1 < model.queue.len() && model.index >= 0 ==> concluded(
            concluded(model.commanded(Command::Next, now), now).model.commanded(
                Command::Previous,
                later,
            ),
            later,
        ).model.track == Some(model.queue[model.index]),
        1 <= model.index < model.queue.len() ==> concluded(
            concluded(model.commanded(Command::Previous, now), now).model.commanded(
                Command::Next,
                later,
            ),
            later,
        ).model.track == Some(model.queue[model.index]),
{
}

/// Jumping starts the entry asked for from its beginning; an entry the queue does not have is
/// refused.
pub proof fn a_jump_starts_the_entry_named(model: PlayerModel, index: usize, now: Instant)
    ensures
        ({
            let step = concluded(model.commanded(Command::Jump(index), now), now);
            if index < model.queue.len() {
                &&& step.refused is None
                &&& step.effects == seq![
                    EffectView::Start {
                        generation: step.model.generation,
                        track: model.queue[index as int],
                        position: Duration { nanos: 0 },
                    },
                ]
                &&& step.model.index == index
                &&& step.model.queue == model.queue
                &&& step.model.track == Some(model.queue[index as int])
                &&& step.model.state == PlaybackState::Loading
            } else {
                &&& step.refused is Some && step.refused->0 is NotFound
                &&& step.effects.len() == 0
                &&& step.model.index == model.index
            }
        }),
{
}

/// Pausing holds what plays, and only that; playing continues what is paused, and only that. The
/// place in the queue and the playback stay the same.
pub proof fn pause_and_play_hold_and_continue(model: PlayerModel, now: Instant)
    ensures
        ({
            let step = concluded(model.commanded(Command::Pause, now), now);
            &&& step.refused is None
            &&& step.effects == if model.state == PlaybackState::Playing {
                seq![EffectView::Pause]
            } else {
                Seq::empty()
            }
            &&& step.model.state == if model.state == PlaybackState::Playing {
                PlaybackState::Paused
            } else {
                model.state
            }
            &&& step.model.generation == model.generation
            &&& step.model.index == model.index
            &&& step.model.queue == model.queue
            &&& step.model.track == model.track
        }),
        ({
            let step = concluded(model.commanded(Command::Play, now), now);
            &&& step.refused is None
            &&& step.effects == if model.state == PlaybackState::Paused {
                seq![EffectView::Resume]
            } else {
                Seq::empty()
            }
            &&& step.model.state == if model.state == PlaybackState::Paused {
                PlaybackState::Playing
            } else {
                model.state
            }
            &&& step.model.generation == model.generation
            &&& step.model.index == model.index
            &&& step.model.queue == model.queue
            &&& step.model.track == model.track
        }),
{
}

/// Pausing does not move the listener: on local output the position is what it was, however much
/// later one looks.
pub proof fn a_pause_keeps_the_position(model: PlayerModel, now: Instant, later: Instant)
    requires
        model.state == PlaybackState::Playing,
    ensures
        concluded(model.commanded(Command::Pause, now), now).model.position_ms(later)
            == model.position_ms(now),
{
}

/// Stopping silences every output and forgets the playback; the queue and the place in it stay,
/// and so do the volume and the output. There is nothing to stop when nothing plays.
pub proof fn stop_silences_and_keeps_the_queue(model: PlayerModel, now: Instant)
    ensures
        ({
            let step = concluded(model.commanded(Command::Stop, now), now);
            &&& step.refused is None
            &&& step.model.state == PlaybackState::Idle
            &&& step.model.queue == model.queue
            &&& step.model.index == model.index
            &&& step.model.sink == model.sink
            &&& step.model.volume == model.volume
            &&& step.model.muted == model.muted
            &&& if model.state == PlaybackState::Idle {
                step.effects.len() == 0
            } else {
                &&& step.effects == seq![EffectView::Halt { generation: step.model.generation }]
                &&& step.model.generation > model.issued
                &&& step.model.track is None
                &&& step.model.error is None
                &&& step.model.prepared is None
                &&& step.model.position_ms(now) == 0
            }
        }),
{
}

/// Clearing empties the queue and silences every output, whatever was playing.
pub proof fn clear_leaves_nothing(model: PlayerModel, now: Instant)
    ensures
        ({
            let step = concluded(model.commanded(Command::Clear, now), now);
            &&& step.refused is None
            &&& step.effects == seq![EffectView::Halt { generation: step.model.generation }]
            &&& step.model.queue.len() == 0
            &&& step.model.index == 0
            &&& step.model.state == PlaybackState::Idle
            &&& step.model.track is None
            &&& step.model.generation > model.issued
        }),
{
}

/// Loading a track makes it the whole queue and starts it from its beginning.
pub proof fn load_plays_the_track_alone(model: PlayerModel, track: TrackRef, now: Instant)
    ensures
        ({
            let step = concluded(model.commanded(Command::Load(track), now), now);
            &&& step.refused is None
            &&& step.model.queue == seq![track@]
            &&& step.model.index == 0
            &&& step.model.track == Some(track@)
            &&& step.effects == seq![
                EffectView::Start {
                    generation: step.model.generation,
                    track: track@,
                    position: Duration { nanos: 0 },
                },
            ]
        }),
{
}

/// Enqueuing puts a track at the end and moves nothing. It starts only if nothing is in play.
pub proof fn enqueue_puts_the_track_last(model: PlayerModel, track: TrackRef, now: Instant)
    ensures
        ({
            let step = concluded(model.commanded(Command::Enqueue(track), now), now);
            let in_play = model.state == PlaybackState::Loading || model.state
                == PlaybackState::Playing || model.state == PlaybackState::Paused;
            &&& step.refused is None
            &&& step.model.queue.len() == model.queue.len() + 1
            &&& step.model.queue[model.queue.len() as int] == track@
            &&& forall|k: int|
                0 <= k < model.queue.len() ==> #[trigger] step.model.queue[k] == model.queue[k]
            &&& if in_play {
                &&& step.effects.len() == 0
                &&& step.model.index == model.index
                &&& step.model.state == model.state
                &&& step.model.generation == model.generation
            } else {
                &&& step.model.index == model.queue.len()
                &&& step.model.track == Some(track@)
                &&& step.effects == seq![
                    EffectView::Start {
                        generation: step.model.generation,
                        track: track@,
                        position: Duration { nanos: 0 },
                    },
                ]
            }
        }),
{
}

/// Enqueuing several puts them at the end in the order given, and moves nothing. The first of them
/// starts only if nothing is in play.
pub proof fn enqueue_many_puts_the_tracks_last(
    model: PlayerModel,
    tracks: Vec<TrackRef>,
    now: Instant,
)
    ensures
        ({
            let step = concluded(model.commanded(Command::EnqueueMany(tracks), now), now);
            let in_play = model.state == PlaybackState::Loading || model.state
                == PlaybackState::Playing || model.state == PlaybackState::Paused;
            &&& step.refused is None
            &&& step.model.queue.len() == model.queue.len() + tracks@.len()
            &&& forall|k: int|
                0 <= k < model.queue.len() ==> #[trigger] step.model.queue[k] == model.queue[k]
            &&& forall|k: int|
                0 <= k < tracks@.len() ==> step.model.queue[model.queue.len() + k] == (
                #[trigger] tracks@[k])@
            &&& if in_play || tracks@.len() == 0 {
                &&& step.effects.len() == 0
                &&& step.model.index == model.index
                &&& step.model.state == model.state
            } else {
                &&& step.model.index == model.queue.len()
                &&& step.effects == seq![
                    EffectView::Start {
                        generation: step.model.generation,
                        track: tracks@[0]@,
                        position: Duration { nanos: 0 },
                    },
                ]
            }
        }),
{
}

/// Tracks to play next go right after the current entry, in the order given: what came before them
/// stays where it is, what came after follows them, and nothing starts.
pub proof fn play_next_puts_the_tracks_after_the_current_entry(
    model: PlayerModel,
    tracks: Vec<TrackRef>,
    now: Instant,
)
    requires
        model.wf(),
    ensures
        ({
            let step = concluded(model.commanded(Command::PlayNext(tracks), now), now);
            let at = if model.queue.len() == 0 {
                0
            } else {
                model.index + 1
            };
            let more = tracks@.len() as int;
            &&& step.refused is None
            &&& step.model.queue.len() == model.queue.len() + more
            &&& forall|k: int|
                0 <= k < at ==> #[trigger] step.model.queue[k] == model.queue[k]
            &&& forall|k: int|
                0 <= k < more ==> step.model.queue[at + k] == (#[trigger] tracks@[k])@
            &&& forall|k: int|
                at <= k < model.queue.len() ==> step.model.queue[k + more]
                    == #[trigger] model.queue[k]
            &&& step.model.index == model.index
            &&& step.model.state == model.state
            &&& step.model.generation == model.generation
            &&& forall|k: int|
                0 <= k < step.effects.len() ==> #[trigger] step.effects[k] is Unprepare
        }),
{
}

/// Replacing the queue holds the tracks given, in the order given, and starts the one asked for
/// from its beginning; a place they do not have is refused, and the queue stays.
pub proof fn replace_plays_from_the_place_asked_for(
    model: PlayerModel,
    tracks: Vec<TrackRef>,
    start: usize,
    now: Instant,
)
    ensures
        ({
            let step = concluded(model.commanded(Command::Replace { tracks, start }, now), now);
            if start < tracks@.len() {
                &&& step.refused is None
                &&& step.model.queue.len() == tracks@.len()
                &&& forall|k: int|
                    0 <= k < tracks@.len() ==> step.model.queue[k] == (#[trigger] tracks@[k])@
                &&& step.model.index == start
                &&& step.model.track == Some(tracks@[start as int]@)
                &&& step.effects == seq![
                    EffectView::Start {
                        generation: step.model.generation,
                        track: tracks@[start as int]@,
                        position: Duration { nanos: 0 },
                    },
                ]
            } else {
                &&& step.refused is Some && step.refused->0 is NotFound
                &&& step.model.queue == model.queue
                &&& step.effects.len() == 0
            }
        }),
{
}

/// Removing an entry takes it out and nothing else: the entries before it stay, and those after it
/// move up by one. Removing another entry than the current one starts nothing; removing the current
/// one moves on to the entry after it, or silences where there is none.
pub proof fn remove_takes_out_one_entry(model: PlayerModel, index: usize, now: Instant)
    requires
        model.wf(),
    ensures
        ({
            let step = concluded(model.commanded(Command::Remove(index), now), now);
            let in_play = model.state == PlaybackState::Loading || model.state
                == PlaybackState::Playing || model.state == PlaybackState::Paused;
            if index < model.queue.len() {
                &&& step.refused is None
                &&& step.model.queue.len() == model.queue.len() - 1
                &&& forall|k: int|
                    0 <= k < index ==> #[trigger] step.model.queue[k] == model.queue[k]
                &&& forall|k: int|
                    index < k < model.queue.len() ==> step.model.queue[k - 1]
                        == #[trigger] model.queue[k]
                &&& index != model.index ==> {
                    &&& step.model.queue[step.model.index] == model.queue[model.index]
                    &&& step.model.state == model.state
                    &&& step.model.generation == model.generation
                    &&& forall|k: int|
                        0 <= k < step.effects.len() ==> #[trigger] step.effects[k] is Unprepare
                }
                &&& index == model.index && in_play && index + 1 < model.queue.len() ==> {
                    &&& step.effects.len() > 0
                    &&& step.effects.last() == (EffectView::Start {
                        generation: step.model.generation,
                        track: model.queue[index + 1],
                        position: Duration { nanos: 0 },
                    })
                    &&& step.model.index == index
                }
                &&& index == model.index && in_play && index + 1 == model.queue.len() ==> {
                    &&& step.effects.len() > 0
                    &&& step.effects.last() == (EffectView::Halt {
                        generation: step.model.generation,
                    })
                    &&& step.model.state == PlaybackState::Idle
                }
                &&& index == model.index && !in_play ==> step.model.state == model.state
            } else {
                &&& step.refused is Some && step.refused->0 is NotFound
                &&& step.model.queue == model.queue
                &&& step.effects.len() == 0
            }
        }),
{
}

/// Moving an entry puts it at the place asked for; the others keep their order, and the current
/// entry stays current. Nothing starts.
pub proof fn move_puts_the_entry_at_the_place(
    model: PlayerModel,
    from: usize,
    to: usize,
    now: Instant,
)
    requires
        model.wf(),
    ensures
        ({
            let step = concluded(model.commanded(Command::Move { from, to }, now), now);
            if from < model.queue.len() && to < model.queue.len() {
                &&& step.refused is None
                &&& step.model.queue.len() == model.queue.len()
                &&& step.model.queue[to as int] == model.queue[from as int]
                &&& step.model.queue.remove(to as int) =~= model.queue.remove(from as int)
                &&& step.model.queue[step.model.index] == model.queue[model.index]
                &&& from == model.index ==> step.model.index == to
                &&& step.model.generation == model.generation
                &&& step.model.state == model.state
                &&& forall|k: int|
                    0 <= k < step.effects.len() ==> #[trigger] step.effects[k] is Unprepare
            } else {
                &&& step.refused is Some && step.refused->0 is NotFound
                &&& step.model.queue == model.queue
                &&& step.effects.len() == 0
            }
        }),
{
}

/// Moving an entry back undoes a move: the queue and the current entry are as before.
pub proof fn moving_an_entry_back_undoes_it(
    model: PlayerModel,
    from: usize,
    to: usize,
    now: Instant,
    later: Instant,
)
    requires
        model.wf(),
        from < model.queue.len(),
        to < model.queue.len(),
    ensures
        ({
            let moved = concluded(model.commanded(Command::Move { from, to }, now), now).model;
            let back = concluded(
                moved.commanded(Command::Move { from: to, to: from }, later),
                later,
            ).model;
            back.queue =~= model.queue && back.index == model.index
        }),
{
}

/// A shuffle plays next the entry that the first draw picks among those to come, so that any of
/// them can be next.
pub proof fn a_shuffle_plays_what_is_drawn(model: PlayerModel, draws: Vec<u64>, now: Instant)
    requires
        model.wf(),
        model.index + 2 < model.queue.len(),
        draws@.len() > 0,
    ensures
        ({
            let step = concluded(model.commanded(Command::Shuffle { draws }, now), now);
            let left = model.queue.len() - model.index - 1;
            &&& step.refused is None
            &&& step.model.queue.len() == model.queue.len()
            &&& step.model.queue[model.index + 1] == model.queue[model.index + 1
                + draws@[0] as int % left]
            &&& step.model.index == model.index
            &&& forall|k: int|
                0 <= k <= model.index ==> #[trigger] step.model.queue[k] == model.queue[k]
        }),
{
    let rest = model.queue.skip(model.index + 1);
    dealing_is_a_permutation(rest, draws@, 0);
    let left = rest.len() as int;
    let pick = draws@[0] as int % left;
    vstd::arithmetic::div_mod::lemma_mod_bound(draws@[0] as int, left);
    assert(dealt(rest, draws@, 0)[0] == rest[pick]);
    assert(rest[pick] == model.queue[model.index + 1 + pick]);
    let queue = model.queue.take(model.index + 1) + dealt(rest, draws@, 0);
    assert(queue[model.index + 1] == dealt(rest, draws@, 0)[0]);
}

/// Every order can be dealt: whatever order of a pool is wished for, there are draws that give it.
pub proof fn any_order_can_be_dealt<T>(pool: Seq<T>, order: Seq<T>) -> (draws: Seq<u64>)
    requires
        pool.len() <= u64::MAX,
        order.to_multiset() == pool.to_multiset(),
    ensures
        draws.len() == pool.len(),
        dealt(pool, draws, 0) =~= order,
    decreases pool.len(),
{
    broadcast use vstd::seq_lib::group_to_multiset_ensures;

    assert(order.to_multiset().len() == order.len());
    assert(pool.to_multiset().len() == pool.len());
    assert(order.len() == pool.len());
    if pool.len() == 0 {
        Seq::empty()
    } else {
        assert(order.to_multiset().contains(order[0])) by {
            assert(order.contains(order[0]));
        }
        assert(pool.contains(order[0]));
        let pick = choose|i: int| 0 <= i < pool.len() && pool[i] == order[0];
        let tail = order.skip(1);
        assert(order.remove(0) =~= tail);
        assert(tail.to_multiset() =~= pool.remove(pick).to_multiset());
        let more = any_order_can_be_dealt(pool.remove(pick), tail);
        let draws = seq![pick as u64] + more;
        assert(pick % (pool.len() as int) == pick) by {
            vstd::arithmetic::div_mod::lemma_small_mod(pick as nat, pool.len());
        }
        dealing_looks_only_ahead(pool.remove(pick), draws, 1, more, 0);
        assert(dealt(pool, draws, 0) =~= seq![pool[pick]] + dealt(pool.remove(pick), draws, 1));
        draws
    }
}

/// Dealing looks only at the draws from where it is.
proof fn dealing_looks_only_ahead<T>(pool: Seq<T>, a: Seq<u64>, i: int, b: Seq<u64>, j: int)
    requires
        0 <= i,
        0 <= j,
        a.len() - i == b.len() - j,
        forall|k: int| 0 <= k && j + k < b.len() ==> a[i + k] == #[trigger] b[j + k],
    ensures
        dealt(pool, a, i) == dealt(pool, b, j),
    decreases pool.len(),
{
    if pool.len() > 0 {
        if j < b.len() {
            assert(a[i + 0] == b[j + 0]);
        }
        let pick = crate::player::draw(b, j) % (pool.len() as int);
        assert(crate::player::draw(a, i) == crate::player::draw(b, j));
        vstd::arithmetic::div_mod::lemma_mod_bound(
            crate::player::draw(b, j),
            pool.len() as int,
        );
        assert forall|k: int| 0 <= k && (j + 1) + k < b.len() implies a[(i + 1) + k]
            == #[trigger] b[(j + 1) + k] by {
            assert(a[i + (k + 1)] == b[j + (k + 1)]);
        }
        if i < a.len() {
            dealing_looks_only_ahead(pool.remove(pick), a, i + 1, b, j + 1);
        } else {
            dealing_past_the_draws(pool.remove(pick), a, i + 1, b, j + 1);
        }
    }
}

proof fn dealing_past_the_draws<T>(pool: Seq<T>, a: Seq<u64>, i: int, b: Seq<u64>, j: int)
    requires
        i >= a.len(),
        j >= b.len(),
        i >= 0,
        j >= 0,
    ensures
        dealt(pool, a, i) == dealt(pool, b, j),
    decreases pool.len(),
{
    if pool.len() > 0 {
        vstd::arithmetic::div_mod::lemma_small_mod(0, pool.len());
        dealing_past_the_draws(pool.remove(0), a, i + 1, b, j + 1);
    }
}

/// Setting the repeat sets it, and leaves what plays and the queue alone.
pub proof fn repeat_is_set_as_asked(model: PlayerModel, repeat: Repeat, now: Instant)
    ensures
        ({
            let step = concluded(model.commanded(Command::SetRepeat(repeat), now), now);
            &&& step.refused is None
            &&& step.model.repeat == repeat
            &&& step.model.queue == model.queue
            &&& step.model.index == model.index
            &&& step.model.state == model.state
            &&& step.model.generation == model.generation
            &&& repeat != model.repeat ==> step.model.prepared is None
        }),
{
}

/// Muting is what it was set to; the outputs hear of it exactly when it changes.
pub proof fn muting_is_set_as_asked(model: PlayerModel, muted: bool, now: Instant)
    ensures
        ({
            let step = concluded(model.commanded(Command::SetMuted(muted), now), now);
            &&& step.refused is None
            &&& step.model.muted == muted
            &&& step.effects == if muted == model.muted {
                Seq::empty()
            } else {
                seq![EffectView::SetMuted(muted)]
            }
            &&& step.model.volume == model.volume
            &&& step.model.state == model.state
        }),
{
}

/// A volume is kept between silence and full scale: one that lies there is kept as it is, one
/// above is full scale, one below is silence.
pub proof fn a_volume_is_kept_in_range(volume: Volume)
    ensures
        volume.bits <= FULL_VOLUME ==> volume.clamped() == volume,
        FULL_VOLUME <= volume.bits <= INFINITE ==> volume.clamped().bits == FULL_VOLUME,
        0x8000_0000 < volume.bits <= 0x8000_0000 + INFINITE ==> volume.clamped().bits == 0,
{
}

/// Setting the volume either sets it, and tells the outputs, or leaves it because it is there
/// already.
pub proof fn volume_is_set_as_asked(model: PlayerModel, volume: Volume, now: Instant)
    requires
        volume.bits <= FULL_VOLUME,
    ensures
        ({
            let step = concluded(model.commanded(Command::SetVolume(volume), now), now);
            &&& step.refused is None
            &&& if volume.close_to(model.volume) {
                step.model.volume == model.volume && step.effects.len() == 0
            } else {
                step.model.volume == volume && step.effects == seq![EffectView::SetVolume(volume)]
            }
            &&& step.model.muted == model.muted
            &&& step.model.state == model.state
        }),
{
}

/// Choosing an output is what counts from then on, and what is in play goes on there from where
/// the listener is.
pub proof fn a_chosen_output_takes_over_where_the_listener_is(
    model: PlayerModel,
    id: SinkId,
    now: Instant,
)
    ensures
        ({
            let step = concluded(model.commanded(Command::SelectSink(id), now), now);
            let in_play = model.state == PlaybackState::Loading || model.state
                == PlaybackState::Playing || model.state == PlaybackState::Paused;
            &&& step.refused is None
            &&& step.model.sink == Some(id@)
            &&& step.model.queue == model.queue
            &&& step.model.index == model.index
            &&& if in_play && 0 <= model.index < model.queue.len() {
                step.effects == seq![
                    EffectView::Start {
                        generation: step.model.generation,
                        track: model.queue[model.index],
                        position: Duration {
                            nanos: (model.position_ms(now) * 1_000_000) as u128,
                        },
                    },
                ]
            } else {
                step.effects.len() == 0 && step.model.state == model.state
            }
        }),
{
}

/// Where the listener is, on local output: as many whole milliseconds as the frames heard last,
/// held at the length of the track. Before anything is heard it is the start.
pub proof fn local_position_is_what_was_heard(model: PlayerModel, now: Instant)
    requires
        model.renderer is None,
    ensures
        ({
            let rate = model.clock.sample_rate as int;
            let heard = model.state == PlaybackState::Playing || model.state
                == PlaybackState::Paused || model.state == PlaybackState::Ended;
            let nanos = model.clock.frames * 1_000_000_000 / rate;
            let ms = nanos / 1_000_000;
            &&& !heard || rate == 0 ==> model.position_ms(now) == 0
            &&& heard && rate > 0 && nanos <= u64::MAX ==> model.position_ms(now) == (
            match model.duration_ms {
                Some(whole) => if ms <= whole {
                    ms
                } else {
                    whole as int
                },
                None => ms,
            })
        }),
{
    let rate = model.clock.sample_rate as int;
    if rate > 0 {
        let frames = model.clock.frames as int;
        let nanos = frames * 1_000_000_000 / rate;
        vstd::arithmetic::div_mod::lemma_div_pos_is_pos(frames * 1_000_000_000, rate);
        assert(nanos >= 0);
    }
}

/// Where the listener is, on a renderer: where its clock stood, and the time since if it runs, held
/// at the length of the track.
pub proof fn a_renderer_position_runs_with_time(model: PlayerModel, now: Instant)
    requires
        model.renderer is Some,
    ensures
        ({
            let clock = model.renderer->0;
            let run: int = match clock.running_since {
                Some(since) => if now.nanos >= since.nanos {
                    now.nanos - since.nanos
                } else {
                    0
                },
                None => 0,
            };
            let ms = (clock.anchor.nanos + run) / 1_000_000;
            clock.anchor.nanos + run <= u64::MAX ==> model.position_ms(now) == (
            match model.duration_ms {
                Some(whole) => if ms <= whole {
                    ms
                } else {
                    whole as int
                },
                None => ms,
            })
        }),
{
}

/// A stream that opens on local output plays at once, from where it was asked to; one handed to a
/// renderer is still loading, and stands where it was asked to. What is queued stays.
pub proof fn a_stream_opens_where_it_was_asked_to(
    model: PlayerModel,
    sample_rate: u32,
    duration_ms: Option<u64>,
    start_ms: u64,
    drive: PositionDrive,
    now: Instant,
)
    requires
        model.generation >= 0,
    ensures
        ({
            let event = EngineEvent::Loaded { sample_rate, duration_ms, start_ms, drive };
            let step = concluded(model.reported(model.generation, event, now), now);
            &&& step.effects.len() == 0
            &&& step.changed
            &&& step.model.error is None
            &&& step.model.queue == model.queue
            &&& step.model.index == model.index
            &&& step.model.generation == model.generation
            &&& step.model.duration_ms == match duration_ms {
                Some(known) => Some(known),
                None => model.duration_ms,
            }
            &&& match drive {
                PositionDrive::Frames => {
                    &&& step.model.state == PlaybackState::Playing
                    &&& step.model.renderer is None
                    &&& step.model.clock.sample_rate == sample_rate
                    &&& start_ms == 0 ==> step.model.clock.frames == 0
                    &&& start_ms > 0 && sample_rate > 0 ==> step.model.clock.frames
                        == crate::state::frames_in((start_ms * 1_000_000) as u128, sample_rate)
                },
                PositionDrive::Renderer => {
                    &&& step.model.state == PlaybackState::Loading
                    &&& step.model.renderer is Some
                    &&& step.model.position_ms(now) == (match step.model.duration_ms {
                        Some(whole) => if start_ms <= whole {
                            start_ms
                        } else {
                            whole
                        },
                        None => start_ms,
                    })
                },
            }
        }),
{
}

/// What a source says of the track that plays is written into its entry, and into no other.
pub proof fn a_description_is_written_into_the_entry(
    model: PlayerModel,
    meta: TrackMeta,
    now: Instant,
)
    requires
        model.wf(),
        model.prepared is Some ==> (model.prepared->0).0 != model.generation,
        0 <= model.index < model.queue.len(),
    ensures
        ({
            let step = concluded(
                model.reported(model.generation, EngineEvent::Described(meta), now),
                now,
            );
            &&& step.effects.len() == 0
            &&& step.model.queue.len() == model.queue.len()
            &&& step.model.queue[model.index].meta == meta@
            &&& step.model.queue[model.index].id == model.queue[model.index].id
            &&& step.model.queue[model.index].sources == model.queue[model.index].sources
            &&& forall|k: int|
                0 <= k < model.queue.len() && k != model.index ==> #[trigger] step.model.queue[k]
                    == model.queue[k]
            &&& model.track is Some ==> step.model.track is Some && step.model.track->0.meta
                == meta@ && step.model.track->0.id == model.track->0.id
            &&& meta.duration_ms is Some ==> step.model.duration_ms == meta.duration_ms
        }),
{
}

/// What a source says of the entry made ready is written into that entry, and into no other.
pub proof fn a_description_of_what_is_ready_is_written_there(
    model: PlayerModel,
    generation: int,
    index: int,
    meta: TrackMeta,
    now: Instant,
)
    requires
        model.wf(),
        model.prepared == Some((generation, index)),
    ensures
        ({
            let step = concluded(
                model.reported(generation, EngineEvent::Described(meta), now),
                now,
            );
            &&& step.model.queue.len() == model.queue.len()
            &&& step.model.queue[index].meta == meta@
            &&& step.model.queue[index].id == model.queue[index].id
            &&& forall|k: int|
                0 <= k < model.queue.len() && k != index ==> #[trigger] step.model.queue[k]
                    == model.queue[k]
            &&& step.model.track == model.track
            &&& step.model.state == model.state
        }),
{
}

/// What a renderer says it does is what the player shows, unless a command it may not have seen yet
/// says otherwise.
pub proof fn a_renderer_is_believed(model: PlayerModel, reported: RendererState, now: Instant)
    requires
        model.renderer is Some,
        model.expect is None,
    ensures
        concluded(
            model.reported(model.generation, EngineEvent::RendererState(reported), now),
            now,
        ).model.state == match reported {
            RendererState::Playing => PlaybackState::Playing,
            RendererState::Paused => PlaybackState::Paused,
            RendererState::Buffering => PlaybackState::Loading,
        },
{
}

/// When a track ends, the queue goes on as the repeat says: with none, to the entry after it, and
/// after the last nothing starts; with all, round to the first; with one, the same again. What
/// starts does so from its beginning.
pub proof fn the_end_of_a_track_goes_on_as_the_repeat_says(model: PlayerModel, now: Instant)
    requires
        model.wf(),
        0 <= model.index < model.queue.len(),
        model.state == PlaybackState::Loading || model.state == PlaybackState::Playing
            || model.state == PlaybackState::Paused,
    ensures
        ({
            let step = concluded(
                model.reported(model.generation, EngineEvent::Ended, now),
                now,
            );
            let last = model.index + 1 == model.queue.len();
            let next = match model.repeat {
                Repeat::One => model.index,
                Repeat::All => if last {
                    0
                } else {
                    model.index + 1
                },
                Repeat::Off => model.index + 1,
            };
            if model.repeat == Repeat::Off && last {
                &&& step.effects.len() == 0
                &&& step.model.state == PlaybackState::Ended
                &&& step.model.index == model.index
                &&& step.model.queue == model.queue
            } else {
                &&& step.effects == seq![
                    EffectView::Start {
                        generation: step.model.generation,
                        track: model.queue[next],
                        position: Duration { nanos: 0 },
                    },
                ]
                &&& step.model.index == next
                &&& step.model.track == Some(model.queue[next])
                &&& step.model.queue == model.queue
            }
        }),
{
}

/// A playback that fails shows why, and stays where it is in the queue.
pub proof fn a_failure_is_shown(model: PlayerModel, message: String, now: Instant)
    ensures
        ({
            let step = concluded(
                model.reported(model.generation, EngineEvent::Failed(message), now),
                now,
            );
            &&& step.model.state == PlaybackState::Error
            &&& step.model.error == Some(message@)
            &&& step.model.queue == model.queue
            &&& step.model.index == model.index
            &&& step.effects.len() == 0
        }),
{
}

/// The entry to follow is made ready when a track on local output has fifteen seconds or less left
/// to play, once, and not before: it is the entry that would play if the track ended now.
pub proof fn the_next_entry_is_made_ready_in_the_last_seconds(model: PlayerModel, now: Instant)
    requires
        model.wf(),
        0 <= model.index < model.queue.len(),
    ensures
        ({
            let step = model.preparing(now);
            let last = model.index + 1 == model.queue.len();
            let next = match model.repeat {
                Repeat::One => model.index,
                Repeat::All => if last {
                    0
                } else {
                    model.index + 1
                },
                Repeat::Off => model.index + 1,
            };
            let due = model.renderer is None && model.state == PlaybackState::Playing
                && model.prepared is None && model.duration_ms is Some && model.position_ms(now)
                + 15_000 >= model.duration_ms->0 && !(model.repeat == Repeat::Off && last);
            if due {
                &&& step.model.prepared == Some((step.model.issued, next))
                &&& step.model.issued > model.issued
                &&& step.effects == seq![
                    EffectView::Prepare {
                        generation: model.generation,
                        next_generation: step.model.issued,
                        track: model.queue[next],
                    },
                ]
            } else {
                step.effects.len() == 0 && step.model.prepared == model.prepared
            }
        }),
{
}

/// What a client is shown is what the player holds: the state, the track, where the listener is,
/// and the queue. Position runs on exactly while playing.
pub proof fn a_snapshot_shows_the_player(
    snapshot: PlayerSnapshot,
    model: PlayerModel,
    now: Instant,
)
    requires
        snapshot.shows(model, now),
    ensures
        snapshot.seq == model.seq,
        snapshot.state == model.state,
        snapshot.track is Some <==> model.track is Some,
        snapshot.track is Some ==> snapshot.track->0@ == model.track->0,
        snapshot.position_ms == model.position_ms(now),
        snapshot.duration_ms == model.duration_ms,
        snapshot.rate == 1 <==> model.state == PlaybackState::Playing,
        snapshot.rate <= 1,
        snapshot.volume == model.volume,
        snapshot.muted == model.muted,
        snapshot.sink is Some <==> model.sink is Some,
        snapshot.sink is Some ==> snapshot.sink->0@ == model.sink->0,
        snapshot.error is Some <==> model.error is Some,
        snapshot.error is Some ==> snapshot.error->0@ == model.error->0,
        snapshot.queue.len == model.queue.len(),
        snapshot.queue.index == model.index,
        snapshot.queue.revision == model.revision,
        snapshot.queue.repeat == model.repeat,
{
}

/// What a renderer says of its position is taken: where it is far from what was thought, the
/// position becomes what the renderer says, counted from where its stream began.
pub proof fn a_renderers_position_is_taken(model: PlayerModel, reported: Duration, now: Instant)
    requires
        model.renderer is Some,
        ({
            let clock = model.renderer->0;
            let told = (clock.origin.nanos + reported.nanos) / 1_000_000;
            let at = clock.at(now) as int / 1_000_000;
            &&& clock.origin.nanos + reported.nanos <= i64::MAX * 1_000_000
            &&& clock.at(now) <= i64::MAX * 1_000_000
            &&& told - at > 1_500 || at - told > 1_500
        }),
    ensures
        ({
            let step = concluded(
                model.reported(model.generation, EngineEvent::RendererPosition(reported), now),
                now,
            );
            &&& step.model.renderer is Some
            &&& step.model.renderer->0.at(now) == model.renderer->0.origin.nanos + reported.nanos
            &&& step.model.state == model.state
            &&& step.effects.len() == 0
        }),
{
    crate::position::a_far_report_is_jumped_to(model.renderer->0, now, reported.nanos);
}

/// Crossing into what was made ready shows that entry, with its own length, and no error.
pub proof fn crossing_shows_the_entry_made_ready(model: PlayerModel, now: Instant)
    requires
        model.wf(),
        model.prepared is Some,
        (model.prepared->0).0 <= u64::MAX,
    ensures
        ({
            let (next, index) = model.prepared->0;
            let after = concluded(
                model.reported(
                    model.generation,
                    EngineEvent::Advanced { to: next as u64 },
                    now,
                ),
                now,
            ).model;
            &&& after.track == Some(model.queue[index])
            &&& after.duration_ms == model.queue[index].meta.duration_ms
            &&& after.index == index
            &&& after.queue == model.queue
            &&& after.error is None
        }),
{
}

/// What changes the player moves its sequence number on by one, and what does not leaves it.
pub proof fn a_transition_moves_the_sequence_by_one(
    model: PlayerModel,
    command: Command,
    now: Instant,
)
    ensures
        ({
            let step = concluded(model.commanded(command, now), now);
            &&& step.changed ==> step.model.seq == model.commanded(command, now).model.seq + 1
            &&& !step.changed ==> step.model.seq == model.commanded(command, now).model.seq
        }),
{
}

/// A pause on a renderer is believed for three seconds against a report that it plays.
pub proof fn a_pause_stands_for_three_seconds(model: PlayerModel, paused_at: Instant, now: Instant)
    requires
        model.renderer is Some,
        model.state == PlaybackState::Playing,
        paused_at.nanos + 3_000_000_000 <= u128::MAX,
    ensures
        ({
            let paused = concluded(model.commanded(Command::Pause, paused_at), paused_at).model;
            let told = concluded(
                paused.reported(
                    paused.generation,
                    EngineEvent::RendererState(RendererState::Playing),
                    now,
                ),
                now,
            );
            &&& now.nanos < paused_at.nanos + 3_000_000_000 ==> told.model.state
                == PlaybackState::Paused && !told.changed
            &&& now.nanos >= paused_at.nanos + 3_000_000_000 ==> told.model.state
                == PlaybackState::Playing
        }),
{
    crate::player::a_pause_on_a_renderer_holds_for_the_window(model, paused_at, paused_at, now);
}

} // verus!
