//! What the library shows and plays: which tracks an item stands for, in which order, and what is
//! said of each.

use vstd::prelude::*;

use crate::id::EntityId;
use crate::library::{shown_album_detail, shown_page, shown_playlist_detail};
use crate::model::{AlbumTrack, EntityKind};
use crate::rows::{
    first_at_matches, found_first, found_none, in_order, in_order_holds_the_same,
    in_order_is_sorted, places, places_are_the_matches,
};
use crate::shelf::{contains_text, folded, page_of, playlist_rank, saved_as, saved_rank, stands_at};
use crate::source::SourcesModel;
use crate::store::{
    album_is, artist_is, playlist_is, saved_is, slot_of, track_is, SavedRow, Slot, StoreModel,
};
use crate::tracklist::{slot_holds, slot_rank};
use crate::view::NamedModel;

verus! {

// --- what is queued ---

/// Every track the library knows is given, in the order asked for, and as the track it is.
pub proof fn known_tracks_are_given_in_order(model: StoreModel, ids: Seq<EntityId>)
    requires
        forall|i: int| 0 <= i < ids.len() ==> model.track_at(#[trigger] ids[i]) is Some,
    ensures
        model.track_refs(ids).len() == ids.len(),
        forall|i: int|
            0 <= i < ids.len() ==> (#[trigger] model.track_refs(ids)[i]).id == ids[i]
                && model.track_ref(ids[i]) == Some(model.track_refs(ids)[i]),
    decreases ids.len(),
{
    if ids.len() > 0 {
        let less = ids.drop_last();
        assert forall|i: int| 0 <= i < less.len() implies model.track_at(
            #[trigger] less[i],
        ) is Some by {
            assert(model.track_at(ids[i]) is Some);
        }
        known_tracks_are_given_in_order(model, less);
        assert(model.track_at(ids[ids.len() - 1]) is Some);
        assert forall|i: int| 0 <= i < ids.len() implies (#[trigger] model.track_refs(ids)[i]).id
            == ids[i] && model.track_ref(ids[i]) == Some(model.track_refs(ids)[i]) by {
            if i < less.len() {
                assert(model.track_refs(ids)[i] == model.track_refs(less)[i]);
                assert(less[i] == ids[i]);
            }
        }
    }
}

/// A track the library does not know is left out, and the others are given all the same.
pub proof fn unknown_tracks_are_left_out(model: StoreModel, ids: Seq<EntityId>, id: EntityId)
    ensures
        (exists|i: int|
            0 <= i < model.track_refs(ids).len() && (#[trigger] model.track_refs(ids)[i]).id == id)
            <==> ids.contains(id) && model.track_at(id) is Some,
    decreases ids.len(),
{
    if ids.len() > 0 {
        let less = ids.drop_last();
        let last = ids.last();
        unknown_tracks_are_left_out(model, less, id);
        let refs = model.track_refs(ids);
        let fewer = model.track_refs(less);
        assert(ids.contains(id) <==> less.contains(id) || last == id) by {
            if less.contains(id) {
                let k = choose|k: int| 0 <= k < less.len() && less[k] == id;
                assert(ids[k] == id);
            }
            if last == id {
                assert(ids[ids.len() - 1] == id);
            }
            if ids.contains(id) && last != id {
                let k = choose|k: int| 0 <= k < ids.len() && ids[k] == id;
                assert(less[k] == id);
            }
        }
        if exists|i: int| 0 <= i < fewer.len() && (#[trigger] fewer[i]).id == id {
            let i = choose|i: int| 0 <= i < fewer.len() && (#[trigger] fewer[i]).id == id;
            assert(refs[i] == fewer[i]);
        }
        if last == id && model.track_at(id) is Some {
            assert(refs[refs.len() - 1].id == id);
        }
        if exists|i: int| 0 <= i < refs.len() && (#[trigger] refs[i]).id == id {
            let i = choose|i: int| 0 <= i < refs.len() && (#[trigger] refs[i]).id == id;
            if i < fewer.len() {
                assert(fewer[i] == refs[i]);
            } else {
                assert(last == id && model.track_at(id) is Some);
            }
        }
    }
}

/// An album plays as its tracklist: its tracks, all of them, in the order it lists them.
pub proof fn an_album_plays_as_its_tracklist(model: StoreModel, album: EntityId)
    requires
        model.track_at(album) is None,
        model.album_at(album) is Some,
        forall|i: int|
            0 <= i < model.tracklist(album).len() ==> model.track_at(
                (#[trigger] model.tracklist(album)[i]).track,
            ) is Some,
    ensures
        model.expansion(album) is Ok,
        model.expansion(album)->Ok_0.len() == model.tracklist(album).len(),
        forall|i: int|
            0 <= i < model.tracklist(album).len() ==> (#[trigger] model.expansion(
                album,
            )->Ok_0[i]).id == model.tracklist(album)[i].track,
{
    let list = model.tracklist(album);
    let ids = list.map_values(|t: AlbumTrack| t.track);
    assert forall|i: int| 0 <= i < ids.len() implies model.track_at(#[trigger] ids[i]) is Some by {
        assert(model.track_at(list[i].track) is Some);
    }
    known_tracks_are_given_in_order(model, ids);
    assert forall|i: int| 0 <= i < list.len() implies (#[trigger] model.expansion(
        album,
    )->Ok_0[i]).id == list[i].track by {
        assert(ids[i] == list[i].track);
        assert(model.track_refs(ids)[i].id == ids[i]);
    }
}

/// An album plays disc by disc, and each disc from its first position to its last.
pub proof fn an_album_plays_in_disc_and_position_order(
    model: StoreModel,
    album: EntityId,
    i: int,
    j: int,
)
    requires
        model.track_at(album) is None,
        model.album_at(album) is Some,
        model.slots.len() <= usize::MAX,
        0 <= i < j < model.tracklist(album).len(),
        forall|k: int|
            0 <= k < model.tracklist(album).len() ==> model.track_at(
                (#[trigger] model.tracklist(album)[k]).track,
            ) is Some,
    ensures
        exists|a: Slot, b: Slot| #[trigger]
            model.slots.contains(a) && #[trigger] model.slots.contains(b) && a.album == album
                && b.album == album && a.track == model.expansion(album)->Ok_0[i].id && b.track
                == model.expansion(album)->Ok_0[j].id && (a.disc < b.disc || (a.disc == b.disc
                && a.position <= b.position)),
{
    an_album_plays_as_its_tracklist(model, album);
    crate::tracklist::a_tracklist_reads_in_order(model, album, i, j);
    let list = model.tracklist(album);
    a_tracklist_lists_the_albums_slots(model, album, list[i]);
    a_tracklist_lists_the_albums_slots(model, album, list[j]);
    assert(list.contains(list[i]) && list.contains(list[j]));
    let a = Slot {
        album,
        disc: list[i].disc,
        position: list[i].position,
        track: list[i].track,
    };
    let b = Slot {
        album,
        disc: list[j].disc,
        position: list[j].position,
        track: list[j].track,
    };
    assert(model.expansion(album)->Ok_0[i].id == list[i].track);
    assert(model.expansion(album)->Ok_0[j].id == list[j].track);
    assert(model.slots.contains(a) && model.slots.contains(b));
}

/// A tracklist lists what is placed on the album, where it is placed, and nothing else.
pub proof fn a_tracklist_lists_the_albums_slots(
    model: StoreModel,
    album: EntityId,
    entry: AlbumTrack,
)
    requires
        model.slots.len() <= usize::MAX,
    ensures
        model.tracklist(album).contains(entry) <==> model.slots.contains(
            Slot { album, disc: entry.disc, position: entry.position, track: entry.track },
        ),
{
    let n = model.slots.len() as int;
    let p = slot_of(album);
    let at = places(model.slots, p, n);
    let ranks = model.slot_ranks(album);
    let sorted = in_order(ranks);
    let list = model.tracklist(album);
    let slot = Slot { album, disc: entry.disc, position: entry.position, track: entry.track };
    places_are_the_matches(model.slots, p, n);
    in_order_holds_the_same(ranks);
    if list.contains(entry) {
        let k = choose|k: int| 0 <= k < list.len() && list[k] == entry;
        assert(sorted.contains(sorted[k]));
        assert(ranks.contains(sorted[k]));
        let l = choose|l: int| 0 <= l < ranks.len() && ranks[l] == sorted[k];
        let i = at[l];
        assert(0 <= i < n && p(model.slots[i]));
        assert(model.slots[i] == slot);
    }
    if model.slots.contains(slot) {
        let i = choose|i: int| 0 <= i < n && model.slots[i] == slot;
        assert(p(model.slots[i]));
        assert(at.contains(i));
        let l = choose|l: int| 0 <= l < at.len() && at[l] == i;
        assert(ranks[l] == slot_rank(model.slots, i));
        assert(ranks.contains(ranks[l]));
        assert(sorted.contains(ranks[l]));
        let k = choose|k: int| 0 <= k < sorted.len() && sorted[k] == ranks[l];
        assert(list[k] == entry);
    }
}

/// A tracklist has one entry for every slot of the album.
pub proof fn a_tracklist_has_an_entry_for_every_slot(model: StoreModel, album: EntityId)
    ensures
        model.tracklist(album).len() == model.slots.filter(|s: Slot| s.album == album).len(),
{
    in_order_holds_the_same(model.slot_ranks(album));
    assert(model.slots.take(model.slots.len() as int) =~= model.slots);
    as_many_places_as_matches(model.slots, album, model.slots.len() as int);
}

proof fn as_many_places_as_matches(slots: Seq<Slot>, album: EntityId, n: int)
    requires
        0 <= n <= slots.len(),
    ensures
        places(slots, slot_of(album), n).len() == slots.take(n).filter(
            |s: Slot| s.album == album,
        ).len(),
    decreases n,
{
    reveal(Seq::filter);
    let f = |s: Slot| s.album == album;
    if n > 0 {
        as_many_places_as_matches(slots, album, n - 1);
        assert(slots.take(n).drop_last() =~= slots.take(n - 1));
        assert(slots.take(n).last() == slots[n - 1]);
    }
}

/// A playlist plays as its tracks, all of them, in the order it holds them, as often as it does.
pub proof fn a_playlist_plays_as_its_tracks(model: StoreModel, id: EntityId, at: int)
    requires
        0 <= at < model.playlists.len(),
        model.playlists[at].id == id,
        forall|k: int| 0 <= k < at ==> (#[trigger] model.playlists[k]).id != id,
        model.track_at(id) is None,
        model.album_at(id) is None,
        model.artist_at(id) is None,
        forall|k: int|
            0 <= k < model.playlists[at].tracks.len() ==> model.track_at(
                #[trigger] model.playlists[at].tracks[k],
            ) is Some,
    ensures
        model.expansion(id) is Ok,
        model.expansion(id)->Ok_0.len() == model.playlists[at].tracks.len(),
        forall|k: int|
            0 <= k < model.playlists[at].tracks.len() ==> (#[trigger] model.expansion(
                id,
            )->Ok_0[k]).id == model.playlists[at].tracks[k],
{
    found_first(model.playlists, playlist_is(id), at);
    known_tracks_are_given_in_order(model, model.playlists[at].tracks);
}

/// A track plays as itself; an artist is no list of tracks; and what the library does not hold
/// plays as nothing.
pub proof fn a_track_plays_as_itself(model: StoreModel, id: EntityId)
    ensures
        model.track_at(id) is Some ==> model.expansion(id) is Ok && model.expansion(
            id,
        )->Ok_0.len() == 1 && model.expansion(id)->Ok_0[0].id == id,
        model.track_at(id) is None && model.album_at(id) is None && model.artist_at(id) is Some
            ==> model.expansion(id) is Err && model.expansion(id)->Err_0 is Unsupported,
        model.track_at(id) is None && model.album_at(id) is None && model.artist_at(id) is None
            && model.playlist_at(id) is None ==> model.expansion(id) is Err && model.expansion(
            id,
        )->Err_0 is NotFound,
{
    if model.track_at(id) is Some {
        known_tracks_are_given_in_order(model, seq![id]);
        assert(model.track_refs(seq![id])[0].id == seq![id][0]);
    }
}

// --- what is said of a track ---

/// A track is given with its own title and length, and with everywhere it can be had.
pub proof fn a_track_is_given_as_the_library_knows_it(model: StoreModel, id: EntityId, at: int)
    requires
        0 <= at < model.tracks.len(),
        model.tracks[at].id == id,
        forall|k: int| 0 <= k < at ==> (#[trigger] model.tracks[k]).id != id,
    ensures
        ({
            let given = model.track_ref(id);
            &&& given is Some
            &&& given->0.id == id
            &&& given->0.meta.title == model.tracks[at].title
            &&& given->0.meta.duration_ms == model.tracks[at].duration_ms
            &&& given->0.sources == model.sources_of(id)
        }),
        ({
            let shown = model.track_shown(id, None);
            &&& shown is Some
            &&& shown->0.id == id
            &&& shown->0.title == model.tracks[at].title
            &&& shown->0.duration_ms == model.tracks[at].duration_ms
            &&& shown->0.sources == model.sources_of(id)
            &&& shown->0.saved <==> exists|k: int|
                0 <= k < model.saved.len() && (#[trigger] model.saved[k]).entity == id
        }),
{
    found_first(model.tracks, track_is(id), at);
    whether_something_is_saved(model, id);
}

proof fn whether_something_is_saved(model: StoreModel, id: EntityId)
    ensures
        model.is_saved(id) <==> exists|k: int|
            0 <= k < model.saved.len() && (#[trigger] model.saved[k]).entity == id,
{
    first_at_matches(model.saved, saved_is(id));
    if model.is_saved(id) {
        let k = model.saved_at(id)->0;
        assert(saved_is(id)(model.saved[k]));
    }
    if exists|k: int| 0 <= k < model.saved.len() && (#[trigger] model.saved[k]).entity == id {
        let k = choose|k: int| 0 <= k < model.saved.len() && (#[trigger] model.saved[k]).entity == id;
        assert(saved_is(id)(model.saved[k]));
    }
}

/// What the library does not know is not shown.
pub proof fn what_is_not_known_is_not_shown(model: StoreModel, id: EntityId)
    ensures
        (forall|k: int| 0 <= k < model.tracks.len() ==> (#[trigger] model.tracks[k]).id != id)
            ==> model.track_ref(id) is None && model.track_shown(id, None) is None,
        (forall|k: int| 0 <= k < model.albums.len() ==> (#[trigger] model.albums[k]).id != id)
            ==> model.album_shown(id) is None && model.album_detail(id) is None,
        (forall|k: int| 0 <= k < model.artists.len() ==> (#[trigger] model.artists[k]).id != id)
            ==> model.artist_shown(id) is None,
        (forall|k: int| 0 <= k < model.playlists.len() ==> (#[trigger] model.playlists[k]).id != id)
            ==> model.playlist_shown(id) is None && model.playlist_detail(id) is None,
{
    if forall|k: int| 0 <= k < model.tracks.len() ==> (#[trigger] model.tracks[k]).id != id {
        found_none(model.tracks, track_is(id));
    }
    if forall|k: int| 0 <= k < model.albums.len() ==> (#[trigger] model.albums[k]).id != id {
        found_none(model.albums, album_is(id));
    }
    if forall|k: int| 0 <= k < model.artists.len() ==> (#[trigger] model.artists[k]).id != id {
        found_none(model.artists, artist_is(id));
    }
    if forall|k: int| 0 <= k < model.playlists.len() ==> (#[trigger] model.playlists[k]).id != id {
        found_none(model.playlists, playlist_is(id));
    }
}

/// A track is shown on the album it was placed on first, and with that album's picture.
pub proof fn a_track_is_shown_on_its_first_album(
    model: StoreModel,
    id: EntityId,
    slot: int,
    at: int,
)
    requires
        model.track_at(id) is Some,
        0 <= slot < model.slots.len(),
        model.slots[slot].track == id,
        forall|k: int| 0 <= k < slot ==> (#[trigger] model.slots[k]).track != id,
        0 <= at < model.albums.len(),
        model.albums[at].id == model.slots[slot].album,
        forall|k: int| 0 <= k < at ==> (#[trigger] model.albums[k]).id != model.slots[slot].album,
    ensures
        model.track_ref(id)->0.meta.album == Some(model.albums[at].album.title),
        model.track_ref(id)->0.meta.artwork_url == model.albums[at].album.artwork_url,
        model.track_shown(id, None)->0.album == Some(
            NamedModel { id: model.slots[slot].album, name: model.albums[at].album.title },
        ),
        model.track_shown(id, None)->0.artwork_url == model.albums[at].album.artwork_url,
{
    found_first(model.slots, slot_holds(id), slot);
    found_first(model.albums, album_is(model.slots[slot].album), at);
}

/// A track is shown on the album it is asked about on, where that is known.
pub proof fn a_track_is_shown_on_the_album_asked_about(
    model: StoreModel,
    id: EntityId,
    album: EntityId,
    at: int,
)
    requires
        model.track_at(id) is Some,
        0 <= at < model.albums.len(),
        model.albums[at].id == album,
        forall|k: int| 0 <= k < at ==> (#[trigger] model.albums[k]).id != album,
    ensures
        model.track_shown(id, Some(album)) is Some,
        model.track_shown(id, Some(album))->0.id == id,
        model.track_shown(id, Some(album))->0.album == Some(
            NamedModel { id: album, name: model.albums[at].album.title },
        ),
        model.track_shown(id, Some(album))->0.artwork_url == model.albums[at].album.artwork_url,
{
    found_first(model.albums, album_is(album), at);
}

/// The artists credited are named, in the order they are credited, each by its own name.
pub proof fn credited_artists_are_named_in_order(model: StoreModel, ids: Seq<EntityId>)
    requires
        forall|i: int| 0 <= i < ids.len() ==> model.artist_at(#[trigger] ids[i]) is Some,
    ensures
        model.named_artists(ids).len() == ids.len(),
        forall|i: int|
            0 <= i < ids.len() ==> (#[trigger] model.named_artists(ids)[i]).id == ids[i]
                && model.named_artists(ids)[i].name == model.artists[model.artist_at(
                ids[i],
            )->0].artist.name,
    decreases ids.len(),
{
    if ids.len() > 0 {
        let less = ids.drop_last();
        assert forall|i: int| 0 <= i < less.len() implies model.artist_at(
            #[trigger] less[i],
        ) is Some by {
            assert(model.artist_at(ids[i]) is Some);
        }
        credited_artists_are_named_in_order(model, less);
        assert(model.artist_at(ids[ids.len() - 1]) is Some);
        assert forall|i: int| 0 <= i < ids.len() implies (#[trigger] model.named_artists(
            ids,
        )[i]).id == ids[i] && model.named_artists(ids)[i].name == model.artists[model.artist_at(
            ids[i],
        )->0].artist.name by {
            if i < less.len() {
                assert(model.named_artists(ids)[i] == model.named_artists(less)[i]);
                assert(less[i] == ids[i]);
            }
        }
    }
}

/// A track is credited to its artists by name; where none is known, to what the credit says.
pub proof fn a_track_names_its_artists(model: StoreModel, id: EntityId, at: int)
    requires
        0 <= at < model.tracks.len(),
        model.tracks[at].id == id,
        forall|k: int| 0 <= k < at ==> (#[trigger] model.tracks[k]).id != id,
        forall|k: int|
            0 <= k < model.tracks[at].artists.len() ==> model.artist_at(
                #[trigger] model.tracks[at].artists[k],
            ) is Some,
    ensures
        ({
            let credited = model.tracks[at].artists;
            let names = model.track_ref(id)->0.meta.artists;
            &&& credited.len() > 0 ==> names.len() == credited.len() && forall|k: int|
                0 <= k < credited.len() ==> #[trigger] names[k] == model.artists[model.artist_at(
                    credited[k],
                )->0].artist.name
            &&& credited.len() == 0 && model.tracks[at].credit.len() > 0 ==> names == seq![
                model.tracks[at].credit,
            ]
            &&& credited.len() == 0 && model.tracks[at].credit.len() == 0 ==> names.len() == 0
        }),
{
    found_first(model.tracks, track_is(id), at);
    let credited = model.tracks[at].artists;
    credited_artists_are_named_in_order(model, credited);
    let named = model.named_artists(credited);
    let names = model.track_ref(id)->0.meta.artists;
    if credited.len() > 0 {
        assert forall|k: int| 0 <= k < credited.len() implies #[trigger] names[k]
            == model.artists[model.artist_at(credited[k])->0].artist.name by {
            assert(named[k].name == model.artists[model.artist_at(credited[k])->0].artist.name);
        }
    }
}

// --- what is listed ---

/// Every track the library knows is shown, in the order asked for.
pub proof fn known_tracks_are_shown_in_order(model: StoreModel, ids: Seq<EntityId>)
    requires
        forall|i: int| 0 <= i < ids.len() ==> model.track_at(#[trigger] ids[i]) is Some,
    ensures
        model.tracks_shown(ids).len() == ids.len(),
        forall|i: int|
            0 <= i < ids.len() ==> (#[trigger] model.tracks_shown(ids)[i]).id == ids[i]
                && model.track_shown(ids[i], None) == Some(model.tracks_shown(ids)[i]),
    decreases ids.len(),
{
    if ids.len() > 0 {
        let less = ids.drop_last();
        assert forall|i: int| 0 <= i < less.len() implies model.track_at(
            #[trigger] less[i],
        ) is Some by {
            assert(model.track_at(ids[i]) is Some);
        }
        known_tracks_are_shown_in_order(model, less);
        assert(model.track_at(ids[ids.len() - 1]) is Some);
        assert forall|i: int| 0 <= i < ids.len() implies (#[trigger] model.tracks_shown(
            ids,
        )[i]).id == ids[i] && model.track_shown(ids[i], None) == Some(
            model.tracks_shown(ids)[i],
        ) by {
            if i < less.len() {
                assert(model.tracks_shown(ids)[i] == model.tracks_shown(less)[i]);
                assert(less[i] == ids[i]);
            }
        }
    }
}

/// Every album the library knows is shown, in the order asked for, as it is known.
pub proof fn known_albums_are_shown_in_order(model: StoreModel, ids: Seq<EntityId>)
    requires
        forall|i: int| 0 <= i < ids.len() ==> model.album_at(#[trigger] ids[i]) is Some,
    ensures
        model.albums_shown(ids).len() == ids.len(),
        forall|i: int|
            0 <= i < ids.len() ==> {
                let shown = #[trigger] model.albums_shown(ids)[i];
                let known = model.albums[model.album_at(ids[i])->0].album;
                &&& shown.id == ids[i]
                &&& shown.title == known.title
                &&& shown.credit == known.credit
                &&& shown.release_date == known.release_date
                &&& shown.artwork_url == known.artwork_url
                &&& shown.sources == model.sources_of(ids[i])
            },
    decreases ids.len(),
{
    if ids.len() > 0 {
        let less = ids.drop_last();
        assert forall|i: int| 0 <= i < less.len() implies model.album_at(
            #[trigger] less[i],
        ) is Some by {
            assert(model.album_at(ids[i]) is Some);
        }
        known_albums_are_shown_in_order(model, less);
        assert(model.album_at(ids[ids.len() - 1]) is Some);
        assert forall|i: int| 0 <= i < ids.len() implies ({
            let shown = #[trigger] model.albums_shown(ids)[i];
            let known = model.albums[model.album_at(ids[i])->0].album;
            &&& shown.id == ids[i]
            &&& shown.title == known.title
            &&& shown.credit == known.credit
            &&& shown.release_date == known.release_date
            &&& shown.artwork_url == known.artwork_url
            &&& shown.sources == model.sources_of(ids[i])
        }) by {
            if i < less.len() {
                assert(model.albums_shown(ids)[i] == model.albums_shown(less)[i]);
                assert(less[i] == ids[i]);
            }
        }
    }
}

/// Every artist the library knows is shown, in the order asked for, by name.
pub proof fn known_artists_are_shown_in_order(model: StoreModel, ids: Seq<EntityId>)
    requires
        forall|i: int| 0 <= i < ids.len() ==> model.artist_at(#[trigger] ids[i]) is Some,
    ensures
        model.artists_shown(ids).len() == ids.len(),
        forall|i: int|
            0 <= i < ids.len() ==> (#[trigger] model.artists_shown(ids)[i]).id == ids[i]
                && model.artists_shown(ids)[i].name == model.artists[model.artist_at(
                ids[i],
            )->0].artist.name,
    decreases ids.len(),
{
    if ids.len() > 0 {
        let less = ids.drop_last();
        assert forall|i: int| 0 <= i < less.len() implies model.artist_at(
            #[trigger] less[i],
        ) is Some by {
            assert(model.artist_at(ids[i]) is Some);
        }
        known_artists_are_shown_in_order(model, less);
        assert(model.artist_at(ids[ids.len() - 1]) is Some);
        assert forall|i: int| 0 <= i < ids.len() implies (#[trigger] model.artists_shown(
            ids,
        )[i]).id == ids[i] && model.artists_shown(ids)[i].name == model.artists[model.artist_at(
            ids[i],
        )->0].artist.name by {
            if i < less.len() {
                assert(model.artists_shown(ids)[i] == model.artists_shown(less)[i]);
                assert(less[i] == ids[i]);
            }
        }
    }
}

/// Every playlist the library holds is shown, in the order asked for, with how many tracks it has.
pub proof fn known_playlists_are_shown_in_order(model: StoreModel, ids: Seq<EntityId>)
    requires
        forall|i: int| 0 <= i < ids.len() ==> model.playlist_at(#[trigger] ids[i]) is Some,
    ensures
        model.playlists_shown(ids).len() == ids.len(),
        forall|i: int|
            0 <= i < ids.len() ==> {
                let shown = #[trigger] model.playlists_shown(ids)[i];
                let held = model.playlists[model.playlist_at(ids[i])->0];
                &&& shown.id == ids[i]
                &&& shown.name == held.name
                &&& shown.track_count == held.tracks.len()
                &&& shown.updated_at == held.updated_at
            },
    decreases ids.len(),
{
    if ids.len() > 0 {
        let less = ids.drop_last();
        assert forall|i: int| 0 <= i < less.len() implies model.playlist_at(
            #[trigger] less[i],
        ) is Some by {
            assert(model.playlist_at(ids[i]) is Some);
        }
        known_playlists_are_shown_in_order(model, less);
        assert(model.playlist_at(ids[ids.len() - 1]) is Some);
        assert forall|i: int| 0 <= i < ids.len() implies ({
            let shown = #[trigger] model.playlists_shown(ids)[i];
            let held = model.playlists[model.playlist_at(ids[i])->0];
            &&& shown.id == ids[i]
            &&& shown.name == held.name
            &&& shown.track_count == held.tracks.len()
            &&& shown.updated_at == held.updated_at
        }) by {
            if i < less.len() {
                assert(model.playlists_shown(ids)[i] == model.playlists_shown(less)[i]);
                assert(less[i] == ids[i]);
            }
        }
    }
}

proof fn entries_are_shown_in_order(
    model: StoreModel,
    album: EntityId,
    entries: Seq<AlbumTrack>,
)
    requires
        forall|i: int| 0 <= i < entries.len() ==> model.track_at(
            (#[trigger] entries[i]).track,
        ) is Some,
    ensures
        model.entries_shown(album, entries).len() == entries.len(),
        forall|i: int|
            0 <= i < entries.len() ==> {
                let shown = #[trigger] model.entries_shown(album, entries)[i];
                &&& shown.disc == entries[i].disc
                &&& shown.position == entries[i].position
                &&& model.track_shown(entries[i].track, Some(album)) == Some(shown.track)
                &&& shown.track.id == entries[i].track
            },
    decreases entries.len(),
{
    if entries.len() > 0 {
        let less = entries.drop_last();
        assert forall|i: int| 0 <= i < less.len() implies model.track_at(
            (#[trigger] less[i]).track,
        ) is Some by {
            assert(model.track_at(entries[i].track) is Some);
        }
        entries_are_shown_in_order(model, album, less);
        assert(model.track_at(entries[entries.len() - 1].track) is Some);
        assert forall|i: int| 0 <= i < entries.len() implies ({
            let shown = #[trigger] model.entries_shown(album, entries)[i];
            &&& shown.disc == entries[i].disc
            &&& shown.position == entries[i].position
            &&& model.track_shown(entries[i].track, Some(album)) == Some(shown.track)
            &&& shown.track.id == entries[i].track
        }) by {
            if i < less.len() {
                assert(model.entries_shown(album, entries)[i] == model.entries_shown(
                    album,
                    less,
                )[i]);
                assert(less[i] == entries[i]);
            }
        }
    }
}

/// An album's page lists its tracklist: every track, at its disc and position, in order, and says
/// where each would play from.
pub proof fn an_albums_page_lists_its_tracklist(
    model: StoreModel,
    sources: SourcesModel,
    album: EntityId,
)
    requires
        model.album_at(album) is Some,
        forall|i: int|
            0 <= i < model.tracklist(album).len() ==> model.track_at(
                (#[trigger] model.tracklist(album)[i]).track,
            ) is Some,
    ensures
        ({
            let page = shown_album_detail(model, sources, album);
            let list = model.tracklist(album);
            &&& page is Ok
            &&& page->Ok_0.album.id == album
            &&& page->Ok_0.album.title == model.albums[model.album_at(album)->0].album.title
            &&& page->Ok_0.tracks.len() == list.len()
            &&& forall|i: int|
                0 <= i < list.len() ==> {
                    let shown = #[trigger] page->Ok_0.tracks[i];
                    &&& shown.disc == list[i].disc
                    &&& shown.position == list[i].position
                    &&& shown.track.id == list[i].track
                    &&& shown.track.plays_from == sources.plays_from(shown.track.sources)
                }
        }),
{
    let list = model.tracklist(album);
    entries_are_shown_in_order(model, album, list);
    let before = model.entries_shown(album, list);
    let page = shown_album_detail(model, sources, album)->Ok_0;
    assert forall|i: int| 0 <= i < list.len() implies ({
        let shown = #[trigger] page.tracks[i];
        &&& shown.disc == list[i].disc
        &&& shown.position == list[i].position
        &&& shown.track.id == list[i].track
        &&& shown.track.plays_from == sources.plays_from(shown.track.sources)
    }) by {
        assert(before[i].disc == list[i].disc);
    }
}

/// A playlist's page lists its tracks, in the order it holds them.
pub proof fn a_playlists_page_lists_its_tracks(
    model: StoreModel,
    sources: SourcesModel,
    id: EntityId,
    at: int,
)
    requires
        0 <= at < model.playlists.len(),
        model.playlists[at].id == id,
        forall|k: int| 0 <= k < at ==> (#[trigger] model.playlists[k]).id != id,
        forall|k: int|
            0 <= k < model.playlists[at].tracks.len() ==> model.track_at(
                #[trigger] model.playlists[at].tracks[k],
            ) is Some,
    ensures
        ({
            let page = shown_playlist_detail(model, sources, id);
            let tracks = model.playlists[at].tracks;
            &&& page is Ok
            &&& page->Ok_0.playlist.id == id
            &&& page->Ok_0.playlist.name == model.playlists[at].name
            &&& page->Ok_0.playlist.track_count == tracks.len()
            &&& page->Ok_0.tracks.len() == tracks.len()
            &&& forall|k: int|
                0 <= k < tracks.len() ==> (#[trigger] page->Ok_0.tracks[k]).id == tracks[k]
                    && page->Ok_0.tracks[k].plays_from == sources.plays_from(
                    page->Ok_0.tracks[k].sources,
                )
        }),
{
    found_first(model.playlists, playlist_is(id), at);
    let tracks = model.playlists[at].tracks;
    known_tracks_are_shown_in_order(model, tracks);
    let page = shown_playlist_detail(model, sources, id)->Ok_0;
    let before = model.tracks_shown(tracks);
    assert forall|k: int| 0 <= k < tracks.len() implies (#[trigger] page.tracks[k]).id == tracks[k]
        && page.tracks[k].plays_from == sources.plays_from(page.tracks[k].sources) by {
        assert(before[k].id == tracks[k]);
    }
}

// --- what is on the shelf ---

/// A page is the part of a list that starts at the offset, no longer than the limit: what follows
/// it is on the pages after it.
pub proof fn a_page_is_a_part_of_the_list(all: Seq<EntityId>, limit: int, offset: int)
    requires
        limit >= 0,
        offset >= 0,
    ensures
        page_of(all, limit, offset).len() == if offset >= all.len() {
            0
        } else if all.len() - offset <= limit {
            all.len() - offset
        } else {
            limit
        },
        forall|k: int|
            0 <= k < page_of(all, limit, offset).len() ==> #[trigger] page_of(
                all,
                limit,
                offset,
            )[k] == all[offset + k],
        page_of(all, limit, offset) + page_of(all, all.len() as int, offset + limit)
            =~= page_of(all, all.len() as int, offset),
{
}

proof fn what_is_saved_is_listed(
    model: StoreModel,
    p: spec_fn(SavedRow) -> bool,
    id: EntityId,
)
    requires
        model.saved.len() <= usize::MAX,
    ensures
        model.newest_saved(p).contains(id) <==> exists|k: int|
            0 <= k < model.saved.len() && p(#[trigger] model.saved[k]) && model.saved[k].entity
                == id,
{
    let n = model.saved.len() as int;
    let at = places(model.saved, p, n);
    let ranks = at.map_values(|i: int| saved_rank(model.saved, i));
    let sorted = in_order(ranks);
    let list = model.newest_saved(p);
    places_are_the_matches(model.saved, p, n);
    in_order_holds_the_same(ranks);
    if list.contains(id) {
        let k = choose|k: int| 0 <= k < list.len() && list[k] == id;
        assert(sorted.contains(sorted[k]));
        assert(ranks.contains(sorted[k]));
        let l = choose|l: int| 0 <= l < ranks.len() && ranks[l] == sorted[k];
        let i = at[l];
        assert(0 <= i < n && p(model.saved[i]));
        assert(model.saved[i].entity == id);
    }
    if exists|k: int|
        0 <= k < model.saved.len() && p(#[trigger] model.saved[k]) && model.saved[k].entity == id {
        let i = choose|k: int|
            0 <= k < model.saved.len() && p(#[trigger] model.saved[k]) && model.saved[k].entity
                == id;
        assert(at.contains(i));
        let l = choose|l: int| 0 <= l < at.len() && at[l] == i;
        assert(ranks[l] == saved_rank(model.saved, i));
        assert(ranks.contains(ranks[l]));
        assert(sorted.contains(ranks[l]));
        let k = choose|k: int| 0 <= k < sorted.len() && sorted[k] == ranks[l];
        assert(list[k] == id);
    }
}

/// The shelf holds what was saved, by kind, and nothing else.
pub proof fn the_shelf_holds_what_was_saved(model: StoreModel, kind: EntityKind, id: EntityId)
    requires
        model.saved.len() <= usize::MAX,
    ensures
        model.newest_saved(saved_as(kind)).contains(id) <==> exists|k: int|
            0 <= k < model.saved.len() && (#[trigger] model.saved[k]).kind == kind
                && model.saved[k].entity == id,
{
    let p = saved_as(kind);
    what_is_saved_is_listed(model, p, id);
    if exists|k: int|
        0 <= k < model.saved.len() && (#[trigger] model.saved[k]).kind == kind
            && model.saved[k].entity == id {
        let k = choose|k: int|
            0 <= k < model.saved.len() && (#[trigger] model.saved[k]).kind == kind
                && model.saved[k].entity == id;
        assert(p(model.saved[k]));
    }
    if model.newest_saved(p).contains(id) {
        let k = choose|k: int|
            0 <= k < model.saved.len() && p(#[trigger] model.saved[k]) && model.saved[k].entity
                == id;
        assert(model.saved[k].kind == kind);
    }
}

/// A query narrows the shelf to what was saved and has the words in its title, its credit or its
/// name; without one, everything saved is there.
pub proof fn a_query_finds_what_has_its_words(
    model: StoreModel,
    kind: EntityKind,
    query: Option<Seq<char>>,
    id: EntityId,
)
    requires
        model.saved.len() <= usize::MAX,
        kind != EntityKind::Playlist,
    ensures
        model.shelf(kind, query).contains(id) <==> (exists|k: int|
            0 <= k < model.saved.len() && (#[trigger] model.saved[k]).kind == kind
                && model.saved[k].entity == id) && (match kind {
            EntityKind::Track => model.track_at(id) is Some && (query is None || contains_text(
                model.tracks[model.track_at(id)->0].title,
                query->0,
            ) || contains_text(model.tracks[model.track_at(id)->0].credit, query->0)),
            EntityKind::Album => model.album_at(id) is Some && (query is None || contains_text(
                model.albums[model.album_at(id)->0].album.title,
                query->0,
            ) || contains_text(model.albums[model.album_at(id)->0].album.credit, query->0)),
            EntityKind::Artist => model.artist_at(id) is Some && (query is None || contains_text(
                model.artists[model.artist_at(id)->0].artist.name,
                query->0,
            )),
            EntityKind::Playlist => false,
        }),
{
    let p = model.saved_answering(kind, query);
    what_is_saved_is_listed(model, p, id);
    if exists|k: int|
        0 <= k < model.saved.len() && (#[trigger] model.saved[k]).kind == kind
            && model.saved[k].entity == id {
        let k = choose|k: int|
            0 <= k < model.saved.len() && (#[trigger] model.saved[k]).kind == kind
                && model.saved[k].entity == id;
        assert(p(model.saved[k]) <==> model.answers(kind, id, query));
    }
    if model.shelf(kind, query).contains(id) {
        let k = choose|k: int|
            0 <= k < model.saved.len() && p(#[trigger] model.saved[k]) && model.saved[k].entity
                == id;
        assert(model.saved[k].kind == kind);
        assert(model.answers(kind, id, query));
    }
}

/// Playlists are always on the shelf; a query narrows them to those with its words in their name.
pub proof fn a_query_finds_playlists_by_name(
    model: StoreModel,
    query: Option<Seq<char>>,
    id: EntityId,
)
    requires
        model.playlists.len() <= usize::MAX,
    ensures
        model.shelf(EntityKind::Playlist, query).contains(id) <==> exists|k: int|
            0 <= k < model.playlists.len() && (#[trigger] model.playlists[k]).id == id && (
            query is None || contains_text(model.playlists[k].name, query->0)),
{
    let p = model.playlists_answering(query);
    let n = model.playlists.len() as int;
    let at = places(model.playlists, p, n);
    let ranks = at.map_values(|i: int| playlist_rank(model.playlists, i));
    let sorted = in_order(ranks);
    let list = model.newest_playlists(p);
    places_are_the_matches(model.playlists, p, n);
    in_order_holds_the_same(ranks);
    if list.contains(id) {
        let k = choose|k: int| 0 <= k < list.len() && list[k] == id;
        assert(sorted.contains(sorted[k]));
        assert(ranks.contains(sorted[k]));
        let l = choose|l: int| 0 <= l < ranks.len() && ranks[l] == sorted[k];
        let i = at[l];
        assert(0 <= i < n && p(model.playlists[i]));
        assert(model.playlists[i].id == id);
    }
    if exists|k: int|
        0 <= k < model.playlists.len() && (#[trigger] model.playlists[k]).id == id && (
        query is None || contains_text(model.playlists[k].name, query->0)) {
        let i = choose|k: int|
            0 <= k < model.playlists.len() && (#[trigger] model.playlists[k]).id == id && (
            query is None || contains_text(model.playlists[k].name, query->0));
        assert(p(model.playlists[i]));
        assert(at.contains(i));
        let l = choose|l: int| 0 <= l < at.len() && at[l] == i;
        assert(ranks[l] == playlist_rank(model.playlists, i));
        assert(ranks.contains(ranks[l]));
        assert(sorted.contains(ranks[l]));
        let k = choose|k: int| 0 <= k < sorted.len() && sorted[k] == ranks[l];
        assert(list[k] == id);
    }
}

/// What was saved last is listed first; of two saved at the same time, the one saved after the
/// other.
pub proof fn the_shelf_lists_the_last_saved_first(
    model: StoreModel,
    kind: EntityKind,
    query: Option<Seq<char>>,
    i: int,
    j: int,
)
    requires
        model.saved.len() <= usize::MAX,
        kind != EntityKind::Playlist,
        0 <= i < j < model.shelf(kind, query).len(),
    ensures
        exists|r: int, s: int|
            #![trigger model.saved[r], model.saved[s]]
            0 <= r < model.saved.len() && 0 <= s < model.saved.len() && model.saved[r].entity
                == model.shelf(kind, query)[i] && model.saved[s].entity == model.shelf(
                kind,
                query,
            )[j] && (model.saved[r].saved_at > model.saved[s].saved_at || (model.saved[r].saved_at
                == model.saved[s].saved_at && r > s)),
{
    let p = model.saved_answering(kind, query);
    let n = model.saved.len() as int;
    let at = places(model.saved, p, n);
    let ranks = at.map_values(|i: int| saved_rank(model.saved, i));
    let sorted = in_order(ranks);
    places_are_the_matches(model.saved, p, n);
    in_order_holds_the_same(ranks);
    in_order_is_sorted(ranks);
    assert forall|a: int, b: int| 0 <= a < b < ranks.len() implies (#[trigger] ranks[a]).row != (
    #[trigger] ranks[b]).row by {
        assert(at[a] < at[b]);
        assert(0 <= at[a] < n && 0 <= at[b] < n);
        assert(ranks[a].row == at[a] && ranks[b].row == at[b]);
    }
    assert(sorted.contains(sorted[i]) && sorted.contains(sorted[j]));
    let k = choose|k: int| 0 <= k < ranks.len() && ranks[k] == sorted[i];
    let l = choose|l: int| 0 <= l < ranks.len() && ranks[l] == sorted[j];
    let (r, s) = (at[k], at[l]);
    assert(0 <= r < n && 0 <= s < n);
    assert(sorted[i] == saved_rank(model.saved, r));
    assert(sorted[j] == saved_rank(model.saved, s));
    assert(sorted[i].row != sorted[j].row);
    assert(!sorted[j].before(sorted[i]));
    assert(model.saved[r].entity == model.shelf(kind, query)[i]);
    assert(model.saved[s].entity == model.shelf(kind, query)[j]);
}

/// The playlist changed last is listed first; of two changed at the same time, the one made after
/// the other.
pub proof fn the_shelf_lists_the_last_changed_playlist_first(
    model: StoreModel,
    query: Option<Seq<char>>,
    i: int,
    j: int,
)
    requires
        model.playlists.len() <= usize::MAX,
        0 <= i < j < model.shelf(EntityKind::Playlist, query).len(),
    ensures
        exists|r: int, s: int|
            #![trigger model.playlists[r], model.playlists[s]]
            0 <= r < model.playlists.len() && 0 <= s < model.playlists.len()
                && model.playlists[r].id == model.shelf(EntityKind::Playlist, query)[i]
                && model.playlists[s].id == model.shelf(EntityKind::Playlist, query)[j] && (
            model.playlists[r].updated_at > model.playlists[s].updated_at || (
            model.playlists[r].updated_at == model.playlists[s].updated_at && r > s)),
{
    let p = model.playlists_answering(query);
    let n = model.playlists.len() as int;
    let at = places(model.playlists, p, n);
    let ranks = at.map_values(|i: int| playlist_rank(model.playlists, i));
    let sorted = in_order(ranks);
    places_are_the_matches(model.playlists, p, n);
    in_order_holds_the_same(ranks);
    in_order_is_sorted(ranks);
    assert forall|a: int, b: int| 0 <= a < b < ranks.len() implies (#[trigger] ranks[a]).row != (
    #[trigger] ranks[b]).row by {
        assert(at[a] < at[b]);
        assert(0 <= at[a] < n && 0 <= at[b] < n);
        assert(ranks[a].row == at[a] && ranks[b].row == at[b]);
    }
    assert(sorted.contains(sorted[i]) && sorted.contains(sorted[j]));
    let k = choose|k: int| 0 <= k < ranks.len() && ranks[k] == sorted[i];
    let l = choose|l: int| 0 <= l < ranks.len() && ranks[l] == sorted[j];
    let (r, s) = (at[k], at[l]);
    assert(0 <= r < n && 0 <= s < n);
    assert(sorted[i] == playlist_rank(model.playlists, r));
    assert(sorted[j] == playlist_rank(model.playlists, s));
    assert(sorted[i].row != sorted[j].row);
    assert(!sorted[j].before(sorted[i]));
    let list = model.shelf(EntityKind::Playlist, query);
    assert(model.playlists[r].id == list[i]);
    assert(model.playlists[s].id == list[j]);
}

/// Words are found wherever they stand in a text, whatever the case of plain letters.
pub proof fn words_are_found_wherever_they_stand(text: Seq<char>, from: int, to: int)
    requires
        0 <= from <= to <= text.len(),
    ensures
        contains_text(text, text.subrange(from, to)),
{
    assert(stands_at(text, text.subrange(from, to), from));
}

/// In plain text, words are found only where they stand, letter for letter but for their case.
pub proof fn words_are_found_only_where_they_stand(text: Seq<char>, words: Seq<char>)
    requires
        forall|i: int| 0 <= i < text.len() ==> #[trigger] text[i] <= '\u{7f}',
        forall|i: int| 0 <= i < words.len() ==> #[trigger] words[i] <= '\u{7f}',
    ensures
        contains_text(text, words) <==> exists|at: int|
            0 <= at && at + words.len() <= text.len() && (forall|k: int|
                0 <= k < words.len() ==> text[at + k] == #[trigger] words[k] || ('A' <= text[at + k]
                    <= 'Z' && words[k] as int == text[at + k] as int + 32) || ('A' <= words[k]
                    <= 'Z' && text[at + k] as int == words[k] as int + 32)) && #[trigger] from_here(
                at,
            ),
{
    if contains_text(text, words) {
        let at = choose|at: int| stands_at(text, words, at);
        assert(from_here(at));
        assert forall|k: int| 0 <= k < words.len() implies text[at + k] == #[trigger] words[k] || (
        'A' <= text[at + k] <= 'Z' && words[k] as int == text[at + k] as int + 32) || ('A'
            <= words[k] <= 'Z' && text[at + k] as int == words[k] as int + 32) by {
            assert(folded(text[at + k]) == folded(words[k]));
        }
    }
    if exists|at: int|
        0 <= at && at + words.len() <= text.len() && (forall|k: int|
            0 <= k < words.len() ==> text[at + k] == #[trigger] words[k] || ('A' <= text[at + k]
                <= 'Z' && words[k] as int == text[at + k] as int + 32) || ('A' <= words[k] <= 'Z'
                && text[at + k] as int == words[k] as int + 32)) && #[trigger] from_here(at) {
        let at = choose|at: int|
            0 <= at && at + words.len() <= text.len() && (forall|k: int|
                0 <= k < words.len() ==> text[at + k] == #[trigger] words[k] || ('A' <= text[at + k]
                    <= 'Z' && words[k] as int == text[at + k] as int + 32) || ('A' <= words[k]
                    <= 'Z' && text[at + k] as int == words[k] as int + 32)) && #[trigger] from_here(
                at,
            );
        assert(stands_at(text, words, at));
    }
}

/// A place in a text.
pub open spec fn from_here(at: int) -> bool {
    true
}

/// A page of the library shows what is on the shelf, from the offset on, and counts it whole.
pub proof fn a_page_of_tracks_shows_the_shelf(
    model: StoreModel,
    sources: SourcesModel,
    query: Option<Seq<char>>,
    limit: int,
    offset: int,
)
    requires
        limit >= 0,
        offset >= 0,
        model.saved.len() <= usize::MAX,
    ensures
        ({
            let page = shown_page(model, sources, EntityKind::Track, query, limit, offset);
            let all = model.shelf(EntityKind::Track, query);
            &&& page.total == all.len()
            &&& page.tracks.len() == page_of(all, limit, offset).len()
            &&& forall|k: int|
                0 <= k < page.tracks.len() ==> (#[trigger] page.tracks[k]).id == all[offset + k]
                    && page.tracks[k].plays_from == sources.plays_from(page.tracks[k].sources)
            &&& page.albums.len() == 0 && page.artists.len() == 0 && page.playlists.len() == 0
        }),
{
    let all = model.shelf(EntityKind::Track, query);
    let ids = page_of(all, limit, offset);
    a_page_is_a_part_of_the_list(all, limit, offset);
    assert forall|i: int| 0 <= i < ids.len() implies model.track_at(#[trigger] ids[i]) is Some by {
        assert(all.contains(all[offset + i]));
        a_query_finds_what_has_its_words(model, EntityKind::Track, query, all[offset + i]);
    }
    known_tracks_are_shown_in_order(model, ids);
    let page = shown_page(model, sources, EntityKind::Track, query, limit, offset);
    let before = model.tracks_shown(ids);
    assert forall|k: int| 0 <= k < page.tracks.len() implies (#[trigger] page.tracks[k]).id
        == all[offset + k] && page.tracks[k].plays_from == sources.plays_from(
        page.tracks[k].sources,
    ) by {
        assert(before[k].id == ids[k]);
    }
}

/// A page of albums shows the albums on the shelf, from the offset on, and counts them whole.
pub proof fn a_page_of_albums_shows_the_shelf(
    model: StoreModel,
    sources: SourcesModel,
    query: Option<Seq<char>>,
    limit: int,
    offset: int,
)
    requires
        limit >= 0,
        offset >= 0,
        model.saved.len() <= usize::MAX,
    ensures
        ({
            let page = shown_page(model, sources, EntityKind::Album, query, limit, offset);
            let all = model.shelf(EntityKind::Album, query);
            &&& page.total == all.len()
            &&& page.albums.len() == page_of(all, limit, offset).len()
            &&& forall|k: int|
                0 <= k < page.albums.len() ==> (#[trigger] page.albums[k]).id == all[offset + k]
            &&& page.tracks.len() == 0 && page.artists.len() == 0 && page.playlists.len() == 0
        }),
{
    let all = model.shelf(EntityKind::Album, query);
    let ids = page_of(all, limit, offset);
    a_page_is_a_part_of_the_list(all, limit, offset);
    assert forall|i: int| 0 <= i < ids.len() implies model.album_at(#[trigger] ids[i]) is Some by {
        assert(all.contains(all[offset + i]));
        a_query_finds_what_has_its_words(model, EntityKind::Album, query, all[offset + i]);
    }
    known_albums_are_shown_in_order(model, ids);
}

/// A page of artists shows the artists on the shelf, from the offset on, and counts them whole.
pub proof fn a_page_of_artists_shows_the_shelf(
    model: StoreModel,
    sources: SourcesModel,
    query: Option<Seq<char>>,
    limit: int,
    offset: int,
)
    requires
        limit >= 0,
        offset >= 0,
        model.saved.len() <= usize::MAX,
    ensures
        ({
            let page = shown_page(model, sources, EntityKind::Artist, query, limit, offset);
            let all = model.shelf(EntityKind::Artist, query);
            &&& page.total == all.len()
            &&& page.artists.len() == page_of(all, limit, offset).len()
            &&& forall|k: int|
                0 <= k < page.artists.len() ==> (#[trigger] page.artists[k]).id == all[offset + k]
            &&& page.tracks.len() == 0 && page.albums.len() == 0 && page.playlists.len() == 0
        }),
{
    let all = model.shelf(EntityKind::Artist, query);
    let ids = page_of(all, limit, offset);
    a_page_is_a_part_of_the_list(all, limit, offset);
    assert forall|i: int| 0 <= i < ids.len() implies model.artist_at(#[trigger] ids[i]) is Some by {
        assert(all.contains(all[offset + i]));
        a_query_finds_what_has_its_words(model, EntityKind::Artist, query, all[offset + i]);
    }
    known_artists_are_shown_in_order(model, ids);
}

/// A page of playlists shows the playlists there are, from the offset on, and counts them whole.
pub proof fn a_page_of_playlists_shows_the_shelf(
    model: StoreModel,
    sources: SourcesModel,
    query: Option<Seq<char>>,
    limit: int,
    offset: int,
)
    requires
        limit >= 0,
        offset >= 0,
        model.playlists.len() <= usize::MAX,
    ensures
        ({
            let page = shown_page(model, sources, EntityKind::Playlist, query, limit, offset);
            let all = model.shelf(EntityKind::Playlist, query);
            &&& page.total == all.len()
            &&& page.playlists.len() == page_of(all, limit, offset).len()
            &&& forall|k: int|
                0 <= k < page.playlists.len() ==> (#[trigger] page.playlists[k]).id == all[offset
                    + k]
            &&& page.tracks.len() == 0 && page.albums.len() == 0 && page.artists.len() == 0
        }),
{
    let all = model.shelf(EntityKind::Playlist, query);
    let ids = page_of(all, limit, offset);
    a_page_is_a_part_of_the_list(all, limit, offset);
    assert forall|i: int| 0 <= i < ids.len() implies model.playlist_at(
        #[trigger] ids[i],
    ) is Some by {
        assert(all.contains(all[offset + i]));
        a_query_finds_playlists_by_name(model, query, all[offset + i]);
        let k = choose|k: int|
            0 <= k < model.playlists.len() && (#[trigger] model.playlists[k]).id == all[offset + i]
                && (query is None || contains_text(model.playlists[k].name, query->0));
        first_at_matches(model.playlists, playlist_is(ids[i]));
        assert(playlist_is(ids[i])(model.playlists[k]));
    }
    known_playlists_are_shown_in_order(model, ids);
}

} // verus!
