//! What holds of the tables whatever is done to them: every identifier names one row, and
//! whatever a row refers to is there.

use vstd::prelude::*;

use crate::binding::{binding_keeps_keys_unique, key_of};
use crate::catalog::{
    AlbumListingView, ArtistListingView, Favorite, SearchResultsView, SourcePlaylistView,
};
use crate::id::{EntityId, SourceView};
use crate::ingest::{
    by_isrc, direct, ingested_album, ingested_artist, ingested_artists, ingested_entries,
    ingested_listing, ingested_track, ingested_unbound, isrc_bound, isrc_match, merged,
    named_artist, new_album, new_track, Ingested,
};
use crate::intake::{
    each, imported, imported_playlist, keep_album_step, keep_artist_step, keep_track_step, kept,
    listed_artist, made_playlist, playlist_step, searched, show_album_step, show_artist_step,
    show_track_step, track_step, with_playlist_replaced, FavoritesView, SupplyModel,
};
use crate::model::{AlbumModel, AlbumTrack, ArtistModel, BindingModel, EntityKind, TrackModel};
use crate::rows::{
    an_update_is_found_where_it_was, any, first_at_matches, first_at_push, without,
    without_keeps_pairs_apart, without_keeps_the_rest,
};
use crate::shelf::PlaylistEdit;
use crate::store::{
    album_is, artist_is, isrc_is, isrc_of, playlist_is, saved_is, slot_entry, slot_is, track_entry, track_is,
    with_isrcs, AlbumEntry, ArtistEntry, IsrcEntry, Slot, StoreModel,
};
use crate::track::{SourceAlbumView, SourceArtistView, SourceTrackView};
use crate::tracklist::{
    listed, repeats_slot, resettled, resettling_keeps_slots_apart, resettling_seats_the_entries,
    slot_entries, slots_apart,
};

verus! {

pub open spec fn isrcs_apart(a: IsrcEntry, b: IsrcEntry) -> bool {
    !(a.track == b.track && a.isrc == b.isrc)
}

impl StoreModel {
    /// No two rows of a table have the same identifier.
    pub open spec fn ids_are_unique(self) -> bool {
        &&& forall|i: int, j: int|
            0 <= i < j < self.artists.len() ==> (#[trigger] self.artists[i]).id != (
            #[trigger] self.artists[j]).id
        &&& forall|i: int, j: int|
            0 <= i < j < self.albums.len() ==> (#[trigger] self.albums[i]).id != (
            #[trigger] self.albums[j]).id
        &&& forall|i: int, j: int|
            0 <= i < j < self.tracks.len() ==> (#[trigger] self.tracks[i]).id != (
            #[trigger] self.tracks[j]).id
        &&& forall|i: int, j: int|
            0 <= i < j < self.playlists.len() ==> (#[trigger] self.playlists[i]).id != (
            #[trigger] self.playlists[j]).id
        &&& forall|i: int, j: int|
            0 <= i < j < self.saved.len() ==> (#[trigger] self.saved[i]).entity != (
            #[trigger] self.saved[j]).entity
    }

    /// A track carries an ISRC once, and a slot of an album holds one track.
    pub open spec fn rows_are_apart(self) -> bool {
        &&& forall|i: int, j: int|
            0 <= i < j < self.isrcs.len() ==> isrcs_apart(
                #[trigger] self.isrcs[i],
                #[trigger] self.isrcs[j],
            )
        &&& forall|i: int, j: int|
            0 <= i < j < self.slots.len() ==> slots_apart(
                #[trigger] self.slots[i],
                #[trigger] self.slots[j],
            )
    }

    /// Credits name artists, ISRCs and playlists name tracks, slots name an album and a track.
    pub open spec fn references_hold(self) -> bool {
        &&& forall|i: int|
            0 <= i < self.tracks.len() ==> self.are_artists((#[trigger] self.tracks[i]).artists)
        &&& forall|i: int|
            0 <= i < self.albums.len() ==> self.are_artists(
                (#[trigger] self.albums[i]).album.artists,
            )
        &&& forall|i: int|
            0 <= i < self.isrcs.len() ==> self.track_at((#[trigger] self.isrcs[i]).track) is Some
        &&& forall|i: int|
            0 <= i < self.slots.len() ==> self.album_at((#[trigger] self.slots[i]).album) is Some
                && self.track_at(self.slots[i].track) is Some
        &&& forall|i: int|
            0 <= i < self.playlists.len() ==> self.are_tracks(
                (#[trigger] self.playlists[i]).tracks,
            )
    }

    /// The tables are in order.
    pub open spec fn sound(self) -> bool {
        &&& self.ids_are_unique()
        &&& self.rows_are_apart()
        &&& self.references_hold()
        &&& self.keys_are_unique()
    }

    /// Every artist, album and track of `self` is one of `after`.
    pub open spec fn stays_in(self, after: StoreModel) -> bool {
        &&& forall|id: EntityId| self.artist_at(id) is Some ==> #[trigger] after.artist_at(id) is Some
        &&& forall|id: EntityId| self.album_at(id) is Some ==> #[trigger] after.album_at(id) is Some
        &&& forall|id: EntityId| self.track_at(id) is Some ==> #[trigger] after.track_at(id) is Some
    }
}

/// Empty tables are in order.
pub proof fn an_empty_store_is_sound(model: StoreModel)
    requires
        model.artists.len() == 0,
        model.albums.len() == 0,
        model.tracks.len() == 0,
        model.isrcs.len() == 0,
        model.slots.len() == 0,
        model.bindings.len() == 0,
        model.saved.len() == 0,
        model.playlists.len() == 0,
    ensures
        model.sound(),
{
}

/// Adding an artist leaves the tables in order.
pub proof fn adding_an_artist_keeps_the_tables_sound(
    model: StoreModel,
    id: EntityId,
    artist: ArtistModel,
)
    requires
        model.sound(),
        model.artist_refusal(id, artist) is None,
    ensures
        model.with_artist(id, artist).sound(),
        model.stays_in(model.with_artist(id, artist)),
        model.with_artist(id, artist).artist_at(id) is Some,
{
    let after = model.with_artist(id, artist);
    let row = ArtistEntry { id, artist };
    first_at_matches(model.artists, artist_is(id));
    assert forall|i: int| 0 <= i < model.artists.len() implies (#[trigger] model.artists[i]).id
        != id by {
        assert(!artist_is(id)(model.artists[i]));
    }
    assert forall|other: EntityId| model.artist_at(other) is Some || other == id implies
        #[trigger] after.artist_at(other) is Some by {
        first_at_push(model.artists, row, artist_is(other));
    }
    references_carry_over(model, after);
}

/// Whatever rows refer to is still there in tables that only gained entities.
proof fn references_carry_over(model: StoreModel, after: StoreModel)
    requires
        model.references_hold(),
        model.stays_in(after),
    ensures
        forall|ids: Seq<EntityId>| #[trigger] model.are_artists(ids) ==> after.are_artists(ids),
        forall|ids: Seq<EntityId>| #[trigger] model.are_tracks(ids) ==> after.are_tracks(ids),
        after.tracks == model.tracks && after.albums == model.albums && after.isrcs == model.isrcs
            && after.slots == model.slots && after.playlists == model.playlists
            ==> after.references_hold(),
{
    assert forall|ids: Seq<EntityId>| #[trigger] model.are_artists(ids) implies after.are_artists(
        ids,
    ) by {}
    assert forall|ids: Seq<EntityId>| #[trigger] model.are_tracks(ids) implies after.are_tracks(
        ids,
    ) by {}
}

/// The rows of a track's ISRCs stay apart, and are the track's or were there before.
proof fn isrcs_stay_apart(rows: Seq<IsrcEntry>, track: EntityId, isrcs: Seq<Seq<char>>)
    requires
        forall|i: int, j: int|
            0 <= i < j < rows.len() ==> isrcs_apart(#[trigger] rows[i], #[trigger] rows[j]),
    ensures
        forall|i: int, j: int|
            0 <= i < j < with_isrcs(rows, track, isrcs).len() ==> isrcs_apart(
                #[trigger] with_isrcs(rows, track, isrcs)[i],
                #[trigger] with_isrcs(rows, track, isrcs)[j],
            ),
        rows.len() <= with_isrcs(rows, track, isrcs).len(),
        forall|i: int|
            0 <= i < with_isrcs(rows, track, isrcs).len() ==> if i < rows.len() {
                #[trigger] with_isrcs(rows, track, isrcs)[i] == rows[i]
            } else {
                with_isrcs(rows, track, isrcs)[i].track == track
            },
    decreases isrcs.len(),
{
    if isrcs.len() > 0 {
        isrcs_stay_apart(rows, track, isrcs.drop_last());
        let before = with_isrcs(rows, track, isrcs.drop_last());
        let p = isrc_is(track, isrcs.last());
        if !any(before, p) {
            assert forall|i: int| 0 <= i < before.len() implies isrcs_apart(
                #[trigger] before[i],
                (IsrcEntry { track, isrc: isrcs.last() }),
            ) by {
                assert(!p(before[i]));
            }
        }
    }
}

/// Adding a track leaves the tables in order.
pub proof fn adding_a_track_keeps_the_tables_sound(
    model: StoreModel,
    id: EntityId,
    track: TrackModel,
)
    requires
        model.sound(),
        model.track_refusal(id, track) is None,
    ensures
        model.with_track(id, track).sound(),
        model.stays_in(model.with_track(id, track)),
        model.with_track(id, track).track_at(id) is Some,
{
    let after = model.with_track(id, track);
    let row = track_entry(id, track);
    first_at_matches(model.tracks, track_is(id));
    assert forall|i: int| 0 <= i < model.tracks.len() implies (#[trigger] model.tracks[i]).id
        != id by {
        assert(!track_is(id)(model.tracks[i]));
    }
    assert forall|other: EntityId| model.track_at(other) is Some || other == id implies
        #[trigger] after.track_at(other) is Some by {
        first_at_push(model.tracks, row, track_is(other));
    }
    references_carry_over(model, after);
    isrcs_stay_apart(model.isrcs, id, track.isrcs);
    assert(after.are_artists(track.artists));
}

/// Replacing what is known about a track leaves the tables in order.
pub proof fn updating_a_track_keeps_the_tables_sound(
    model: StoreModel,
    id: EntityId,
    track: TrackModel,
)
    requires
        model.sound(),
        model.track_update_refusal(id, track) is None,
    ensures
        model.with_track_updated(id, track).sound(),
        model.stays_in(model.with_track_updated(id, track)),
{
    let after = model.with_track_updated(id, track);
    let row = track_entry(id, track);
    first_at_matches(model.tracks, track_is(id));
    let at = model.track_at(id)->0;
    assert(track_is(id)(model.tracks[at]));
    assert forall|other: EntityId| #[trigger] after.track_at(other) == model.track_at(other) by {
        an_update_is_found_where_it_was(model.tracks, at, row, track_is(other));
    }
    assert(model.stays_in(after));
    references_carry_over(model, after);
    let kept = without(model.isrcs, isrc_of(id));
    without_keeps_the_rest(model.isrcs, isrc_of(id));
    without_keeps_pairs_apart(
        model.isrcs,
        isrc_of(id),
        |a: IsrcEntry, b: IsrcEntry| isrcs_apart(a, b),
    );
    assert forall|i: int, j: int| 0 <= i < j < kept.len() implies isrcs_apart(
        #[trigger] kept[i],
        #[trigger] kept[j],
    ) by {
        assert((|a: IsrcEntry, b: IsrcEntry| isrcs_apart(a, b))(kept[i], kept[j]));
    }
    isrcs_stay_apart(kept, id, track.isrcs);
    assert forall|i: int| 0 <= i < after.isrcs.len() implies after.track_at(
        (#[trigger] after.isrcs[i]).track,
    ) is Some by {
        if i < kept.len() {
            assert(after.isrcs[i] == kept[i]);
            assert(model.isrcs.contains(kept[i]));
        }
    }
    assert forall|i: int| 0 <= i < after.tracks.len() implies after.are_artists(
        (#[trigger] after.tracks[i]).artists,
    ) by {
        if i != at {
            assert(after.tracks[i] == model.tracks[i]);
        }
    }
}

/// Adding an album leaves the tables in order.
pub proof fn adding_an_album_keeps_the_tables_sound(
    model: StoreModel,
    id: EntityId,
    album: AlbumModel,
)
    requires
        model.sound(),
        model.album_refusal(id, album) is None,
    ensures
        model.with_album(id, album).sound(),
        model.stays_in(model.with_album(id, album)),
        model.with_album(id, album).album_at(id) is Some,
{
    let after = model.with_album(id, album);
    let row = AlbumEntry { id, album };
    first_at_matches(model.albums, album_is(id));
    assert forall|i: int| 0 <= i < model.albums.len() implies (#[trigger] model.albums[i]).id
        != id by {
        assert(!album_is(id)(model.albums[i]));
    }
    assert forall|other: EntityId| model.album_at(other) is Some || other == id implies
        #[trigger] after.album_at(other) is Some by {
        first_at_push(model.albums, row, album_is(other));
    }
    references_carry_over(model, after);
    assert(after.are_artists(album.artists));
}

/// Replacing what is known about an album leaves the tables in order.
pub proof fn updating_an_album_keeps_the_tables_sound(
    model: StoreModel,
    id: EntityId,
    album: AlbumModel,
)
    requires
        model.sound(),
        model.album_update_refusal(id, album) is None,
    ensures
        model.with_album_updated(id, album).sound(),
        model.stays_in(model.with_album_updated(id, album)),
{
    let after = model.with_album_updated(id, album);
    let row = AlbumEntry { id, album };
    first_at_matches(model.albums, album_is(id));
    let at = model.album_at(id)->0;
    assert(album_is(id)(model.albums[at]));
    assert forall|other: EntityId| #[trigger] after.album_at(other) == model.album_at(other) by {
        an_update_is_found_where_it_was(model.albums, at, row, album_is(other));
    }
    assert(model.stays_in(after));
    references_carry_over(model, after);
    assert forall|i: int| 0 <= i < after.albums.len() implies after.are_artists(
        (#[trigger] after.albums[i]).album.artists,
    ) by {
        if i != at {
            assert(after.albums[i] == model.albums[i]);
        }
    }
}

/// A tracklist that is not refused names tracks, each in a slot of its own.
proof fn a_tracklist_is_in_order(
    model: StoreModel,
    album: EntityId,
    entries: Seq<AlbumTrack>,
    n: int,
)
    requires
        0 <= n <= entries.len(),
        model.tracklist_refusal(album, entries, n) is None,
    ensures
        forall|i: int| 0 <= i < n ==> model.track_at((#[trigger] entries[i]).track) is Some,
        n > 0 ==> model.album_at(album) is Some,
        forall|i: int, j: int|
            0 <= i < j < n ==> !crate::store::same_slot(#[trigger] entries[i], #[trigger] entries[j]),
    decreases n,
{
    if n > 0 {
        a_tracklist_is_in_order(model, album, entries, n - 1);
        assert(!repeats_slot(entries, n - 1));
    }
}

/// Replacing an album's tracklist leaves the tables in order.
pub proof fn setting_a_tracklist_keeps_the_tables_sound(
    model: StoreModel,
    album: EntityId,
    entries: Seq<AlbumTrack>,
)
    requires
        model.sound(),
        model.tracklist_refusal(album, entries, entries.len() as int) is None,
    ensures
        model.with_tracklist(album, entries).sound(),
        model.stays_in(model.with_tracklist(album, entries)),
{
    let after = model.with_tracklist(album, entries);
    a_tracklist_is_in_order(model, album, entries, entries.len() as int);
    let (kept, left) = resettled(model.slots, album, entries);
    let new = slot_entries(album, left);
    resettling_seats_the_entries(model.slots, album, entries);
    resettling_keeps_slots_apart(model.slots, album, entries);
    assert forall|i: int, j: int| 0 <= i < j < after.slots.len() implies slots_apart(
        #[trigger] after.slots[i],
        #[trigger] after.slots[j],
    ) by {
        if j < kept.len() {
            assert(after.slots[i] == kept[i] && after.slots[j] == kept[j]);
        } else if i < kept.len() {
            assert(after.slots[i] == kept[i]);
            assert(after.slots[j] == slot_entry(album, left[j - kept.len()]));
        } else {
            assert(after.slots[i] == new[i - kept.len()]);
            assert(after.slots[j] == new[j - kept.len()]);
            assert(!crate::store::same_slot(left[i - kept.len()], left[j - kept.len()]));
        }
    }
    assert forall|i: int| 0 <= i < after.slots.len() implies after.album_at(
        (#[trigger] after.slots[i]).album,
    ) is Some && after.track_at(after.slots[i].track) is Some by {
        let row = after.slots[i];
        if i < kept.len() && kept[i].album != album {
            assert(row == kept[i]);
            assert(model.slots.contains(kept[i]));
        } else {
            if i < kept.len() {
                assert(row == kept[i]);
                assert(entries.contains(listed(row)));
            } else {
                assert(row == new[i - kept.len()]);
                assert(entries.contains(left[i - kept.len()]));
                assert(listed(row) == left[i - kept.len()]);
            }
            let k = choose|k: int| 0 <= k < entries.len() && entries[k] == listed(row);
            assert(model.track_at(entries[k].track) is Some);
        }
    }
    assert(model.stays_in(after));
    references_carry_over(model, after);
}

/// Placing a track in a slot leaves the tables in order.
pub proof fn placing_a_track_keeps_the_tables_sound(
    model: StoreModel,
    album: EntityId,
    entry: AlbumTrack,
)
    requires
        model.sound(),
        model.album_at(album) is Some,
        model.track_at(entry.track) is Some,
    ensures
        model.with_placed(album, entry).sound(),
        model.stays_in(model.with_placed(album, entry)),
{
    let after = model.with_placed(album, entry);
    if !model.slots.contains(slot_entry(album, entry)) {
        let p = slot_is(album, entry.disc, entry.position);
        let kept = without(model.slots, p);
        without_keeps_the_rest(model.slots, p);
        let apart = |a: Slot, b: Slot| slots_apart(a, b);
        without_keeps_pairs_apart(model.slots, p, apart);
        assert forall|i: int, j: int| 0 <= i < j < after.slots.len() implies slots_apart(
            #[trigger] after.slots[i],
            #[trigger] after.slots[j],
        ) by {
            if j < kept.len() {
                assert(apart(kept[i], kept[j]));
            } else {
                assert(!p(kept[i]));
            }
        }
        assert forall|i: int| 0 <= i < after.slots.len() implies after.album_at(
            (#[trigger] after.slots[i]).album,
        ) is Some && after.track_at(after.slots[i].track) is Some by {
            if i < kept.len() {
                assert(after.slots[i] == kept[i]);
                assert(model.slots.contains(kept[i]));
            }
        }
    }
    assert(model.stays_in(after));
    references_carry_over(model, after);
}

/// Binding leaves the tables in order.
pub proof fn binding_keeps_the_tables_sound(
    model: StoreModel,
    kind: EntityKind,
    entity: EntityId,
    binding: BindingModel,
    now: i64,
)
    requires
        model.sound(),
        model.bind_refusal(kind, entity, binding.source) is None,
    ensures
        model.with_binding(kind, entity, binding, now).sound(),
        model.stays_in(model.with_binding(kind, entity, binding, now)),
{
    let after = model.with_binding(kind, entity, binding, now);
    binding_keeps_keys_unique(model, kind, entity, binding, now);
    assert(model.stays_in(after));
    references_carry_over(model, after);
}

/// Unbinding leaves the tables in order.
pub proof fn unbinding_keeps_the_tables_sound(
    model: StoreModel,
    kind: EntityKind,
    source: SourceView,
)
    requires
        model.sound(),
    ensures
        model.without_binding(kind, source).sound(),
        model.stays_in(model.without_binding(kind, source)),
{
    let after = model.without_binding(kind, source);
    first_at_matches(
        model.bindings,
        crate::store::binding_is(kind, source.service(), key_of(source)->0),
    );
    assert(model.stays_in(after));
    references_carry_over(model, after);
}

/// Saving leaves the tables in order.
pub proof fn saving_keeps_the_tables_sound(model: StoreModel, id: EntityId, at: i64)
    requires
        model.sound(),
    ensures
        model.with_saved(id, at).sound(),
        model.stays_in(model.with_saved(id, at)),
{
    let after = model.with_saved(id, at);
    first_at_matches(model.saved, saved_is(id));
    if model.saved_at(id) is None {
        assert forall|i: int| 0 <= i < model.saved.len() implies (#[trigger] model.saved[i]).entity
            != id by {
            assert(!saved_is(id)(model.saved[i]));
        }
    }
    assert(model.stays_in(after));
    references_carry_over(model, after);
}

/// Taking something out of the user's library leaves the tables in order.
pub proof fn unsaving_keeps_the_tables_sound(model: StoreModel, id: EntityId)
    requires
        model.sound(),
    ensures
        model.without_saved(id).sound(),
        model.stays_in(model.without_saved(id)),
{
    let after = model.without_saved(id);
    first_at_matches(model.saved, saved_is(id));
    assert(model.stays_in(after));
    references_carry_over(model, after);
}

/// Making a playlist leaves the tables in order.
pub proof fn making_a_playlist_keeps_the_tables_sound(
    model: StoreModel,
    id: EntityId,
    name: Seq<char>,
    tracks: Seq<EntityId>,
    now: i64,
)
    requires
        model.sound(),
        model.playlist_refusal(id, tracks) is None,
    ensures
        model.with_playlist(id, name, tracks, now).sound(),
        model.stays_in(model.with_playlist(id, name, tracks, now)),
{
    let after = model.with_playlist(id, name, tracks, now);
    first_at_matches(model.playlists, playlist_is(id));
    assert forall|i: int| 0 <= i < model.playlists.len() implies (#[trigger] model.playlists[i]).id
        != id by {
        assert(!playlist_is(id)(model.playlists[i]));
    }
    assert(model.stays_in(after));
    references_carry_over(model, after);
    assert(after.are_tracks(tracks));
}

/// Renaming a playlist leaves the tables in order.
pub proof fn renaming_a_playlist_keeps_the_tables_sound(
    model: StoreModel,
    id: EntityId,
    name: Seq<char>,
    now: i64,
)
    requires
        model.sound(),
        model.playlist_at(id) is Some,
    ensures
        model.with_playlist_renamed(id, name, now).sound(),
        model.stays_in(model.with_playlist_renamed(id, name, now)),
{
    let after = model.with_playlist_renamed(id, name, now);
    first_at_matches(model.playlists, playlist_is(id));
    assert(model.stays_in(after));
    references_carry_over(model, after);
    let at = model.playlist_at(id)->0;
    assert(model.are_tracks(model.playlists[at].tracks));
}

/// Editing a playlist leaves the tables in order.
pub proof fn editing_a_playlist_keeps_the_tables_sound(
    model: StoreModel,
    id: EntityId,
    edit: PlaylistEdit,
    now: i64,
)
    requires
        model.sound(),
        model.playlist_edit_refusal(id, edit) is None,
    ensures
        model.with_playlist_edited(id, edit, now).sound(),
        model.stays_in(model.with_playlist_edited(id, edit, now)),
{
    let after = model.with_playlist_edited(id, edit, now);
    first_at_matches(model.playlists, playlist_is(id));
    assert(model.stays_in(after));
    references_carry_over(model, after);
}

/// Deleting a playlist leaves the tables in order.
pub proof fn deleting_a_playlist_keeps_the_tables_sound(model: StoreModel, id: EntityId)
    requires
        model.sound(),
    ensures
        model.without_playlist(id).sound(),
        model.stays_in(model.without_playlist(id)),
{
    let after = model.without_playlist(id);
    first_at_matches(model.playlists, playlist_is(id));
    assert(model.stays_in(after));
    references_carry_over(model, after);
}

/// Tables that stay in tables that stay in others stay in those.
pub proof fn staying_adds_up(a: StoreModel, b: StoreModel, c: StoreModel)
    requires
        a.stays_in(b),
        b.stays_in(c),
    ensures
        a.stays_in(c),
{
    assert forall|id: EntityId| a.artist_at(id) is Some implies #[trigger] c.artist_at(id) is Some by {
        assert(b.artist_at(id) is Some);
    }
    assert forall|id: EntityId| a.album_at(id) is Some implies #[trigger] c.album_at(id) is Some by {
        assert(b.album_at(id) is Some);
    }
    assert forall|id: EntityId| a.track_at(id) is Some implies #[trigger] c.track_at(id) is Some by {
        assert(b.track_at(id) is Some);
    }
}

/// Taking in an artist leaves the tables in order.
pub proof fn taking_in_an_artist_keeps_the_tables_sound(
    model: StoreModel,
    described: SourceArtistView,
    id: EntityId,
    now: i64,
)
    requires
        model.sound(),
        ingested_artist(model, described, id, now) is Ok,
    ensures
        ingested_artist(model, described, id, now)->Ok_0.0.sound(),
        model.stays_in(ingested_artist(model, described, id, now)->Ok_0.0),
{
    let artist = named_artist(described.name);
    if described.source is None || model.bound(EntityKind::Artist, described.source->0) is None {
        adding_an_artist_keeps_the_tables_sound(model, id, artist);
        let added = model.with_artist(id, artist);
        if described.source is Some {
            let binding = direct(described.source->0);
            binding_keeps_the_tables_sound(added, EntityKind::Artist, id, binding, now);
            staying_adds_up(
                model,
                added,
                added.with_binding(EntityKind::Artist, id, binding, now),
            );
        }
    }
}

pub proof fn taking_in_artists_keeps_the_tables_sound(
    model: StoreModel,
    described: Seq<SourceArtistView>,
    ids: Seq<EntityId>,
    now: i64,
)
    requires
        model.sound(),
        ingested_artists(model, described, ids, now) is Ok,
    ensures
        ingested_artists(model, described, ids, now)->Ok_0.0.sound(),
        model.stays_in(ingested_artists(model, described, ids, now)->Ok_0.0),
    decreases described.len(),
{
    if described.len() > 0 {
        taking_in_artists_keeps_the_tables_sound(model, described.drop_last(), ids, now);
        let so_far = ingested_artists(model, described.drop_last(), ids, now)->Ok_0.0;
        taking_in_an_artist_keeps_the_tables_sound(
            so_far,
            described.last(),
            ids[described.len() - 1],
            now,
        );
        staying_adds_up(
            model,
            so_far,
            ingested_artists(model, described, ids, now)->Ok_0.0,
        );
    }
}

/// Taking in an album leaves the tables in order.
pub proof fn taking_in_an_album_keeps_the_tables_sound(
    model: StoreModel,
    described: SourceAlbumView,
    ids: Seq<EntityId>,
    now: i64,
)
    requires
        model.sound(),
        ingested_album(model, described, ids, now) is Ok,
    ensures
        ingested_album(model, described, ids, now)->Ok_0.0.sound(),
        model.stays_in(ingested_album(model, described, ids, now)->Ok_0.0),
{
    let after = ingested_album(model, described, ids, now)->Ok_0.0;
    let known = match described.source {
        Some(source) => model.bound(EntityKind::Album, source),
        None => None,
    };
    taking_in_artists_keeps_the_tables_sound(model, described.artists, ids.skip(1), now);
    let (credited, artists) = ingested_artists(model, described.artists, ids.skip(1), now)->Ok_0;
    if known is Some {
        let more = merged(model.album(known->0)->0, described, artists);
        if more != model.album(known->0)->0 {
            updating_an_album_keeps_the_tables_sound(credited, known->0, more);
            staying_adds_up(model, credited, after);
        }
    } else {
        let album = new_album(described, artists);
        adding_an_album_keeps_the_tables_sound(credited, ids[0], album);
        let added = credited.with_album(ids[0], album);
        staying_adds_up(model, credited, added);
        if described.source is Some {
            binding_keeps_the_tables_sound(
                added,
                EntityKind::Album,
                ids[0],
                direct(described.source->0),
                now,
            );
            staying_adds_up(model, added, after);
        }
    }
}

pub proof fn taking_in_an_unbound_track_keeps_the_tables_sound(
    model: StoreModel,
    described: SourceTrackView,
    matched: Option<EntityId>,
    ids: Seq<EntityId>,
    now: i64,
)
    requires
        model.sound(),
        ingested_unbound(model, described, matched, ids, now) is Ok,
    ensures
        ingested_unbound(model, described, matched, ids, now)->Ok_0.0.sound(),
        model.stays_in(ingested_unbound(model, described, matched, ids, now)->Ok_0.0),
{
    let after = ingested_unbound(model, described, matched, ids, now)->Ok_0.0;
    taking_in_artists_keeps_the_tables_sound(model, described.artists, ids.skip(1), now);
    let (credited, artists) = ingested_artists(model, described.artists, ids.skip(1), now)->Ok_0;
    let track = match matched {
        Some(track) => track,
        None => ids[0],
    };
    let binding = match matched {
        Some(_) => by_isrc(described.source),
        None => direct(described.source),
    };
    let added = match matched {
        Some(_) => credited,
        None => credited.with_track(track, new_track(described, artists)),
    };
    if matched is None {
        adding_a_track_keeps_the_tables_sound(credited, track, new_track(described, artists));
    }
    staying_adds_up(model, credited, added);
    binding_keeps_the_tables_sound(added, EntityKind::Track, track, binding, now);
    let bound = added.with_binding(EntityKind::Track, track, binding, now);
    staying_adds_up(model, added, bound);
    if described.album is Some {
        let rest = ids.skip(1 + described.artists.len() as int);
        let album = described.album->0;
        taking_in_an_album_keeps_the_tables_sound(bound, album, rest, now);
        let (filled, on) = ingested_album(bound, album, rest, now)->Ok_0;
        staying_adds_up(model, bound, filled);
        if described.disc is Some && described.position is Some {
            let entry = AlbumTrack {
                disc: described.disc->0,
                position: described.position->0,
                track,
            };
            placing_a_track_keeps_the_tables_sound(filled, on, entry);
            staying_adds_up(model, filled, after);
        }
    }
}

/// Taking in a track leaves the tables in order.
pub proof fn taking_in_a_track_keeps_the_tables_sound(
    model: StoreModel,
    described: SourceTrackView,
    ids: Seq<EntityId>,
    now: i64,
)
    requires
        model.sound(),
        ingested_track(model, described, ids, now) is Ok,
    ensures
        ingested_track(model, described, ids, now)->Ok_0.0.sound(),
        model.stays_in(ingested_track(model, described, ids, now)->Ok_0.0),
{
    if model.bound(EntityKind::Track, described.source) is None {
        taking_in_an_unbound_track_keeps_the_tables_sound(
            model,
            described,
            isrc_match(model, described),
            ids,
            now,
        );
    }
}

/// Matching a track onto a copy of it leaves the tables in order.
pub proof fn matching_a_track_keeps_the_tables_sound(
    model: StoreModel,
    track: EntityId,
    described: SourceTrackView,
    ids: Seq<EntityId>,
    now: i64,
)
    requires
        model.sound(),
        isrc_bound(model, track, described, ids, now) is Ok,
    ensures
        isrc_bound(model, track, described, ids, now)->Ok_0.0.sound(),
{
    if ingested_unbound(model, described, Some(track), ids, now) is Ok {
        taking_in_an_unbound_track_keeps_the_tables_sound(
            model,
            described,
            Some(track),
            ids,
            now,
        );
    }
}

proof fn taking_in_entries_keeps_the_tables_sound(
    model: StoreModel,
    tracks: Seq<SourceTrackView>,
    ids: Seq<Seq<EntityId>>,
    now: i64,
)
    requires
        model.sound(),
        ingested_entries(model, tracks, ids, now) is Ok,
    ensures
        ingested_entries(model, tracks, ids, now)->Ok_0.0.sound(),
    decreases tracks.len(),
{
    if tracks.len() > 0 {
        taking_in_entries_keeps_the_tables_sound(model, tracks.drop_last(), ids, now);
        let so_far = ingested_entries(model, tracks.drop_last(), ids, now)->Ok_0.0;
        taking_in_a_track_keeps_the_tables_sound(
            so_far,
            tracks.last(),
            ids[tracks.len() - 1],
            now,
        );
    }
}

/// Taking in an album's listing leaves the tables in order.
pub proof fn taking_in_a_listing_keeps_the_tables_sound(
    model: StoreModel,
    listing: AlbumListingView,
    album_ids: Seq<EntityId>,
    track_ids: Seq<Seq<EntityId>>,
    now: i64,
)
    requires
        model.sound(),
        ingested_listing(model, listing, album_ids, track_ids, now) is Ok,
    ensures
        ingested_listing(model, listing, album_ids, track_ids, now)->Ok_0.0.sound(),
{
    taking_in_an_album_keeps_the_tables_sound(model, listing.album, album_ids, now);
    let (after, album) = ingested_album(model, listing.album, album_ids, now)->Ok_0;
    taking_in_entries_keeps_the_tables_sound(after, listing.tracks, track_ids, now);
    let (filled, entries) = ingested_entries(after, listing.tracks, track_ids, now)->Ok_0;
    setting_a_tracklist_keeps_the_tables_sound(filled, album, entries);
}

/// What every step keeps, a series of steps keeps.
proof fn each_step_keeps_the_tables_sound<D, T>(
    model: StoreModel,
    items: Seq<D>,
    step: spec_fn(StoreModel, D, int) -> Ingested<T>,
)
    requires
        model.sound(),
        each(model, items, step) is Ok,
        forall|m: StoreModel, d: D, i: int|
            m.sound() && (#[trigger] step(m, d, i)) is Ok ==> step(m, d, i)->Ok_0.0.sound(),
    ensures
        each(model, items, step)->Ok_0.0.sound(),
    decreases items.len(),
{
    if items.len() > 0 {
        each_step_keeps_the_tables_sound(model, items.drop_last(), step);
    }
}

/// Taking in what a search found leaves the tables in order.
pub proof fn searching_keeps_the_tables_sound(
    model: StoreModel,
    found: SearchResultsView,
    ids: SupplyModel,
    now: i64,
)
    requires
        model.sound(),
        searched(model, found, ids, now) is Ok,
    ensures
        searched(model, found, ids, now)->Ok_0.0.sound(),
{
    let tracks = show_track_step(ids.tracks, now);
    let albums = show_album_step(ids.albums, now);
    let artists = show_artist_step(ids.artists, now);
    shown_tracks_are_sound(ids.tracks, now);
    shown_albums_are_sound(ids.albums, now);
    shown_artists_are_sound(ids.artists, now);
    each_step_keeps_the_tables_sound(model, found.tracks, tracks);
    let heard = each(model, found.tracks, tracks)->Ok_0.0;
    each_step_keeps_the_tables_sound(heard, found.albums, albums);
    let shelved = each(heard, found.albums, albums)->Ok_0.0;
    each_step_keeps_the_tables_sound(shelved, found.artists, artists);
}

proof fn shown_tracks_are_sound(ids: Seq<Seq<EntityId>>, now: i64)
    ensures
        forall|m: StoreModel, d: SourceTrackView, i: int|
            m.sound() && (#[trigger] show_track_step(ids, now)(m, d, i)) is Ok ==> show_track_step(
                ids,
                now,
            )(m, d, i)->Ok_0.0.sound(),
{
    assert forall|m: StoreModel, d: SourceTrackView, i: int|
        m.sound() && (#[trigger] show_track_step(ids, now)(m, d, i)) is Ok implies show_track_step(
        ids,
        now,
    )(m, d, i)->Ok_0.0.sound() by {
        taking_in_a_track_keeps_the_tables_sound(m, d, ids[i], now);
    }
}

proof fn shown_albums_are_sound(ids: Seq<Seq<EntityId>>, now: i64)
    ensures
        forall|m: StoreModel, d: SourceAlbumView, i: int|
            m.sound() && (#[trigger] show_album_step(ids, now)(m, d, i)) is Ok ==> show_album_step(
                ids,
                now,
            )(m, d, i)->Ok_0.0.sound(),
{
    assert forall|m: StoreModel, d: SourceAlbumView, i: int|
        m.sound() && (#[trigger] show_album_step(ids, now)(m, d, i)) is Ok implies show_album_step(
        ids,
        now,
    )(m, d, i)->Ok_0.0.sound() by {
        taking_in_an_album_keeps_the_tables_sound(m, d, ids[i], now);
    }
}

proof fn shown_artists_are_sound(ids: Seq<EntityId>, now: i64)
    ensures
        forall|m: StoreModel, d: SourceArtistView, i: int|
            m.sound() && (#[trigger] show_artist_step(ids, now)(m, d, i)) is Ok
                ==> show_artist_step(ids, now)(m, d, i)->Ok_0.0.sound(),
{
    assert forall|m: StoreModel, d: SourceArtistView, i: int|
        m.sound() && (#[trigger] show_artist_step(ids, now)(m, d, i)) is Ok implies show_artist_step(
        ids,
        now,
    )(m, d, i)->Ok_0.0.sound() by {
        taking_in_an_artist_keeps_the_tables_sound(m, d, ids[i], now);
    }
}

/// Taking in what a service lists for an artist leaves the tables in order.
pub proof fn taking_in_an_artist_listing_keeps_the_tables_sound(
    model: StoreModel,
    listing: ArtistListingView,
    ids: SupplyModel,
    now: i64,
)
    requires
        model.sound(),
        listed_artist(model, listing, ids, now) is Ok,
    ensures
        listed_artist(model, listing, ids, now)->Ok_0.0.sound(),
{
    taking_in_an_artist_keeps_the_tables_sound(model, listing.artist, ids.artists[0], now);
    let credited = ingested_artist(model, listing.artist, ids.artists[0], now)->Ok_0.0;
    shown_albums_are_sound(ids.albums, now);
    shown_tracks_are_sound(ids.tracks, now);
    let albums = show_album_step(ids.albums, now);
    each_step_keeps_the_tables_sound(credited, listing.albums, albums);
    let shelved = each(credited, listing.albums, albums)->Ok_0.0;
    each_step_keeps_the_tables_sound(shelved, listing.top_tracks, show_track_step(ids.tracks, now));
}

proof fn a_playlist_made_keeps_the_tables_sound(
    model: StoreModel,
    playlist: SourcePlaylistView,
    id: EntityId,
    tracks: Seq<EntityId>,
    now: i64,
)
    requires
        model.sound(),
        made_playlist(model, playlist, id, tracks, now) is Ok,
    ensures
        made_playlist(model, playlist, id, tracks, now)->Ok_0.0.sound(),
{
    making_a_playlist_keeps_the_tables_sound(model, id, playlist.name, tracks, now);
    let made = model.with_playlist(id, playlist.name, tracks, now);
    binding_keeps_the_tables_sound(made, EntityKind::Playlist, id, direct(playlist.source), now);
}

/// Bringing in a service's playlist leaves the tables in order.
pub proof fn importing_a_playlist_keeps_the_tables_sound(
    model: StoreModel,
    playlist: SourcePlaylistView,
    id: EntityId,
    track_ids: Seq<Seq<EntityId>>,
    now: i64,
)
    requires
        model.sound(),
        imported_playlist(model, playlist, id, track_ids, now) is Ok,
    ensures
        imported_playlist(model, playlist, id, track_ids, now)->Ok_0.0.sound(),
{
    let step = track_step(track_ids, now);
    assert forall|m: StoreModel, d: SourceTrackView, i: int|
        m.sound() && (#[trigger] step(m, d, i)) is Ok implies step(m, d, i)->Ok_0.0.sound() by {
        taking_in_a_track_keeps_the_tables_sound(m, d, track_ids[i], now);
    }
    each_step_keeps_the_tables_sound(model, playlist.tracks, step);
    let (filled, tracks) = each(model, playlist.tracks, step)->Ok_0;
    match filled.bound(EntityKind::Playlist, playlist.source) {
        Some(known) => {
            if filled.playlist_at(known) is None {
                let freed = filled.without_binding(EntityKind::Playlist, playlist.source);
                unbinding_keeps_the_tables_sound(filled, EntityKind::Playlist, playlist.source);
                a_playlist_made_keeps_the_tables_sound(freed, playlist, id, tracks, now);
            } else {
                renaming_a_playlist_keeps_the_tables_sound(filled, known, playlist.name, now);
                let renamed = filled.with_playlist_renamed(known, playlist.name, now);
                first_at_matches(renamed.playlists, playlist_is(known));
                let after = with_playlist_replaced(renamed, known, tracks, now);
                assert(renamed.stays_in(after));
                references_carry_over(renamed, after);
            }
        },
        None => {
            a_playlist_made_keeps_the_tables_sound(filled, playlist, id, tracks, now);
        },
    }
}

/// Importing what the user keeps on a service leaves the tables in order.
pub proof fn importing_keeps_the_tables_sound(
    model: StoreModel,
    favorites: FavoritesView,
    playlists: Seq<SourcePlaylistView>,
    ids: SupplyModel,
    playlist_ids: Seq<EntityId>,
    track_ids: Seq<Seq<Seq<EntityId>>>,
    now: i64,
)
    requires
        model.sound(),
        imported(model, favorites, playlists, ids, playlist_ids, track_ids, now) is Ok,
    ensures
        imported(model, favorites, playlists, ids, playlist_ids, track_ids, now)->Ok_0.0.sound(),
{
    let tracks = keep_track_step(ids.tracks, now);
    let albums = keep_album_step(ids.albums, now);
    let artists = keep_artist_step(ids.artists, now);
    let lists = playlist_step(playlist_ids, track_ids, now);
    assert forall|m: StoreModel, f: Favorite<SourceTrackView>, i: int|
        m.sound() && (#[trigger] tracks(m, f, i)) is Ok implies tracks(m, f, i)->Ok_0.0.sound() by {
        taking_in_a_track_keeps_the_tables_sound(m, f.item, ids.tracks[i], now);
        keeping_is_sound(ingested_track(m, f.item, ids.tracks[i], now), f.added_ms, now);
    }
    assert forall|m: StoreModel, f: Favorite<SourceAlbumView>, i: int|
        m.sound() && (#[trigger] albums(m, f, i)) is Ok implies albums(m, f, i)->Ok_0.0.sound() by {
        taking_in_an_album_keeps_the_tables_sound(m, f.item, ids.albums[i], now);
        keeping_is_sound(ingested_album(m, f.item, ids.albums[i], now), f.added_ms, now);
    }
    assert forall|m: StoreModel, f: Favorite<SourceArtistView>, i: int|
        m.sound() && (#[trigger] artists(m, f, i)) is Ok implies artists(m, f, i)->Ok_0.0.sound() by {
        taking_in_an_artist_keeps_the_tables_sound(m, f.item, ids.artists[i], now);
        keeping_is_sound(ingested_artist(m, f.item, ids.artists[i], now), f.added_ms, now);
    }
    assert forall|m: StoreModel, p: SourcePlaylistView, i: int|
        m.sound() && (#[trigger] lists(m, p, i)) is Ok implies lists(m, p, i)->Ok_0.0.sound() by {
        importing_a_playlist_keeps_the_tables_sound(m, p, playlist_ids[i], track_ids[i], now);
    }
    each_step_keeps_the_tables_sound(model, favorites.tracks, tracks);
    let heard = each(model, favorites.tracks, tracks)->Ok_0.0;
    each_step_keeps_the_tables_sound(heard, favorites.albums, albums);
    let shelved = each(heard, favorites.albums, albums)->Ok_0.0;
    each_step_keeps_the_tables_sound(shelved, favorites.artists, artists);
    let credited = each(shelved, favorites.artists, artists)->Ok_0.0;
    each_step_keeps_the_tables_sound(credited, playlists, lists);
}

proof fn keeping_is_sound(way: Ingested<EntityId>, added_ms: Option<i64>, now: i64)
    requires
        way is Ok ==> way->Ok_0.0.sound(),
        kept(way, added_ms, now) is Ok,
    ensures
        kept(way, added_ms, now)->Ok_0.0.sound(),
{
    let (after, id) = way->Ok_0;
    saving_keeps_the_tables_sound(
        after,
        id,
        match added_ms {
            Some(at) => at,
            None => now,
        },
    );
}

} // verus!
