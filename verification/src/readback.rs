//! What is written to the tables is what is read back from them.

use vstd::prelude::*;

use crate::id::EntityId;
use crate::model::{AlbumModel, AlbumTrack, ArtistModel, EntityKind, TrackModel};
use crate::rows::{
    an_update_is_found_where_it_was, any, first_at_matches, first_at_push, in_order,
    in_order_is_sorted, places, places_are_the_matches, without, without_keeps_the_rest,
};
use crate::shelf::{edited_tracks, PlaylistEdit};
use crate::store::{
    album_has_mbid, album_is, artist_has_mbid, artist_is, carries, isrc_is, isrc_of, kept_duration,
    playlist_is, slot_entry, slot_of, track_entry, track_has_mbid, track_is, with_isrcs, AlbumEntry,
    ArtistEntry, IsrcEntry, PlaylistEntry, StoreModel,
};
use crate::tracklist::{resettled, resettling_seats_the_entries, slot_entries, slot_rank};

verus! {

/// The first of each of `all`, in order.
pub open spec fn first_of_each<T>(all: Seq<T>) -> Seq<T>
    decreases all.len(),
{
    if all.len() == 0 {
        Seq::empty()
    } else {
        let before = first_of_each(all.drop_last());
        if before.contains(all.last()) {
            before
        } else {
            before.push(all.last())
        }
    }
}

/// What has nothing twice is its own first of each.
pub proof fn nothing_twice_is_left_alone<T>(all: Seq<T>)
    requires
        all.no_duplicates(),
    ensures
        first_of_each(all) == all,
    decreases all.len(),
{
    if all.len() > 0 {
        let before = all.drop_last();
        nothing_twice_is_left_alone(before);
        if before.contains(all.last()) {
            let i = choose|i: int| 0 <= i < before.len() && before[i] == all.last();
            assert(all[i] == all[all.len() - 1]);
        }
        assert(before.push(all.last()) =~= all);
    } else {
        assert(first_of_each(all) =~= all);
    }
}

/// The first of each holds exactly what there is.
pub proof fn first_of_each_holds_the_same<T>(all: Seq<T>, x: T)
    ensures
        first_of_each(all).contains(x) <==> all.contains(x),
    decreases all.len(),
{
    if all.len() > 0 {
        let before = all.drop_last();
        first_of_each_holds_the_same(before, x);
        let short = first_of_each(before);
        if all.contains(x) {
            let i = choose|i: int| 0 <= i < all.len() && all[i] == x;
            if i < before.len() {
                assert(before[i] == x);
                let k = choose|k: int| 0 <= k < short.len() && short[k] == x;
                assert(first_of_each(all)[k] == x);
            } else if !short.contains(x) {
                assert(first_of_each(all)[short.len() as int] == x);
            }
        }
        if first_of_each(all).contains(x) {
            let k = choose|k: int| 0 <= k < first_of_each(all).len() && first_of_each(all)[k] == x;
            if k < short.len() {
                assert(short[k] == x);
                let i = choose|i: int| 0 <= i < before.len() && before[i] == x;
                assert(all[i] == x);
            } else {
                assert(all[all.len() - 1] == x);
            }
        }
    }
}

/// An artist that was added reads back as it was given, is found by its MusicBrainz id, and
/// changes no other.
pub proof fn an_artist_reads_back(
    model: StoreModel,
    id: EntityId,
    artist: ArtistModel,
    other: EntityId,
)
    requires
        model.artist_refusal(id, artist) is None,
    ensures
        model.with_artist(id, artist).artist(id) == Some(artist),
        model.with_artist(id, artist).kind_of(id) == Some(EntityKind::Artist),
        artist.mbid is Some ==> model.with_artist(id, artist).by_mbid(
            EntityKind::Artist,
            artist.mbid->0,
        ) == Some(id),
        other != id ==> model.with_artist(id, artist).artist(other) == model.artist(other),
{
    let row = ArtistEntry { id, artist };
    first_at_push(model.artists, row, artist_is(id));
    first_at_push(model.artists, row, artist_is(other));
    first_at_matches(model.artists, artist_is(other));
    if artist.mbid is Some {
        first_at_push(model.artists, row, artist_has_mbid(artist.mbid->0));
        first_at_matches(model.artists, artist_has_mbid(artist.mbid->0));
    }
}

/// An album that was added reads back as it was given, is found by its MusicBrainz id, and
/// changes no other.
pub proof fn an_album_reads_back(
    model: StoreModel,
    id: EntityId,
    album: AlbumModel,
    other: EntityId,
)
    requires
        model.album_refusal(id, album) is None,
    ensures
        model.with_album(id, album).album(id) == Some(album),
        model.with_album(id, album).kind_of(id) == Some(EntityKind::Album),
        album.mbid is Some ==> model.with_album(id, album).by_mbid(EntityKind::Album, album.mbid->0)
            == Some(id),
        other != id ==> model.with_album(id, album).album(other) == model.album(other),
{
    let row = AlbumEntry { id, album };
    first_at_push(model.albums, row, album_is(id));
    first_at_push(model.albums, row, album_is(other));
    first_at_matches(model.albums, album_is(other));
    if album.mbid is Some {
        let p = album_has_mbid(album.mbid->0);
        first_at_push(model.albums, row, p);
        first_at_matches(model.albums, p);
    }
}

/// An album that was updated reads back as it was given, and no other changes.
pub proof fn an_updated_album_reads_back(
    model: StoreModel,
    id: EntityId,
    album: AlbumModel,
    other: EntityId,
)
    requires
        model.album_update_refusal(id, album) is None,
    ensures
        model.with_album_updated(id, album).album(id) == Some(album),
        other != id ==> model.with_album_updated(id, album).album(other) == model.album(other),
{
    let at = model.album_at(id)->0;
    let row = AlbumEntry { id, album };
    first_at_matches(model.albums, album_is(id));
    an_update_is_found_where_it_was(model.albums, at, row, album_is(id));
    an_update_is_found_where_it_was(model.albums, at, row, album_is(other));
    first_at_matches(model.albums, album_is(other));
}

/// The places that match in a table are the same whatever follows them.
proof fn places_ignore_what_follows<T>(s: Seq<T>, x: T, p: spec_fn(T) -> bool, n: int)
    requires
        0 <= n <= s.len(),
    ensures
        places(s.push(x), p, n) == places(s, p, n),
    decreases n,
{
    if n > 0 {
        places_ignore_what_follows(s, x, p, n - 1);
        assert(s.push(x)[n - 1] == s[n - 1]);
    }
}

/// The ISRCs the rows give `track`, in order.
spec fn carried(rows: Seq<IsrcEntry>, track: EntityId) -> Seq<Seq<char>> {
    places(rows, isrc_of(track), rows.len() as int).map_values(|i: int| rows[i].isrc)
}

proof fn one_more_is_carried(rows: Seq<IsrcEntry>, row: IsrcEntry, track: EntityId)
    ensures
        carried(rows.push(row), track) == if row.track == track {
            carried(rows, track).push(row.isrc)
        } else {
            carried(rows, track)
        },
{
    let p = isrc_of(track);
    let more = rows.push(row);
    let n = rows.len() as int;
    places_ignore_what_follows(rows, row, p, n);
    places_are_the_matches(rows, p, n);
    assert(more[n] == row);
    let before = places(rows, p, n);
    assert(places(more, p, n) == before);
    if row.track == track {
        assert(places(more, p, n + 1) =~= before.push(n));
        assert(carried(more, track) =~= carried(rows, track).push(row.isrc)) by {
            assert forall|k: int| 0 <= k < before.len() implies more[before[k]] == rows[before[k]] by {
                assert(0 <= before[k] < n);
            }
        }
    } else {
        assert(places(more, p, n + 1) == before);
        assert(carried(more, track) =~= carried(rows, track)) by {
            assert forall|k: int| 0 <= k < before.len() implies more[before[k]] == rows[before[k]] by {
                assert(0 <= before[k] < n);
            }
        }
    }
}

proof fn what_is_carried_is_there(rows: Seq<IsrcEntry>, track: EntityId, isrc: Seq<char>)
    ensures
        any(rows, isrc_is(track, isrc)) <==> carried(rows, track).contains(isrc),
{
    let p = isrc_of(track);
    let n = rows.len() as int;
    let at = places(rows, p, n);
    places_are_the_matches(rows, p, n);
    if any(rows, isrc_is(track, isrc)) {
        let i = choose|i: int| 0 <= i < rows.len() && isrc_is(track, isrc)(#[trigger] rows[i]);
        assert(p(rows[i]));
        assert(at.contains(i));
        let k = choose|k: int| 0 <= k < at.len() && at[k] == i;
        assert(carried(rows, track)[k] == isrc);
    }
    if carried(rows, track).contains(isrc) {
        let k = choose|k: int| 0 <= k < carried(rows, track).len() && carried(rows, track)[k]
            == isrc;
        assert(0 <= at[k] < n && p(rows[at[k]]));
        assert(isrc_is(track, isrc)(rows[at[k]]));
    }
}

/// A track with no ISRCs carries the first of each it is given.
proof fn what_is_given_is_carried(rows: Seq<IsrcEntry>, track: EntityId, isrcs: Seq<Seq<char>>)
    requires
        carried(rows, track).len() == 0,
    ensures
        carried(with_isrcs(rows, track, isrcs), track) == first_of_each(isrcs),
    decreases isrcs.len(),
{
    if isrcs.len() > 0 {
        what_is_given_is_carried(rows, track, isrcs.drop_last());
        let before = with_isrcs(rows, track, isrcs.drop_last());
        what_is_carried_is_there(before, track, isrcs.last());
        one_more_is_carried(before, IsrcEntry { track, isrc: isrcs.last() }, track);
    } else {
        assert(carried(rows, track) =~= Seq::empty());
    }
}

/// Other tracks carry what they carried.
proof fn others_carry_the_same(
    rows: Seq<IsrcEntry>,
    track: EntityId,
    isrcs: Seq<Seq<char>>,
    other: EntityId,
)
    requires
        other != track,
    ensures
        carried(with_isrcs(rows, track, isrcs), other) == carried(rows, other),
    decreases isrcs.len(),
{
    if isrcs.len() > 0 {
        others_carry_the_same(rows, track, isrcs.drop_last(), other);
        let before = with_isrcs(rows, track, isrcs.drop_last());
        one_more_is_carried(before, IsrcEntry { track, isrc: isrcs.last() }, other);
    }
}

proof fn nothing_is_carried_without_rows(rows: Seq<IsrcEntry>, track: EntityId)
    requires
        forall|i: int| 0 <= i < rows.len() ==> (#[trigger] rows[i]).track != track,
    ensures
        carried(rows, track).len() == 0,
{
    let p = isrc_of(track);
    places_are_the_matches(rows, p, rows.len() as int);
    let at = places(rows, p, rows.len() as int);
    if at.len() > 0 {
        assert(p(rows[at[0]]));
    }
}

/// Leaving rows of one track out leaves the others what they carry.
proof fn the_rest_carry_the_same(rows: Seq<IsrcEntry>, track: EntityId, other: EntityId)
    requires
        other != track,
    ensures
        carried(without(rows, isrc_of(track)), other) == carried(rows, other),
    decreases rows.len(),
{
    if rows.len() > 0 {
        let before = rows.drop_last();
        the_rest_carry_the_same(before, track, other);
        assert(before.push(rows.last()) =~= rows);
        one_more_is_carried(before, rows.last(), other);
        one_more_is_carried(without(before, isrc_of(track)), rows.last(), other);
    }
}

/// What a track reads back as: what it was given, with each ISRC once and a length that the
/// tables can hold.
pub open spec fn read_back(track: TrackModel) -> TrackModel {
    TrackModel {
        duration_ms: kept_duration(track.duration_ms),
        isrcs: first_of_each(track.isrcs),
        ..track
    }
}

/// A track that was added reads back as it was given, with each ISRC once, is found by its
/// MusicBrainz id, and changes no other.
pub proof fn a_track_reads_back(
    model: StoreModel,
    id: EntityId,
    track: TrackModel,
    other: EntityId,
)
    requires
        model.sound(),
        model.track_refusal(id, track) is None,
    ensures
        model.with_track(id, track).track(id) == Some(read_back(track)),
        model.with_track(id, track).kind_of(id) == Some(EntityKind::Track),
        track.mbid is Some ==> model.with_track(id, track).by_mbid(EntityKind::Track, track.mbid->0)
            == Some(id),
        other != id ==> model.with_track(id, track).track(other) == model.track(other),
{
    let after = model.with_track(id, track);
    let row = track_entry(id, track);
    first_at_push(model.tracks, row, track_is(id));
    first_at_push(model.tracks, row, track_is(other));
    first_at_matches(model.tracks, track_is(other));
    if track.mbid is Some {
        let p = track_has_mbid(track.mbid->0);
        first_at_push(model.tracks, row, p);
        first_at_matches(model.tracks, p);
    }
    assert forall|i: int| 0 <= i < model.isrcs.len() implies (#[trigger] model.isrcs[i]).track
        != id by {
        assert(model.track_at(model.isrcs[i].track) is Some);
    }
    nothing_is_carried_without_rows(model.isrcs, id);
    what_is_given_is_carried(model.isrcs, id, track.isrcs);
    assert(after.isrcs_of(id) =~= carried(after.isrcs, id));
    assert(after.track(id)->0 =~= read_back(track));
    if other != id {
        others_carry_the_same(model.isrcs, id, track.isrcs, other);
        assert(after.isrcs_of(other) =~= carried(after.isrcs, other));
        assert(model.isrcs_of(other) =~= carried(model.isrcs, other));
    }
}

/// A track that was updated reads back as it was given: its old ISRCs and credits are gone, and
/// no other track changes.
pub proof fn an_updated_track_reads_back(
    model: StoreModel,
    id: EntityId,
    track: TrackModel,
    other: EntityId,
)
    requires
        model.track_update_refusal(id, track) is None,
    ensures
        model.with_track_updated(id, track).track(id) == Some(read_back(track)),
        other != id ==> model.with_track_updated(id, track).track(other) == model.track(other),
{
    let after = model.with_track_updated(id, track);
    let at = model.track_at(id)->0;
    let row = track_entry(id, track);
    first_at_matches(model.tracks, track_is(id));
    first_at_matches(model.tracks, track_is(other));
    an_update_is_found_where_it_was(model.tracks, at, row, track_is(id));
    an_update_is_found_where_it_was(model.tracks, at, row, track_is(other));
    let kept = without(model.isrcs, isrc_of(id));
    without_keeps_the_rest(model.isrcs, isrc_of(id));
    assert forall|i: int| 0 <= i < kept.len() implies (#[trigger] kept[i]).track != id by {
        assert(!isrc_of(id)(kept[i]));
    }
    nothing_is_carried_without_rows(kept, id);
    what_is_given_is_carried(kept, id, track.isrcs);
    assert(after.isrcs_of(id) =~= carried(after.isrcs, id));
    assert(after.track(id)->0 =~= read_back(track));
    if other != id {
        others_carry_the_same(kept, id, track.isrcs, other);
        the_rest_carry_the_same(model.isrcs, id, other);
        assert(after.isrcs_of(other) =~= carried(after.isrcs, other));
        assert(model.isrcs_of(other) =~= carried(model.isrcs, other));
    }
}

/// A track is found by an ISRC exactly when it carries it.
pub proof fn a_track_is_found_by_its_isrcs(model: StoreModel, id: EntityId, isrc: Seq<char>)
    ensures
        model.tracks_with_isrc(isrc).contains(id) <==> model.isrcs_of(id).contains(isrc),
{
    let p = carries(isrc);
    let n = model.isrcs.len() as int;
    let at = places(model.isrcs, p, n);
    places_are_the_matches(model.isrcs, p, n);
    what_is_carried_is_there(model.isrcs, id, isrc);
    assert(model.isrcs_of(id) =~= carried(model.isrcs, id));
    if model.tracks_with_isrc(isrc).contains(id) {
        let k = choose|k: int|
            0 <= k < model.tracks_with_isrc(isrc).len() && model.tracks_with_isrc(isrc)[k] == id;
        assert(0 <= at[k] < n && p(model.isrcs[at[k]]));
        assert(isrc_is(id, isrc)(model.isrcs[at[k]]));
    }
    if any(model.isrcs, isrc_is(id, isrc)) {
        let i = choose|i: int|
            0 <= i < model.isrcs.len() && isrc_is(id, isrc)(#[trigger] model.isrcs[i]);
        assert(p(model.isrcs[i]));
        assert(at.contains(i));
        let k = choose|k: int| 0 <= k < at.len() && at[k] == i;
        assert(model.tracks_with_isrc(isrc)[k] == id);
    }
}

/// A tracklist that was set reads back whole: it lists what it was given, and nothing else.
pub proof fn a_tracklist_reads_back(
    model: StoreModel,
    album: EntityId,
    entries: Seq<AlbumTrack>,
    entry: AlbumTrack,
)
    requires
        model.slots.len() + entries.len() <= usize::MAX,
    ensures
        model.with_tracklist(album, entries).tracklist(album).contains(entry) <==> entries.contains(
            entry,
        ),
{
    broadcast use vstd::seq_lib::group_to_multiset_ensures;

    let after = model.with_tracklist(album, entries);
    let (kept, left) = resettled(model.slots, album, entries);
    resettling_seats_the_entries(model.slots, album, entries);
    let new = slot_entries(album, left);
    let ranks = after.slot_ranks(album);
    let n = after.slots.len() as int;
    let at = places(after.slots, slot_of(album), n);
    places_are_the_matches(after.slots, slot_of(album), n);
    in_order_is_sorted(ranks);
    let sorted = in_order(ranks);
    let list = after.tracklist(album);
    if list.contains(entry) {
        let k = choose|k: int| 0 <= k < list.len() && list[k] == entry;
        assert(sorted.contains(sorted[k]));
        assert(ranks.to_multiset().count(sorted[k]) > 0);
        assert(ranks.contains(sorted[k]));
        let l = choose|l: int| 0 <= l < ranks.len() && ranks[l] == sorted[k];
        let i = at[l];
        assert(0 <= i < n && slot_of(album)(after.slots[i]));
        assert(sorted[k].row == i);
        if i < kept.len() {
            assert(after.slots[i] == kept[i]);
        } else {
            assert(after.slots[i] == new[i - kept.len()]);
            assert(left[i - kept.len()] == entry);
        }
    }
    if entries.contains(entry) {
        let i = if left.contains(entry) {
            let j = choose|j: int| 0 <= j < left.len() && left[j] == entry;
            assert(after.slots[kept.len() + j] == new[j]);
            kept.len() + j
        } else {
            let j = choose|j: int| 0 <= j < kept.len() && kept[j] == slot_entry(album, entry);
            assert(after.slots[j] == kept[j]);
            j
        };
        assert(slot_of(album)(after.slots[i]));
        assert(at.contains(i));
        let l = choose|l: int| 0 <= l < at.len() && at[l] == i;
        assert(ranks[l] == slot_rank(after.slots, i));
        assert(ranks.contains(ranks[l]));
        assert(sorted.to_multiset().count(ranks[l]) > 0);
        assert(sorted.contains(ranks[l]));
        let k = choose|k: int| 0 <= k < sorted.len() && sorted[k] == ranks[l];
        assert(list[k] == entry);
    }
}

/// A playlist that was made reads back as it was given, and changes no other.
pub proof fn a_playlist_reads_back(
    model: StoreModel,
    id: EntityId,
    name: Seq<char>,
    tracks: Seq<EntityId>,
    now: i64,
    other: EntityId,
)
    requires
        model.playlist_refusal(id, tracks) is None,
    ensures
        ({
            let after = model.with_playlist(id, name, tracks, now);
            &&& after.playlist_tracks(id) == tracks
            &&& after.playlist_at(id) is Some
            &&& after.playlists[after.playlist_at(id)->0] == PlaylistEntry {
                id,
                name,
                created_at: now,
                updated_at: now,
                tracks,
            }
            &&& after.kind_of(id) == Some(EntityKind::Playlist)
            &&& other != id ==> after.playlist_tracks(other) == model.playlist_tracks(other)
        }),
{
    let row = PlaylistEntry { id, name, created_at: now, updated_at: now, tracks };
    first_at_push(model.playlists, row, playlist_is(id));
    first_at_push(model.playlists, row, playlist_is(other));
    first_at_matches(model.playlists, playlist_is(other));
}

/// An edit to a playlist reads back as made, and leaves its name and every other playlist alone.
pub proof fn an_edited_playlist_reads_back(
    model: StoreModel,
    id: EntityId,
    edit: PlaylistEdit,
    now: i64,
    other: EntityId,
)
    requires
        model.playlist_edit_refusal(id, edit) is None,
    ensures
        ({
            let after = model.with_playlist_edited(id, edit, now);
            &&& Ok::<Seq<EntityId>, crate::error::ErrorView>(after.playlist_tracks(id))
                == edited_tracks(model.playlist_tracks(id), edit)
            &&& after.playlist_at(id) == model.playlist_at(id)
            &&& after.playlists[after.playlist_at(id)->0].name
                == model.playlists[model.playlist_at(id)->0].name
            &&& other != id ==> after.playlist_tracks(other) == model.playlist_tracks(other)
        }),
{
    let after = model.with_playlist_edited(id, edit, now);
    first_at_matches(model.playlists, playlist_is(id));
    first_at_matches(model.playlists, playlist_is(other));
    let at = model.playlist_at(id)->0;
    let row = after.playlists[at];
    an_update_is_found_where_it_was(model.playlists, at, row, playlist_is(id));
    an_update_is_found_where_it_was(model.playlists, at, row, playlist_is(other));
}

} // verus!
