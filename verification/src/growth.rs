//! What taking things in never loses, and what taking them in again leaves alone.

use vstd::prelude::*;

use crate::binding::{
    a_bound_key_names_the_entity, binding_leaves_other_keys_alone, key_of,
    unbinding_frees_the_key, unbinding_leaves_other_keys_alone,
};
use crate::catalog::{Favorite, SourcePlaylistView};
use crate::error::ErrorView;
use crate::id::{EntityId, SourceView};
use crate::ingest::{
    an_ingested_key_names_its_track, by_isrc, direct, ingested_album, ingested_artist,
    ingested_artists, ingested_track, isrc_match, merged, named_artist, new_album, new_track,
};
use crate::intake::{each, imported_playlist, keep_track_step, track_step};
use crate::model::EntityKind;
use crate::rows::{first_at, first_at_matches, first_at_push, found_first};
use crate::store::{
    binding_is, playlist_is, saved_is, track_is, with_isrcs, IsrcEntry, PlaylistEntry, StoreModel,
};
use crate::track::{SourceAlbumView, SourceArtistView, SourceTrackView};

verus! {

/// Every artist, track, ISRC and binding there was is still there, as it was; every album is
/// still there, perhaps told more about; what is saved and the playlists are untouched.
pub open spec fn grows(before: StoreModel, after: StoreModel) -> bool {
    &&& before.artists.is_prefix_of(after.artists)
    &&& before.tracks.is_prefix_of(after.tracks)
    &&& before.isrcs.is_prefix_of(after.isrcs)
    &&& before.bindings.is_prefix_of(after.bindings)
    &&& before.albums.len() <= after.albums.len()
    &&& forall|i: int|
        0 <= i < before.albums.len() ==> (#[trigger] after.albums[i]).id == before.albums[i].id
    &&& after.saved == before.saved
    &&& after.playlists == before.playlists
}

/// Growth on growth is growth.
pub proof fn growth_adds_up(a: StoreModel, b: StoreModel, c: StoreModel)
    requires
        grows(a, b),
        grows(b, c),
    ensures
        grows(a, c),
{
    assert forall|i: int| 0 <= i < a.albums.len() implies (#[trigger] c.albums[i]).id
        == a.albums[i].id by {
        assert(b.albums[i].id == a.albums[i].id);
    }
}

/// What was found first is still found first when rows are added after it.
pub proof fn a_prefix_keeps_what_is_found<T>(s: Seq<T>, t: Seq<T>, p: spec_fn(T) -> bool)
    requires
        s.is_prefix_of(t),
        first_at(s, p) is Some,
    ensures
        first_at(t, p) == first_at(s, p),
{
    first_at_matches(s, p);
    let i = first_at(s, p)->0;
    assert(t[i] == s[i]);
    assert forall|j: int| 0 <= j < i implies !p(#[trigger] t[j]) by {
        assert(t[j] == s[j]);
    }
    found_first(t, p, i);
}

/// A key that named something still names it once the tables have grown.
pub proof fn growth_keeps_bindings(
    before: StoreModel,
    after: StoreModel,
    kind: EntityKind,
    source: SourceView,
)
    requires
        grows(before, after),
        before.bound(kind, source) is Some,
    ensures
        after.bound(kind, source) == before.bound(kind, source),
{
    let p = binding_is(kind, source.service(), key_of(source)->0);
    a_prefix_keeps_what_is_found(before.bindings, after.bindings, p);
    first_at_matches(before.bindings, p);
}

/// A track is still a track once the tables have grown.
pub proof fn growth_keeps_tracks(before: StoreModel, after: StoreModel, id: EntityId)
    requires
        grows(before, after),
        before.track_at(id) is Some,
    ensures
        after.track_at(id) is Some,
{
    a_prefix_keeps_what_is_found(before.tracks, after.tracks, track_is(id));
}

proof fn isrcs_grow(rows: Seq<IsrcEntry>, track: EntityId, isrcs: Seq<Seq<char>>)
    ensures
        rows.is_prefix_of(with_isrcs(rows, track, isrcs)),
    decreases isrcs.len(),
{
    if isrcs.len() > 0 {
        isrcs_grow(rows, track, isrcs.drop_last());
    }
}

/// Binding a key that names nothing adds a row and touches no other.
proof fn a_new_binding_grows(
    model: StoreModel,
    kind: EntityKind,
    entity: EntityId,
    binding: crate::model::BindingModel,
    now: i64,
)
    requires
        key_of(binding.source) is Some,
        model.bound(kind, binding.source) is None,
    ensures
        grows(model, model.with_binding(kind, entity, binding, now)),
{
}

/// Taking in an artist loses nothing.
pub proof fn an_artist_loses_nothing(
    model: StoreModel,
    described: SourceArtistView,
    id: EntityId,
    now: i64,
)
    requires
        ingested_artist(model, described, id, now) is Ok,
    ensures
        grows(model, ingested_artist(model, described, id, now)->Ok_0.0),
{
    let added = model.with_artist(id, named_artist(described.name));
    if described.source is Some && model.bound(EntityKind::Artist, described.source->0) is None {
        let source = described.source->0;
        assert(added.bound(EntityKind::Artist, source) is None);
        a_new_binding_grows(added, EntityKind::Artist, id, direct(source), now);
        growth_adds_up(model, added, added.with_binding(EntityKind::Artist, id, direct(source), now));
    }
}

/// Taking in artists loses nothing.
pub proof fn artists_lose_nothing(
    model: StoreModel,
    described: Seq<SourceArtistView>,
    ids: Seq<EntityId>,
    now: i64,
)
    requires
        ingested_artists(model, described, ids, now) is Ok,
    ensures
        grows(model, ingested_artists(model, described, ids, now)->Ok_0.0),
    decreases described.len(),
{
    if described.len() > 0 {
        artists_lose_nothing(model, described.drop_last(), ids, now);
        let so_far = ingested_artists(model, described.drop_last(), ids, now)->Ok_0.0;
        an_artist_loses_nothing(so_far, described.last(), ids[described.len() - 1], now);
        growth_adds_up(model, so_far, ingested_artists(model, described, ids, now)->Ok_0.0);
    }
}

/// Only what is bound as an artist changes when artists are taken in.
pub proof fn artists_bind_only_artists(
    model: StoreModel,
    described: Seq<SourceArtistView>,
    ids: Seq<EntityId>,
    now: i64,
    kind: EntityKind,
    source: SourceView,
)
    requires
        kind != EntityKind::Artist,
        ingested_artists(model, described, ids, now) is Ok,
    ensures
        ingested_artists(model, described, ids, now)->Ok_0.0.bound(kind, source) == model.bound(
            kind,
            source,
        ),
    decreases described.len(),
{
    if described.len() > 0 {
        artists_bind_only_artists(model, described.drop_last(), ids, now, kind, source);
        let so_far = ingested_artists(model, described.drop_last(), ids, now)->Ok_0.0;
        let last = described.last();
        let id = ids[described.len() - 1];
        let added = so_far.with_artist(id, named_artist(last.name));
        assert(added.bound(kind, source) == so_far.bound(kind, source));
        if last.source is Some && so_far.bound(EntityKind::Artist, last.source->0) is None {
            binding_leaves_other_keys_alone(
                added,
                EntityKind::Artist,
                id,
                direct(last.source->0),
                now,
                kind,
                source,
            );
        }
    }
}

/// Taking in an album loses nothing.
pub proof fn an_album_loses_nothing(
    model: StoreModel,
    described: SourceAlbumView,
    ids: Seq<EntityId>,
    now: i64,
)
    requires
        ingested_album(model, described, ids, now) is Ok,
    ensures
        grows(model, ingested_album(model, described, ids, now)->Ok_0.0),
{
    let after = ingested_album(model, described, ids, now)->Ok_0.0;
    artists_lose_nothing(model, described.artists, ids.skip(1), now);
    let (credited, found) = ingested_artists(model, described.artists, ids.skip(1), now)->Ok_0;
    let known = match described.source {
        Some(source) => model.bound(EntityKind::Album, source),
        None => None,
    };
    if known is Some {
        let id = known->0;
        let more = merged(model.album(id)->0, described, found);
        if more != model.album(id)->0 {
            first_at_matches(credited.albums, crate::store::album_is(id));
            let at = credited.album_at(id)->0;
            assert(credited.albums[at].id == id);
            assert(grows(credited, after));
            growth_adds_up(model, credited, after);
        }
    } else {
        let added = credited.with_album(ids[0], new_album(described, found));
        assert(grows(credited, added));
        growth_adds_up(model, credited, added);
        if described.source is Some {
            let source = described.source->0;
            artists_bind_only_artists(
                model,
                described.artists,
                ids.skip(1),
                now,
                EntityKind::Album,
                source,
            );
            assert(added.bound(EntityKind::Album, source) is None);
            a_new_binding_grows(added, EntityKind::Album, ids[0], direct(source), now);
            growth_adds_up(model, added, after);
        }
    }
}

/// Taking in a track loses nothing.
pub proof fn a_track_loses_nothing(
    model: StoreModel,
    described: SourceTrackView,
    ids: Seq<EntityId>,
    now: i64,
)
    requires
        ingested_track(model, described, ids, now) is Ok,
    ensures
        grows(model, ingested_track(model, described, ids, now)->Ok_0.0),
{
    if model.bound(EntityKind::Track, described.source) is None {
        let matched = isrc_match(model, described);
        artists_lose_nothing(model, described.artists, ids.skip(1), now);
        let (credited, artists) = ingested_artists(
            model,
            described.artists,
            ids.skip(1),
            now,
        )->Ok_0;
        artists_bind_only_artists(
            model,
            described.artists,
            ids.skip(1),
            now,
            EntityKind::Track,
            described.source,
        );
        let track = match matched {
            Some(track) => track,
            None => ids[0],
        };
        let binding = match matched {
            Some(_) => by_isrc(described.source),
            None => direct(described.source),
        };
        let added = match matched {
            Some(_) => credited,
            None => credited.with_track(track, new_track(described, artists)),
        };
        if matched is None {
            isrcs_grow(credited.isrcs, track, new_track(described, artists).isrcs);
            assert(grows(credited, added));
        }
        growth_adds_up(model, credited, added);
        assert(added.bound(EntityKind::Track, described.source) is None);
        a_new_binding_grows(added, EntityKind::Track, track, binding, now);
        let bound = added.with_binding(EntityKind::Track, track, binding, now);
        growth_adds_up(model, added, bound);
        let after = ingested_track(model, described, ids, now)->Ok_0.0;
        match described.album {
            Some(album) => {
                let rest = ids.skip(1 + described.artists.len() as int);
                an_album_loses_nothing(bound, album, rest, now);
                let filled = ingested_album(bound, album, rest, now)->Ok_0.0;
                growth_adds_up(model, bound, filled);
                assert(grows(filled, after));
                growth_adds_up(model, filled, after);
            },
            None => {},
        }
    }
}

/// Taking in tracks loses nothing, and once it is done every one of their keys names the track it
/// came to.
pub proof fn tracks_lose_nothing(
    model: StoreModel,
    tracks: Seq<SourceTrackView>,
    ids: Seq<Seq<EntityId>>,
    now: i64,
)
    requires
        each(model, tracks, track_step(ids, now)) is Ok,
    ensures
        grows(model, each(model, tracks, track_step(ids, now))->Ok_0.0),
        each(model, tracks, track_step(ids, now))->Ok_0.1.len() == tracks.len(),
        forall|i: int|
            0 <= i < tracks.len() ==> key_of((#[trigger] tracks[i]).source) is Some && each(
                model,
                tracks,
                track_step(ids, now),
            )->Ok_0.0.bound(EntityKind::Track, tracks[i].source) == Some(
                each(model, tracks, track_step(ids, now))->Ok_0.1[i],
            ),
    decreases tracks.len(),
{
    if tracks.len() > 0 {
        let step = track_step(ids, now);
        let before = tracks.drop_last();
        tracks_lose_nothing(model, before, ids, now);
        let (so_far, found) = each(model, before, step)->Ok_0;
        let last = tracks.last();
        a_track_loses_nothing(so_far, last, ids[tracks.len() - 1], now);
        an_ingested_key_names_its_track(so_far, last, ids[tracks.len() - 1], now);
        let after = each(model, tracks, step)->Ok_0.0;
        growth_adds_up(model, so_far, after);
        assert forall|i: int| 0 <= i < tracks.len() implies key_of(
            (#[trigger] tracks[i]).source,
        ) is Some && after.bound(EntityKind::Track, tracks[i].source) == Some(
            each(model, tracks, step)->Ok_0.1[i],
        ) by {
            if i < before.len() {
                assert(before[i] == tracks[i]);
                growth_keeps_bindings(so_far, after, EntityKind::Track, tracks[i].source);
            }
        }
    }
}

/// Taking in again tracks whose keys are all bound finds the same tracks and writes nothing.
proof fn bound_tracks_change_nothing(
    model: StoreModel,
    tracks: Seq<SourceTrackView>,
    named: Seq<EntityId>,
    ids: Seq<Seq<EntityId>>,
    now: i64,
)
    requires
        named.len() == tracks.len(),
        forall|i: int|
            0 <= i < tracks.len() ==> key_of((#[trigger] tracks[i]).source) is Some && model.bound(
                EntityKind::Track,
                tracks[i].source,
            ) == Some(named[i]),
    ensures
        each(model, tracks, track_step(ids, now)) == Ok::<(StoreModel, Seq<EntityId>), ErrorView>(
            (model, named),
        ),
    decreases tracks.len(),
{
    if tracks.len() > 0 {
        let before = tracks.drop_last();
        assert forall|i: int| 0 <= i < before.len() implies key_of(
            (#[trigger] before[i]).source,
        ) is Some && model.bound(EntityKind::Track, before[i].source) == Some(
            named.drop_last()[i],
        ) by {
            assert(before[i] == tracks[i]);
        }
        bound_tracks_change_nothing(model, before, named.drop_last(), ids, now);
        assert(tracks[tracks.len() - 1] == tracks.last());
        assert(named.drop_last().push(named.last()) =~= named);
    } else {
        assert(named =~= Seq::empty());
    }
}

/// Taking in the same tracks again (a radio, a mix) finds the same tracks and writes nothing.
pub proof fn taking_in_again_changes_nothing(
    model: StoreModel,
    tracks: Seq<SourceTrackView>,
    ids: Seq<Seq<EntityId>>,
    now: i64,
    more_ids: Seq<Seq<EntityId>>,
    later: i64,
)
    requires
        each(model, tracks, track_step(ids, now)) is Ok,
    ensures
        ({
            let (after, found) = each(model, tracks, track_step(ids, now))->Ok_0;
            each(after, tracks, track_step(more_ids, later)) == Ok::<
                (StoreModel, Seq<EntityId>),
                ErrorView,
            >((after, found))
        }),
{
    tracks_lose_nothing(model, tracks, ids, now);
    let (after, found) = each(model, tracks, track_step(ids, now))->Ok_0;
    bound_tracks_change_nothing(after, tracks, found, more_ids, later);
}

/// Growth, but for more saved at the end.
pub open spec fn grows_saving(before: StoreModel, after: StoreModel) -> bool {
    &&& grows(before, StoreModel { saved: before.saved, ..after })
    &&& before.saved.is_prefix_of(after.saved)
}

pub proof fn growth_adds_up_saving(a: StoreModel, b: StoreModel, c: StoreModel)
    requires
        grows_saving(a, b),
        grows_saving(b, c),
    ensures
        grows_saving(a, c),
{
    let saving = StoreModel { saved: a.saved, ..b };
    let saved = StoreModel { saved: a.saved, ..c };
    let unsaved = StoreModel { saved: b.saved, ..c };
    assert forall|i: int| 0 <= i < a.albums.len() implies (#[trigger] saved.albums[i]).id
        == a.albums[i].id by {
        assert(saving.albums[i].id == a.albums[i].id);
        assert(unsaved.albums[i].id == b.albums[i].id);
    }
}

/// Once the favorite tracks of a service are brought in, each is bound, a track, and saved, and
/// nothing was lost.
proof fn kept_tracks_stay(
    model: StoreModel,
    marked: Seq<Favorite<SourceTrackView>>,
    ids: Seq<Seq<EntityId>>,
    now: i64,
)
    requires
        each(model, marked, keep_track_step(ids, now)) is Ok,
    ensures
        grows_saving(model, each(model, marked, keep_track_step(ids, now))->Ok_0.0),
        each(model, marked, keep_track_step(ids, now))->Ok_0.1.len() == marked.len(),
        forall|i: int|
            0 <= i < marked.len() ==> {
                let (after, found) = each(model, marked, keep_track_step(ids, now))->Ok_0;
                &&& key_of((#[trigger] marked[i]).item.source) is Some
                &&& after.bound(EntityKind::Track, marked[i].item.source) == Some(found[i])
                &&& after.save_refusal(found[i]) is None
                &&& after.saved_at(found[i]) is Some
            },
    decreases marked.len(),
{
    if marked.len() > 0 {
        let step = keep_track_step(ids, now);
        let before = marked.drop_last();
        kept_tracks_stay(model, before, ids, now);
        let (so_far, found) = each(model, before, step)->Ok_0;
        let last = marked.last();
        let way = ingested_track(so_far, last.item, ids[marked.len() - 1], now);
        a_track_loses_nothing(so_far, last.item, ids[marked.len() - 1], now);
        an_ingested_key_names_its_track(so_far, last.item, ids[marked.len() - 1], now);
        let (taken_in, id) = way->Ok_0;
        let (after, all) = each(model, marked, step)->Ok_0;
        let at = match last.added_ms {
            Some(at) => at,
            None => now,
        };
        assert(after == taken_in.with_saved(id, at));
        first_at_matches(taken_in.saved, saved_is(id));
        if taken_in.saved_at(id) is None {
            first_at_push(taken_in.saved, after.saved.last(), saved_is(id));
        }
        assert(grows_saving(so_far, after));
        growth_adds_up_saving(model, so_far, after);
        let grown = StoreModel { saved: so_far.saved, ..after };
        assert forall|i: int| 0 <= i < marked.len() implies ({
            &&& key_of((#[trigger] marked[i]).item.source) is Some
            &&& after.bound(EntityKind::Track, marked[i].item.source) == Some(all[i])
            &&& after.save_refusal(all[i]) is None
            &&& after.saved_at(all[i]) is Some
        }) by {
            if i < before.len() {
                assert(before[i] == marked[i]);
                growth_keeps_bindings(so_far, grown, EntityKind::Track, marked[i].item.source);
                assert(after.bound(EntityKind::Track, marked[i].item.source) == grown.bound(
                    EntityKind::Track,
                    marked[i].item.source,
                ));
                growth_keeps_kinds(so_far, grown, found[i]);
                assert(after.kind_of(found[i]) == grown.kind_of(found[i]));
                a_prefix_keeps_what_is_found(so_far.saved, after.saved, saved_is(found[i]));
            } else {
                assert(after.kind_of(id) == taken_in.kind_of(id));
            }
        }
    }
}

/// What is in the tables is not merely a playlist, and stays so, once they have grown.
proof fn growth_keeps_kinds(before: StoreModel, after: StoreModel, id: EntityId)
    requires
        grows(before, after),
        before.save_refusal(id) is None,
    ensures
        after.save_refusal(id) is None,
{
    if before.track_at(id) is Some {
        a_prefix_keeps_what_is_found(before.tracks, after.tracks, track_is(id));
    } else if before.album_at(id) is Some {
        let p = crate::store::album_is(id);
        first_at_matches(before.albums, p);
        first_at_matches(after.albums, p);
        let i = before.album_at(id)->0;
        assert(after.albums[i].id == before.albums[i].id);
        assert(p(after.albums[i]));
    } else {
        a_prefix_keeps_what_is_found(before.artists, after.artists, crate::store::artist_is(id));
    }
}

proof fn kept_tracks_change_nothing(
    model: StoreModel,
    marked: Seq<Favorite<SourceTrackView>>,
    named: Seq<EntityId>,
    ids: Seq<Seq<EntityId>>,
    now: i64,
)
    requires
        named.len() == marked.len(),
        forall|i: int|
            0 <= i < marked.len() ==> {
                &&& key_of((#[trigger] marked[i]).item.source) is Some
                &&& model.bound(EntityKind::Track, marked[i].item.source) == Some(named[i])
                &&& model.save_refusal(named[i]) is None
                &&& model.saved_at(named[i]) is Some
            },
    ensures
        each(model, marked, keep_track_step(ids, now)) == Ok::<
            (StoreModel, Seq<EntityId>),
            ErrorView,
        >((model, named)),
    decreases marked.len(),
{
    if marked.len() > 0 {
        let before = marked.drop_last();
        assert forall|i: int| 0 <= i < before.len() implies ({
            &&& key_of((#[trigger] before[i]).item.source) is Some
            &&& model.bound(EntityKind::Track, before[i].item.source) == Some(
                named.drop_last()[i],
            )
            &&& model.save_refusal(named.drop_last()[i]) is None
            &&& model.saved_at(named.drop_last()[i]) is Some
        }) by {
            assert(before[i] == marked[i]);
        }
        kept_tracks_change_nothing(model, before, named.drop_last(), ids, now);
        assert(marked[marked.len() - 1] == marked.last());
        assert(named.drop_last().push(named.last()) =~= named);
    } else {
        assert(named =~= Seq::empty());
    }
}

/// Importing the same favorite tracks again brings in nothing twice: it finds the same tracks,
/// already saved as of when they were first saved, and writes nothing.
pub proof fn importing_favorites_again_changes_nothing(
    model: StoreModel,
    marked: Seq<Favorite<SourceTrackView>>,
    ids: Seq<Seq<EntityId>>,
    now: i64,
    more_ids: Seq<Seq<EntityId>>,
    later: i64,
)
    requires
        each(model, marked, keep_track_step(ids, now)) is Ok,
    ensures
        ({
            let (after, found) = each(model, marked, keep_track_step(ids, now))->Ok_0;
            each(after, marked, keep_track_step(more_ids, later)) == Ok::<
                (StoreModel, Seq<EntityId>),
                ErrorView,
            >((after, found))
        }),
{
    kept_tracks_stay(model, marked, ids, now);
    let (after, found) = each(model, marked, keep_track_step(ids, now))->Ok_0;
    kept_tracks_change_nothing(after, marked, found, more_ids, later);
}

/// Importing the same service playlist again updates the playlist bound to it rather than making
/// a second one, and leaves it as it was but for when it was last changed.
pub proof fn importing_a_playlist_again_updates_it(
    model: StoreModel,
    playlist: SourcePlaylistView,
    id: EntityId,
    track_ids: Seq<Seq<EntityId>>,
    now: i64,
    other_id: EntityId,
    more_ids: Seq<Seq<EntityId>>,
    later: i64,
)
    requires
        imported_playlist(model, playlist, id, track_ids, now) is Ok,
    ensures
        ({
            let (after, known) = imported_playlist(model, playlist, id, track_ids, now)->Ok_0;
            let at = after.playlist_at(known)->0;
            &&& after.playlist_at(known) is Some
            &&& imported_playlist(after, playlist, other_id, more_ids, later) == Ok::<
                (StoreModel, EntityId),
                ErrorView,
            >(
                (
                    StoreModel {
                        playlists: after.playlists.update(
                            at,
                            PlaylistEntry { updated_at: later, ..after.playlists[at] },
                        ),
                        ..after
                    },
                    known,
                ),
            )
        }),
{
    tracks_lose_nothing(model, playlist.tracks, track_ids, now);
    let (filled, tracks) = each(model, playlist.tracks, track_step(track_ids, now))->Ok_0;
    let (after, known) = imported_playlist(model, playlist, id, track_ids, now)->Ok_0;
    let source = playlist.source;
    let p = playlist_is(known);
    first_at_matches(filled.playlists, p);
    let bound = filled.bound(EntityKind::Playlist, source);
    let updates = bound is Some && filled.playlist_at(bound->0) is Some;
    // The tables a new playlist is made in, where one is.
    let freed = if bound is Some {
        filled.without_binding(EntityKind::Playlist, source)
    } else {
        filled
    };
    if updates {
        let renamed = filled.with_playlist_renamed(known, playlist.name, now);
        let i = filled.playlist_at(known)->0;
        same_place(filled.playlists, renamed.playlists, p, i);
        same_place(renamed.playlists, after.playlists, p, i);
        assert(after.bound(EntityKind::Playlist, source) == Some(known));
    } else {
        let made = freed.with_playlist(id, playlist.name, tracks, now);
        a_bound_key_names_the_entity(made, EntityKind::Playlist, id, direct(source), now);
        first_at_push(filled.playlists, made.playlists.last(), p);
        assert(freed.playlist_at(id) is None);
    }
    assert(after.playlist_at(known) is Some);
    assert(after.playlists[after.playlist_at(known)->0].name == playlist.name);
    assert(after.playlists[after.playlist_at(known)->0].tracks == tracks);
    assert forall|i: int| 0 <= i < playlist.tracks.len() implies key_of(
        (#[trigger] playlist.tracks[i]).source,
    ) is Some && after.bound(EntityKind::Track, playlist.tracks[i].source) == Some(tracks[i]) by {
        let s = playlist.tracks[i].source;
        if !updates {
            let made = freed.with_playlist(id, playlist.name, tracks, now);
            if bound is Some {
                unbinding_leaves_other_keys_alone(
                    filled,
                    EntityKind::Playlist,
                    source,
                    EntityKind::Track,
                    s,
                );
            }
            binding_leaves_other_keys_alone(
                made,
                EntityKind::Playlist,
                id,
                direct(source),
                now,
                EntityKind::Track,
                s,
            );
            assert(made.bound(EntityKind::Track, s) == filled.bound(EntityKind::Track, s));
        } else {
            assert(after.bound(EntityKind::Track, s) == filled.bound(EntityKind::Track, s));
        }
    }
    bound_tracks_change_nothing(after, playlist.tracks, tracks, more_ids, later);
    let at = after.playlist_at(known)->0;
    first_at_matches(after.playlists, p);
    let renamed = after.with_playlist_renamed(known, playlist.name, later);
    same_place(after.playlists, renamed.playlists, p, at);
    assert(after.are_tracks(tracks)) by {
        assert forall|k: int| 0 <= k < tracks.len() implies after.track_at(
            #[trigger] tracks[k],
        ) is Some by {
            assert(filled.track_at(tracks[k]) == after.track_at(tracks[k]));
        }
    }
    assert forall|k: int| 0 <= k < tracks.len() implies renamed.track_at(
        #[trigger] tracks[k],
    ) is Some by {
        assert(after.track_at(tracks[k]) is Some);
    }
    let again = imported_playlist(after, playlist, other_id, more_ids, later)->Ok_0.0;
    assert(again.playlists =~= after.playlists.update(
        at,
        PlaylistEntry { updated_at: later, ..after.playlists[at] },
    ));
}

/// Importing a service playlist whose playlist here was deleted makes it again: the key it was
/// bound by names the new playlist, which holds what the service's does.
pub proof fn importing_a_deleted_playlist_makes_it_again(
    model: StoreModel,
    playlist: SourcePlaylistView,
    id: EntityId,
    track_ids: Seq<Seq<EntityId>>,
    now: i64,
)
    requires
        key_of(playlist.source) is Some,
        each(model, playlist.tracks, track_step(track_ids, now)) is Ok,
        ({
            let (filled, tracks) = each(model, playlist.tracks, track_step(track_ids, now))->Ok_0;
            let known = filled.bound(EntityKind::Playlist, playlist.source);
            &&& filled.keys_are_unique()
            &&& known is Some && filled.playlist_at(known->0) is None
            &&& filled.playlist_refusal(id, tracks) is None
        }),
    ensures
        ({
            let tracks = each(model, playlist.tracks, track_step(track_ids, now))->Ok_0.1;
            let done = imported_playlist(model, playlist, id, track_ids, now);
            let (after, made) = done->Ok_0;
            &&& done is Ok
            &&& made == id
            &&& after.bound(EntityKind::Playlist, playlist.source) == Some(id)
            &&& after.playlist_tracks(id) == tracks
        }),
{
    let (filled, tracks) = each(model, playlist.tracks, track_step(track_ids, now))->Ok_0;
    let source = playlist.source;
    let freed = filled.without_binding(EntityKind::Playlist, source);
    unbinding_frees_the_key(filled, EntityKind::Playlist, source);
    let made = freed.with_playlist(id, playlist.name, tracks, now);
    assert(made.bind_refusal(EntityKind::Playlist, id, source) == freed.bind_refusal(
        EntityKind::Playlist,
        id,
        source,
    ));
    a_bound_key_names_the_entity(made, EntityKind::Playlist, id, direct(source), now);
    first_at_matches(freed.playlists, playlist_is(id));
    first_at_push(freed.playlists, made.playlists.last(), playlist_is(id));
    assert(freed.playlist_at(id) is None);
}

/// Changing a playlist's details, but not its id, leaves it where it is found.
pub proof fn same_place(
    before: Seq<PlaylistEntry>,
    after: Seq<PlaylistEntry>,
    p: spec_fn(PlaylistEntry) -> bool,
    i: int,
)
    requires
        first_at(before, p) == Some(i),
        exists|row: PlaylistEntry| after == #[trigger] before.update(i, row) && p(row),
    ensures
        first_at(after, p) == Some(i),
{
    first_at_matches(before, p);
    let row = choose|row: PlaylistEntry| after == #[trigger] before.update(i, row) && p(row);
    assert forall|j: int| 0 <= j < i implies !p(#[trigger] after[j]) by {
        assert(!p(before[j]));
    }
    found_first(after, p, i);
}

} // verus!
