//! What importing a user's shelf, searching and opening an artist do to the library.

use vstd::prelude::*;

use crate::arrivals::{a_track_arrives, an_album_arrives, an_artist_arrives, well_kept};
use crate::binding::{
    a_bound_key_names_the_entity, binding_leaves_other_keys_alone,
    unbinding_leaves_other_keys_alone,
};
use crate::catalog::{ArtistListingView, Favorite, SearchResultsView, SourcePlaylistView};
use crate::growth::{
    a_track_loses_nothing, an_album_loses_nothing, an_artist_loses_nothing, growth_adds_up,
    growth_adds_up_saving, growth_keeps_bindings, grows, grows_saving, same_place,
    tracks_lose_nothing,
};
use crate::id::EntityId;
use crate::ingest::{
    album_needs, an_ingested_key_names_its_track, direct, ingested_album, ingested_artist,
    ingested_track, named_artist, new_album, track_needs,
};
use crate::intake::{
    each, imported, imported_playlist, keep_album_step, keep_artist_step, keep_track_step,
    listed_artist, playlist_step, present, searched, serves_artist, serves_search, show_album_step,
    show_artist_step, show_track_step, track_step, FavoritesView, SupplyModel,
};
use crate::model::EntityKind;
use crate::rows::{first_at_matches, first_at_push};
use crate::store::{playlist_is, saved_is, StoreModel};
use crate::track::{SourceAlbumView, SourceArtistView, SourceTrackView};

verus! {

/// When `id` was saved, if it is.
pub open spec fn saved_since(model: StoreModel, id: EntityId) -> Option<i64> {
    match model.saved_at(id) {
        Some(i) => Some(model.saved[i].saved_at),
        None => None,
    }
}

// --- what a described entity's key names ---

proof fn an_album_is_named_by_its_key(
    model: StoreModel,
    described: SourceAlbumView,
    ids: Seq<EntityId>,
    now: i64,
)
    requires
        ingested_album(model, described, ids, now) is Ok,
        described.source is Some,
    ensures
        ({
            let (after, id) = ingested_album(model, described, ids, now)->Ok_0;
            after.bound(EntityKind::Album, described.source->0) == Some(id)
        }),
{
    let source = described.source->0;
    an_album_loses_nothing(model, described, ids, now);
    let (after, id) = ingested_album(model, described, ids, now)->Ok_0;
    if model.bound(EntityKind::Album, source) is Some {
        growth_keeps_bindings(model, after, EntityKind::Album, source);
    } else {
        let (credited, artists) = crate::ingest::ingested_artists(
            model,
            described.artists,
            ids.skip(1),
            now,
        )->Ok_0;
        let added = credited.with_album(ids[0], new_album(described, artists));
        a_bound_key_names_the_entity(added, EntityKind::Album, ids[0], direct(source), now);
    }
}

proof fn an_artist_is_named_by_its_key(
    model: StoreModel,
    described: SourceArtistView,
    id: EntityId,
    now: i64,
)
    requires
        ingested_artist(model, described, id, now) is Ok,
        described.source is Some,
    ensures
        ({
            let (after, found) = ingested_artist(model, described, id, now)->Ok_0;
            after.bound(EntityKind::Artist, described.source->0) == Some(found)
        }),
{
    let source = described.source->0;
    if model.bound(EntityKind::Artist, source) is None {
        let added = model.with_artist(id, named_artist(described.name));
        a_bound_key_names_the_entity(added, EntityKind::Artist, id, direct(source), now);
    }
}

proof fn a_track_is_named_by_its_key(
    model: StoreModel,
    described: SourceTrackView,
    ids: Seq<EntityId>,
    now: i64,
)
    requires
        ingested_track(model, described, ids, now) is Ok,
    ensures
        ({
            let (after, id) = ingested_track(model, described, ids, now)->Ok_0;
            after.bound(EntityKind::Track, described.source) == Some(id)
        }),
{
    an_ingested_key_names_its_track(model, described, ids, now);
}

// --- a user's favorites ---

/// What saving one entity more leaves of what is saved, and when.
proof fn a_saving_step(so_far: StoreModel, taken_in: StoreModel, id: EntityId, at: i64)
    requires
        grows(so_far, taken_in),
    ensures
        ({
            let after = taken_in.with_saved(id, at);
            &&& grows_saving(so_far, after)
            &&& saved_since(after, id) is Some
            &&& saved_since(so_far, id) is None ==> saved_since(after, id) == Some(at)
            &&& forall|other: EntityId|
                saved_since(so_far, other) is Some ==> #[trigger] saved_since(after, other)
                    == saved_since(so_far, other)
            &&& forall|other: EntityId|
                other != id ==> #[trigger] saved_since(after, other) == saved_since(so_far, other)
        }),
{
    let after = taken_in.with_saved(id, at);
    assert(taken_in.saved == so_far.saved);
    if taken_in.saved_at(id) is None {
        first_at_push(taken_in.saved, after.saved.last(), saved_is(id));
        assert forall|other: EntityId| other != id implies #[trigger] saved_since(after, other)
            == saved_since(so_far, other) by {
            first_at_push(taken_in.saved, after.saved.last(), saved_is(other));
            first_at_matches(taken_in.saved, saved_is(other));
        }
    } else {
        first_at_matches(taken_in.saved, saved_is(id));
    }
}

/// Every favorite track is taken in and saved, in the order listed: as of when it was marked, or as
/// of now, unless it was saved before.
pub proof fn favorite_tracks_are_saved(
    model: StoreModel,
    marked: Seq<Favorite<SourceTrackView>>,
    ids: Seq<Seq<EntityId>>,
    now: i64,
)
    requires
        each(model, marked, keep_track_step(ids, now)) is Ok,
    ensures
        ({
            let (after, found) = each(model, marked, keep_track_step(ids, now))->Ok_0;
            &&& grows_saving(model, after)
            &&& found.len() == marked.len()
            &&& forall|i: int|
                0 <= i < marked.len() ==> {
                    &&& after.bound(
                        EntityKind::Track,
                        (#[trigger] marked[i]).item.source,
                    ) == Some(found[i])
                    &&& saved_since(after, found[i]) is Some
                    &&& saved_since(model, found[i]) is None && (forall|j: int|
                        0 <= j < i ==> #[trigger] found[j] != found[i]) ==> saved_since(
                        after,
                        found[i],
                    ) == Some(
                        match marked[i].added_ms {
                            Some(at) => at,
                            None => now,
                        },
                    )
                }
            &&& forall|id: EntityId|
                saved_since(model, id) is Some ==> #[trigger] saved_since(after, id) == saved_since(
                    model,
                    id,
                )
            &&& forall|id: EntityId| #[trigger]
                saved_since(after, id) is Some ==> saved_since(model, id) is Some || found.contains(
                    id,
                )
        }),
    decreases marked.len(),
{
    if marked.len() > 0 {
        let n = marked.len() - 1;
        let before = marked.drop_last();
        favorite_tracks_are_saved(model, before, ids, now);
        let (so_far, found) = each(model, before, keep_track_step(ids, now))->Ok_0;
        let (after, all) = each(model, marked, keep_track_step(ids, now))->Ok_0;
        let last = marked.last();
        let way = ingested_track(so_far, last.item, ids[n], now);
        let (taken_in, id) = way->Ok_0;
        a_track_loses_nothing(so_far, last.item, ids[n], now);
        a_track_is_named_by_its_key(so_far, last.item, ids[n], now);
        let at = match last.added_ms {
            Some(at) => at,
            None => now,
        };
        assert(after == taken_in.with_saved(id, at));
        a_saving_step(so_far, taken_in, id, at);
        growth_adds_up_saving(model, so_far, after);
        let grown = StoreModel { saved: so_far.saved, ..after };
        assert forall|i: int| 0 <= i < marked.len() implies ({
            &&& after.bound(
                EntityKind::Track,
                (#[trigger] marked[i]).item.source,
            ) == Some(all[i])
            &&& saved_since(after, all[i]) is Some
            &&& saved_since(model, all[i]) is None && (forall|j: int|
                0 <= j < i ==> #[trigger] all[j] != all[i]) ==> saved_since(after, all[i]) == Some(
                match marked[i].added_ms {
                    Some(at) => at,
                    None => now,
                },
            )
        }) by {
            if i < n {
                assert(before[i] == marked[i]);
                assert(all[i] == found[i]);
                growth_keeps_bindings(so_far, grown, EntityKind::Track, marked[i].item.source);
                assert(after.bound(EntityKind::Track, marked[i].item.source) == grown.bound(
                    EntityKind::Track,
                    marked[i].item.source,
                ));
                assert(saved_since(after, found[i]) == saved_since(so_far, found[i]));
                if forall|j: int| 0 <= j < i ==> #[trigger] all[j] != all[i] {
                    assert forall|j: int| 0 <= j < i implies #[trigger] found[j] != found[i] by {
                        assert(all[j] == found[j]);
                    }
                }
            } else {
                assert(all[i] == id);
                if saved_since(model, id) is None && (forall|j: int|
                    0 <= j < i ==> #[trigger] all[j] != all[i]) {
                    if found.contains(id) {
                        let j = choose|j: int| 0 <= j < found.len() && found[j] == id;
                        assert(all[j] == found[j]);
                    }
                    assert(saved_since(so_far, id) is None);
                }
            }
        }
        assert forall|other: EntityId|
            saved_since(model, other) is Some implies #[trigger] saved_since(after, other)
            == saved_since(model, other) by {
            assert(saved_since(so_far, other) == saved_since(model, other));
        }
        assert forall|other: EntityId| #[trigger]
            saved_since(after, other) is Some implies saved_since(model, other) is Some
            || all.contains(other) by {
            if other == id {
                assert(all[n] == id);
            } else if saved_since(so_far, other) is Some && saved_since(model, other) is None {
                let j = choose|j: int| 0 <= j < found.len() && found[j] == other;
                assert(all[j] == other);
            }
        }
    }
}

/// Every favorite album is taken in and saved, in the order listed: as of when it was marked, or as
/// of now, unless it was saved before.
pub proof fn favorite_albums_are_saved(
    model: StoreModel,
    marked: Seq<Favorite<SourceAlbumView>>,
    ids: Seq<Seq<EntityId>>,
    now: i64,
)
    requires
        each(model, marked, keep_album_step(ids, now)) is Ok,
    ensures
        ({
            let (after, found) = each(model, marked, keep_album_step(ids, now))->Ok_0;
            &&& grows_saving(model, after)
            &&& found.len() == marked.len()
            &&& forall|i: int|
                0 <= i < marked.len() ==> {
                    &&& marked[i].item.source is Some ==> after.bound(
                        EntityKind::Album,
                        (#[trigger] marked[i]).item.source->0,
                    ) == Some(found[i])
                    &&& saved_since(after, found[i]) is Some
                    &&& saved_since(model, found[i]) is None && (forall|j: int|
                        0 <= j < i ==> #[trigger] found[j] != found[i]) ==> saved_since(
                        after,
                        found[i],
                    ) == Some(
                        match marked[i].added_ms {
                            Some(at) => at,
                            None => now,
                        },
                    )
                }
            &&& forall|id: EntityId|
                saved_since(model, id) is Some ==> #[trigger] saved_since(after, id) == saved_since(
                    model,
                    id,
                )
            &&& forall|id: EntityId| #[trigger]
                saved_since(after, id) is Some ==> saved_since(model, id) is Some || found.contains(
                    id,
                )
        }),
    decreases marked.len(),
{
    if marked.len() > 0 {
        let n = marked.len() - 1;
        let before = marked.drop_last();
        favorite_albums_are_saved(model, before, ids, now);
        let (so_far, found) = each(model, before, keep_album_step(ids, now))->Ok_0;
        let (after, all) = each(model, marked, keep_album_step(ids, now))->Ok_0;
        let last = marked.last();
        let way = ingested_album(so_far, last.item, ids[n], now);
        let (taken_in, id) = way->Ok_0;
        an_album_loses_nothing(so_far, last.item, ids[n], now);
        if last.item.source is Some {
        an_album_is_named_by_its_key(so_far, last.item, ids[n], now);
        }
        let at = match last.added_ms {
            Some(at) => at,
            None => now,
        };
        assert(after == taken_in.with_saved(id, at));
        a_saving_step(so_far, taken_in, id, at);
        growth_adds_up_saving(model, so_far, after);
        let grown = StoreModel { saved: so_far.saved, ..after };
        assert forall|i: int| 0 <= i < marked.len() implies ({
            &&& marked[i].item.source is Some ==> after.bound(
                EntityKind::Album,
                (#[trigger] marked[i]).item.source->0,
            ) == Some(all[i])
            &&& saved_since(after, all[i]) is Some
            &&& saved_since(model, all[i]) is None && (forall|j: int|
                0 <= j < i ==> #[trigger] all[j] != all[i]) ==> saved_since(after, all[i]) == Some(
                match marked[i].added_ms {
                    Some(at) => at,
                    None => now,
                },
            )
        }) by {
            if i < n {
                assert(before[i] == marked[i]);
                assert(all[i] == found[i]);
                if marked[i].item.source is Some {
                growth_keeps_bindings(so_far, grown, EntityKind::Album, marked[i].item.source->0);
                assert(after.bound(EntityKind::Album, marked[i].item.source->0) == grown.bound(
                    EntityKind::Album,
                    marked[i].item.source->0,
                ));
                }
                assert(saved_since(after, found[i]) == saved_since(so_far, found[i]));
                if forall|j: int| 0 <= j < i ==> #[trigger] all[j] != all[i] {
                    assert forall|j: int| 0 <= j < i implies #[trigger] found[j] != found[i] by {
                        assert(all[j] == found[j]);
                    }
                }
            } else {
                assert(all[i] == id);
                if saved_since(model, id) is None && (forall|j: int|
                    0 <= j < i ==> #[trigger] all[j] != all[i]) {
                    if found.contains(id) {
                        let j = choose|j: int| 0 <= j < found.len() && found[j] == id;
                        assert(all[j] == found[j]);
                    }
                    assert(saved_since(so_far, id) is None);
                }
            }
        }
        assert forall|other: EntityId|
            saved_since(model, other) is Some implies #[trigger] saved_since(after, other)
            == saved_since(model, other) by {
            assert(saved_since(so_far, other) == saved_since(model, other));
        }
        assert forall|other: EntityId| #[trigger]
            saved_since(after, other) is Some implies saved_since(model, other) is Some
            || all.contains(other) by {
            if other == id {
                assert(all[n] == id);
            } else if saved_since(so_far, other) is Some && saved_since(model, other) is None {
                let j = choose|j: int| 0 <= j < found.len() && found[j] == other;
                assert(all[j] == other);
            }
        }
    }
}

/// Every favorite artist is taken in and saved, in the order listed: as of when it was marked, or as
/// of now, unless it was saved before.
pub proof fn favorite_artists_are_saved(
    model: StoreModel,
    marked: Seq<Favorite<SourceArtistView>>,
    ids: Seq<EntityId>,
    now: i64,
)
    requires
        each(model, marked, keep_artist_step(ids, now)) is Ok,
    ensures
        ({
            let (after, found) = each(model, marked, keep_artist_step(ids, now))->Ok_0;
            &&& grows_saving(model, after)
            &&& found.len() == marked.len()
            &&& forall|i: int|
                0 <= i < marked.len() ==> {
                    &&& marked[i].item.source is Some ==> after.bound(
                        EntityKind::Artist,
                        (#[trigger] marked[i]).item.source->0,
                    ) == Some(found[i])
                    &&& saved_since(after, found[i]) is Some
                    &&& saved_since(model, found[i]) is None && (forall|j: int|
                        0 <= j < i ==> #[trigger] found[j] != found[i]) ==> saved_since(
                        after,
                        found[i],
                    ) == Some(
                        match marked[i].added_ms {
                            Some(at) => at,
                            None => now,
                        },
                    )
                }
            &&& forall|id: EntityId|
                saved_since(model, id) is Some ==> #[trigger] saved_since(after, id) == saved_since(
                    model,
                    id,
                )
            &&& forall|id: EntityId| #[trigger]
                saved_since(after, id) is Some ==> saved_since(model, id) is Some || found.contains(
                    id,
                )
        }),
    decreases marked.len(),
{
    if marked.len() > 0 {
        let n = marked.len() - 1;
        let before = marked.drop_last();
        favorite_artists_are_saved(model, before, ids, now);
        let (so_far, found) = each(model, before, keep_artist_step(ids, now))->Ok_0;
        let (after, all) = each(model, marked, keep_artist_step(ids, now))->Ok_0;
        let last = marked.last();
        let way = ingested_artist(so_far, last.item, ids[n], now);
        let (taken_in, id) = way->Ok_0;
        an_artist_loses_nothing(so_far, last.item, ids[n], now);
        if last.item.source is Some {
        an_artist_is_named_by_its_key(so_far, last.item, ids[n], now);
        }
        let at = match last.added_ms {
            Some(at) => at,
            None => now,
        };
        assert(after == taken_in.with_saved(id, at));
        a_saving_step(so_far, taken_in, id, at);
        growth_adds_up_saving(model, so_far, after);
        let grown = StoreModel { saved: so_far.saved, ..after };
        assert forall|i: int| 0 <= i < marked.len() implies ({
            &&& marked[i].item.source is Some ==> after.bound(
                EntityKind::Artist,
                (#[trigger] marked[i]).item.source->0,
            ) == Some(all[i])
            &&& saved_since(after, all[i]) is Some
            &&& saved_since(model, all[i]) is None && (forall|j: int|
                0 <= j < i ==> #[trigger] all[j] != all[i]) ==> saved_since(after, all[i]) == Some(
                match marked[i].added_ms {
                    Some(at) => at,
                    None => now,
                },
            )
        }) by {
            if i < n {
                assert(before[i] == marked[i]);
                assert(all[i] == found[i]);
                if marked[i].item.source is Some {
                growth_keeps_bindings(so_far, grown, EntityKind::Artist, marked[i].item.source->0);
                assert(after.bound(EntityKind::Artist, marked[i].item.source->0) == grown.bound(
                    EntityKind::Artist,
                    marked[i].item.source->0,
                ));
                }
                assert(saved_since(after, found[i]) == saved_since(so_far, found[i]));
                if forall|j: int| 0 <= j < i ==> #[trigger] all[j] != all[i] {
                    assert forall|j: int| 0 <= j < i implies #[trigger] found[j] != found[i] by {
                        assert(all[j] == found[j]);
                    }
                }
            } else {
                assert(all[i] == id);
                if saved_since(model, id) is None && (forall|j: int|
                    0 <= j < i ==> #[trigger] all[j] != all[i]) {
                    if found.contains(id) {
                        let j = choose|j: int| 0 <= j < found.len() && found[j] == id;
                        assert(all[j] == found[j]);
                    }
                    assert(saved_since(so_far, id) is None);
                }
            }
        }
        assert forall|other: EntityId|
            saved_since(model, other) is Some implies #[trigger] saved_since(after, other)
            == saved_since(model, other) by {
            assert(saved_since(so_far, other) == saved_since(model, other));
        }
        assert forall|other: EntityId| #[trigger]
            saved_since(after, other) is Some implies saved_since(model, other) is Some
            || all.contains(other) by {
            if other == id {
                assert(all[n] == id);
            } else if saved_since(so_far, other) is Some && saved_since(model, other) is None {
                let j = choose|j: int| 0 <= j < found.len() && found[j] == other;
                assert(all[j] == other);
            }
        }
    }
}

// --- a user's playlists ---

/// An imported playlist is the service's: it has its name, and its tracks in its order, and the
/// service's key names it from then on. Nothing saved changes.
pub proof fn an_imported_playlist_is_the_services(
    model: StoreModel,
    playlist: SourcePlaylistView,
    id: EntityId,
    track_ids: Seq<Seq<EntityId>>,
    now: i64,
)
    requires
        imported_playlist(model, playlist, id, track_ids, now) is Ok,
    ensures
        ({
            let (after, known) = imported_playlist(model, playlist, id, track_ids, now)->Ok_0;
            let row = after.playlists[after.playlist_at(known)->0];
            &&& after.bound(EntityKind::Playlist, playlist.source) == Some(known)
            &&& after.playlist_at(known) is Some
            &&& row.id == known
            &&& row.name == playlist.name
            &&& row.updated_at == now
            &&& row.tracks.len() == playlist.tracks.len()
            &&& forall|i: int|
                0 <= i < playlist.tracks.len() ==> after.bound(
                    EntityKind::Track,
                    (#[trigger] playlist.tracks[i]).source,
                ) == Some(row.tracks[i])
            &&& after.saved == model.saved
        }),
{
    tracks_lose_nothing(model, playlist.tracks, track_ids, now);
    let (filled, tracks) = each(model, playlist.tracks, track_step(track_ids, now))->Ok_0;
    let (after, known) = imported_playlist(model, playlist, id, track_ids, now)->Ok_0;
    let source = playlist.source;
    let p = playlist_is(known);
    first_at_matches(filled.playlists, p);
    let bound = filled.bound(EntityKind::Playlist, source);
    let updates = bound is Some && filled.playlist_at(bound->0) is Some;
    let freed = if bound is Some {
        filled.without_binding(EntityKind::Playlist, source)
    } else {
        filled
    };
    if updates {
        let renamed = filled.with_playlist_renamed(known, playlist.name, now);
        let i = filled.playlist_at(known)->0;
        same_place(filled.playlists, renamed.playlists, p, i);
        same_place(renamed.playlists, after.playlists, p, i);
        assert(after.bound(EntityKind::Playlist, source) == Some(known));
    } else {
        let made = freed.with_playlist(id, playlist.name, tracks, now);
        a_bound_key_names_the_entity(made, EntityKind::Playlist, id, direct(source), now);
        first_at_push(filled.playlists, made.playlists.last(), p);
        assert(freed.playlist_at(id) is None);
    }
    assert forall|i: int| 0 <= i < playlist.tracks.len() implies after.bound(
        EntityKind::Track,
        (#[trigger] playlist.tracks[i]).source,
    ) == Some(tracks[i]) by {
        let s = playlist.tracks[i].source;
        if !updates {
            let made = freed.with_playlist(id, playlist.name, tracks, now);
            if bound is Some {
                unbinding_leaves_other_keys_alone(
                    filled,
                    EntityKind::Playlist,
                    source,
                    EntityKind::Track,
                    s,
                );
            }
            binding_leaves_other_keys_alone(
                made,
                EntityKind::Playlist,
                id,
                direct(source),
                now,
                EntityKind::Track,
                s,
            );
            assert(made.bound(EntityKind::Track, s) == filled.bound(EntityKind::Track, s));
        } else {
            assert(after.bound(EntityKind::Track, s) == filled.bound(EntityKind::Track, s));
        }
    }
}

proof fn playlists_save_nothing(
    model: StoreModel,
    playlists: Seq<SourcePlaylistView>,
    ids: Seq<EntityId>,
    track_ids: Seq<Seq<Seq<EntityId>>>,
    now: i64,
)
    requires
        each(model, playlists, playlist_step(ids, track_ids, now)) is Ok,
    ensures
        each(model, playlists, playlist_step(ids, track_ids, now))->Ok_0.0.saved == model.saved,
    decreases playlists.len(),
{
    if playlists.len() > 0 {
        let n = playlists.len() - 1;
        playlists_save_nothing(model, playlists.drop_last(), ids, track_ids, now);
        let so_far = each(
            model,
            playlists.drop_last(),
            playlist_step(ids, track_ids, now),
        )->Ok_0.0;
        an_imported_playlist_is_the_services(so_far, playlists.last(), ids[n], track_ids[n], now);
    }
}

/// An import saves every favorite the service lists, whatever its kind, forgets nothing that was
/// saved, and counts what it was given.
pub proof fn an_import_saves_every_favorite(
    model: StoreModel,
    favorites: FavoritesView,
    playlists: Seq<SourcePlaylistView>,
    ids: SupplyModel,
    playlist_ids: Seq<EntityId>,
    playlist_tracks: Seq<Seq<Seq<EntityId>>>,
    now: i64,
) -> (found: (Seq<EntityId>, Seq<EntityId>, Seq<EntityId>))
    requires
        favorites.tracks.len() <= usize::MAX,
        favorites.albums.len() <= usize::MAX,
        favorites.artists.len() <= usize::MAX,
        playlists.len() <= usize::MAX,
        imported(
            model,
            favorites,
            playlists,
            ids,
            playlist_ids,
            playlist_tracks,
            now,
        ) is Ok,
    ensures
        ({
            let (after, report) = imported(
                model,
                favorites,
                playlists,
                ids,
                playlist_ids,
                playlist_tracks,
                now,
            )->Ok_0;
            let (tracks, albums, artists) = found;
            &&& report.tracks == favorites.tracks.len()
            &&& report.albums == favorites.albums.len()
            &&& report.artists == favorites.artists.len()
            &&& report.playlists == playlists.len()
            &&& tracks.len() == favorites.tracks.len()
            &&& albums.len() == favorites.albums.len()
            &&& artists.len() == favorites.artists.len()
            &&& forall|i: int|
                0 <= i < tracks.len() ==> saved_since(after, #[trigger] tracks[i]) is Some
            &&& forall|i: int|
                0 <= i < albums.len() ==> saved_since(after, #[trigger] albums[i]) is Some
            &&& forall|i: int|
                0 <= i < artists.len() ==> saved_since(after, #[trigger] artists[i]) is Some
            &&& forall|id: EntityId|
                saved_since(model, id) is Some ==> #[trigger] saved_since(after, id) == saved_since(
                    model,
                    id,
                )
            &&& forall|id: EntityId| #[trigger]
                saved_since(after, id) is Some ==> saved_since(model, id) is Some
                    || tracks.contains(id) || albums.contains(id) || artists.contains(id)
        }),
{
    favorite_tracks_are_saved(model, favorites.tracks, ids.tracks, now);
    let (heard, tracks) = each(model, favorites.tracks, keep_track_step(ids.tracks, now))->Ok_0;
    favorite_albums_are_saved(heard, favorites.albums, ids.albums, now);
    let (shelved, albums) = each(heard, favorites.albums, keep_album_step(ids.albums, now))->Ok_0;
    favorite_artists_are_saved(shelved, favorites.artists, ids.artists, now);
    let (credited, artists) = each(
        shelved,
        favorites.artists,
        keep_artist_step(ids.artists, now),
    )->Ok_0;
    playlists_save_nothing(credited, playlists, playlist_ids, playlist_tracks, now);
    let after = imported(
        model,
        favorites,
        playlists,
        ids,
        playlist_ids,
        playlist_tracks,
        now,
    )->Ok_0.0;
    assert forall|id: EntityId| #[trigger] saved_since(after, id) == saved_since(credited, id) by {}
    assert forall|i: int| 0 <= i < tracks.len() implies saved_since(
        after,
        #[trigger] tracks[i],
    ) is Some by {
        let marked = favorites.tracks[i];
        assert(saved_since(heard, tracks[i]) is Some);
        assert(saved_since(shelved, tracks[i]) is Some);
        assert(saved_since(credited, tracks[i]) is Some);
    }
    assert forall|i: int| 0 <= i < albums.len() implies saved_since(
        after,
        #[trigger] albums[i],
    ) is Some by {
        let marked = favorites.albums[i];
        assert(saved_since(shelved, albums[i]) is Some);
        assert(saved_since(credited, albums[i]) is Some);
    }
    assert forall|i: int| 0 <= i < artists.len() implies saved_since(
        after,
        #[trigger] artists[i],
    ) is Some by {
        let marked = favorites.artists[i];
        assert(saved_since(credited, artists[i]) is Some);
    }
    assert forall|id: EntityId| saved_since(model, id) is Some implies #[trigger] saved_since(
        after,
        id,
    ) == saved_since(model, id) by {
        assert(saved_since(heard, id) == saved_since(model, id));
        assert(saved_since(shelved, id) == saved_since(heard, id));
        assert(saved_since(credited, id) == saved_since(shelved, id));
    }
    assert forall|id: EntityId| #[trigger] saved_since(after, id) is Some implies saved_since(
        model,
        id,
    ) is Some || tracks.contains(id) || albums.contains(id) || artists.contains(id) by {
        assert(saved_since(credited, id) is Some);
        assert(saved_since(shelved, id) is Some || artists.contains(id));
        assert(saved_since(heard, id) is Some || saved_since(shelved, id) is None
            || albums.contains(id));
    }
    (tracks, albums, artists)
}

// --- what is found ---

proof fn all_are_present<T>(all: Seq<Option<T>>)
    requires
        forall|i: int| 0 <= i < all.len() ==> (#[trigger] all[i]) is Some,
    ensures
        present(all).len() == all.len(),
        forall|i: int| 0 <= i < all.len() ==> #[trigger] present(all)[i] == all[i]->0,
    decreases all.len(),
{
    if all.len() > 0 {
        let before = all.drop_last();
        assert forall|i: int| 0 <= i < before.len() implies (#[trigger] before[i]) is Some by {
            assert(before[i] == all[i]);
        }
        all_are_present(before);
        assert(all.last() == all[all.len() - 1]);
        assert forall|i: int| 0 <= i < all.len() implies #[trigger] present(all)[i]
            == all[i]->0 by {
            if i < before.len() {
                assert(present(before)[i] == before[i]->0);
            }
        }
    }
}

/// Every track described is shown, in the order described, under the id its key names.
pub proof fn described_tracks_are_shown_in_order(
    model: StoreModel,
    tracks: Seq<SourceTrackView>,
    ids: Seq<Seq<EntityId>>,
    now: i64,
)
    requires
        well_kept(model),
        tracks.len() <= ids.len(),
        forall|i: int|
            0 <= i < tracks.len() ==> track_needs(#[trigger] tracks[i]) <= ids[i].len(),
        each(model, tracks, show_track_step(ids, now)) is Ok,
    ensures
        ({
            let (after, shown) = each(model, tracks, show_track_step(ids, now))->Ok_0;
            &&& well_kept(after)
            &&& grows(model, after)
            &&& present(shown).len() == tracks.len()
            &&& forall|i: int|
                0 <= i < tracks.len() ==> (after.bound(
                    EntityKind::Track,
                    (#[trigger] tracks[i]).source,
                ) == Some(present(shown)[i].id))
            &&& shown.len() == tracks.len()
            &&& forall|i: int| 0 <= i < shown.len() ==> (#[trigger] shown[i]) is Some
        }),
    decreases tracks.len(),
{
    let (after, shown) = each(model, tracks, show_track_step(ids, now))->Ok_0;
    if tracks.len() > 0 {
        let n = tracks.len() - 1;
        let before = tracks.drop_last();
        assert forall|i: int| 0 <= i < before.len() implies track_needs(#[trigger] before[i])
            <= ids[i].len() by {
            assert(before[i] == tracks[i]);
        }
        described_tracks_are_shown_in_order(model, before, ids, now);
        let (so_far, out) = each(model, before, show_track_step(ids, now))->Ok_0;
        let last = tracks.last();
        assert(last == tracks[n]);
        a_track_arrives(so_far, last, ids[n], now);
        a_track_loses_nothing(so_far, last, ids[n], now);
        if true {
            a_track_is_named_by_its_key(so_far, last, ids[n], now);
        }
        growth_adds_up(model, so_far, after);
        assert forall|i: int| 0 <= i < shown.len() implies (#[trigger] shown[i]) is Some by {
            if i < n {
                assert(shown[i] == out[i]);
            }
        }
        all_are_present(shown);
        all_are_present(out);
        assert forall|i: int| 0 <= i < tracks.len() implies (after.bound(
            EntityKind::Track,
            (#[trigger] tracks[i]).source,
        ) == Some(present(shown)[i].id)) by {
            if i < n && true {
                assert(before[i] == tracks[i]);
                assert(shown[i] == out[i]);
                growth_keeps_bindings(so_far, after, EntityKind::Track, tracks[i].source);
            }
        }
    }
}

/// Every album described is shown, in the order described, under the id its key names.
pub proof fn described_albums_are_shown_in_order(
    model: StoreModel,
    albums: Seq<SourceAlbumView>,
    ids: Seq<Seq<EntityId>>,
    now: i64,
)
    requires
        well_kept(model),
        albums.len() <= ids.len(),
        forall|i: int|
            0 <= i < albums.len() ==> album_needs(#[trigger] albums[i]) <= ids[i].len(),
        each(model, albums, show_album_step(ids, now)) is Ok,
    ensures
        ({
            let (after, shown) = each(model, albums, show_album_step(ids, now))->Ok_0;
            &&& well_kept(after)
            &&& grows(model, after)
            &&& present(shown).len() == albums.len()
            &&& forall|i: int|
                0 <= i < albums.len() ==> (albums[i].source is Some ==> after.bound(
                    EntityKind::Album,
                    (#[trigger] albums[i]).source->0,
                ) == Some(present(shown)[i].id))
            &&& shown.len() == albums.len()
            &&& forall|i: int| 0 <= i < shown.len() ==> (#[trigger] shown[i]) is Some
        }),
    decreases albums.len(),
{
    let (after, shown) = each(model, albums, show_album_step(ids, now))->Ok_0;
    if albums.len() > 0 {
        let n = albums.len() - 1;
        let before = albums.drop_last();
        assert forall|i: int| 0 <= i < before.len() implies album_needs(#[trigger] before[i])
            <= ids[i].len() by {
            assert(before[i] == albums[i]);
        }
        described_albums_are_shown_in_order(model, before, ids, now);
        let (so_far, out) = each(model, before, show_album_step(ids, now))->Ok_0;
        let last = albums.last();
        assert(last == albums[n]);
        an_album_arrives(so_far, last, ids[n], now);
        an_album_loses_nothing(so_far, last, ids[n], now);
        if last.source is Some {
            an_album_is_named_by_its_key(so_far, last, ids[n], now);
        }
        growth_adds_up(model, so_far, after);
        assert forall|i: int| 0 <= i < shown.len() implies (#[trigger] shown[i]) is Some by {
            if i < n {
                assert(shown[i] == out[i]);
            }
        }
        all_are_present(shown);
        all_are_present(out);
        assert forall|i: int| 0 <= i < albums.len() && albums[i].source is Some implies after.bound(
            EntityKind::Album,
            (#[trigger] albums[i]).source->0,
        ) == Some(present(shown)[i].id) by {
            if i < n && albums[i].source is Some {
                assert(before[i] == albums[i]);
                assert(shown[i] == out[i]);
                growth_keeps_bindings(so_far, after, EntityKind::Album, albums[i].source->0);
            }
        }
    }
}

/// Every artist described is shown, in the order described, under the id its key names.
pub proof fn described_artists_are_shown_in_order(
    model: StoreModel,
    artists: Seq<SourceArtistView>,
    ids: Seq<EntityId>,
    now: i64,
)
    requires
        well_kept(model),
        each(model, artists, show_artist_step(ids, now)) is Ok,
    ensures
        ({
            let (after, shown) = each(model, artists, show_artist_step(ids, now))->Ok_0;
            &&& well_kept(after)
            &&& grows(model, after)
            &&& present(shown).len() == artists.len()
            &&& forall|i: int|
                0 <= i < artists.len() ==> (artists[i].source is Some ==> after.bound(
                    EntityKind::Artist,
                    (#[trigger] artists[i]).source->0,
                ) == Some(present(shown)[i].id))
            &&& shown.len() == artists.len()
            &&& forall|i: int| 0 <= i < shown.len() ==> (#[trigger] shown[i]) is Some
        }),
    decreases artists.len(),
{
    let (after, shown) = each(model, artists, show_artist_step(ids, now))->Ok_0;
    if artists.len() > 0 {
        let n = artists.len() - 1;
        let before = artists.drop_last();
        described_artists_are_shown_in_order(model, before, ids, now);
        let (so_far, out) = each(model, before, show_artist_step(ids, now))->Ok_0;
        let last = artists.last();
        assert(last == artists[n]);
        an_artist_arrives(so_far, last, ids[n], now);
        an_artist_loses_nothing(so_far, last, ids[n], now);
        if last.source is Some {
            an_artist_is_named_by_its_key(so_far, last, ids[n], now);
        }
        growth_adds_up(model, so_far, after);
        assert forall|i: int| 0 <= i < shown.len() implies (#[trigger] shown[i]) is Some by {
            if i < n {
                assert(shown[i] == out[i]);
            }
        }
        all_are_present(shown);
        all_are_present(out);
        assert forall|i: int| 0 <= i < artists.len() && artists[i].source is Some implies after.bound(
            EntityKind::Artist,
            (#[trigger] artists[i]).source->0,
        ) == Some(present(shown)[i].id) by {
            if i < n && artists[i].source is Some {
                assert(before[i] == artists[i]);
                assert(shown[i] == out[i]);
                growth_keeps_bindings(so_far, after, EntityKind::Artist, artists[i].source->0);
            }
        }
    }
}

/// A search shows everything the service found, kind by kind and in the service's order, under the
/// ids the library knows it by.
pub proof fn a_search_shows_everything_found(
    model: StoreModel,
    found: SearchResultsView,
    ids: SupplyModel,
    now: i64,
)
    requires
        well_kept(model),
        serves_search(ids, found),
        searched(model, found, ids, now) is Ok,
    ensures
        ({
            let (after, shown) = searched(model, found, ids, now)->Ok_0;
            &&& shown.tracks.len() == found.tracks.len()
            &&& shown.albums.len() == found.albums.len()
            &&& shown.artists.len() == found.artists.len()
            &&& forall|i: int|
                0 <= i < found.tracks.len() ==> after.bound(
                    EntityKind::Track,
                    (#[trigger] found.tracks[i]).source,
                ) == Some(shown.tracks[i].id)
            &&& forall|i: int|
                0 <= i < found.albums.len() ==> (found.albums[i].source is Some ==> after.bound(
                    EntityKind::Album,
                    (#[trigger] found.albums[i]).source->0,
                ) == Some(shown.albums[i].id))
            &&& forall|i: int|
                0 <= i < found.artists.len() ==> (found.artists[i].source is Some ==> after.bound(
                    EntityKind::Artist,
                    (#[trigger] found.artists[i]).source->0,
                ) == Some(shown.artists[i].id))
        }),
{
    described_tracks_are_shown_in_order(model, found.tracks, ids.tracks, now);
    let (heard, tracks) = each(model, found.tracks, show_track_step(ids.tracks, now))->Ok_0;
    described_albums_are_shown_in_order(heard, found.albums, ids.albums, now);
    let (shelved, albums) = each(heard, found.albums, show_album_step(ids.albums, now))->Ok_0;
    described_artists_are_shown_in_order(shelved, found.artists, ids.artists, now);
    let (after, artists) = each(shelved, found.artists, show_artist_step(ids.artists, now))->Ok_0;
    let shown = searched(model, found, ids, now)->Ok_0.1;
    growth_adds_up(heard, shelved, after);
    assert forall|i: int| 0 <= i < found.tracks.len() implies after.bound(
        EntityKind::Track,
        (#[trigger] found.tracks[i]).source,
    ) == Some(shown.tracks[i].id) by {
        growth_keeps_bindings(heard, after, EntityKind::Track, found.tracks[i].source);
    }
    assert forall|i: int|
        0 <= i < found.albums.len() && found.albums[i].source is Some implies after.bound(
        EntityKind::Album,
        (#[trigger] found.albums[i]).source->0,
    ) == Some(
        shown.albums[i].id,
    ) by {
        if found.albums[i].source is Some {
            growth_keeps_bindings(shelved, after, EntityKind::Album, found.albums[i].source->0);
        }
    }
}

/// An artist's page from a service shows the artist, and every album and track the service lists,
/// in its order.
pub proof fn an_artists_listing_shows_everything_listed(
    model: StoreModel,
    listing: ArtistListingView,
    ids: SupplyModel,
    now: i64,
)
    requires
        well_kept(model),
        serves_artist(ids, listing),
        listed_artist(model, listing, ids, now) is Ok,
    ensures
        ({
            let (after, shown) = listed_artist(model, listing, ids, now)->Ok_0;
            &&& listing.artist.source is Some ==> after.bound(
                EntityKind::Artist,
                listing.artist.source->0,
            ) == Some(shown.artist.id)
            &&& shown.albums.len() == listing.albums.len()
            &&& shown.top_tracks.len() == listing.top_tracks.len()
            &&& forall|i: int|
                0 <= i < listing.top_tracks.len() ==> after.bound(
                    EntityKind::Track,
                    (#[trigger] listing.top_tracks[i]).source,
                ) == Some(shown.top_tracks[i].id)
            &&& forall|i: int|
                0 <= i < listing.albums.len() ==> (listing.albums[i].source is Some ==> after.bound(
                    EntityKind::Album,
                    (#[trigger] listing.albums[i]).source->0,
                ) == Some(shown.albums[i].id))
        }),
{
    an_artist_arrives(model, listing.artist, ids.artists[0], now);
    let (credited, id) = ingested_artist(model, listing.artist, ids.artists[0], now)->Ok_0;
    described_albums_are_shown_in_order(credited, listing.albums, ids.albums, now);
    let (shelved, albums) = each(credited, listing.albums, show_album_step(ids.albums, now))->Ok_0;
    described_tracks_are_shown_in_order(shelved, listing.top_tracks, ids.tracks, now);
    let (after, tracks) = each(
        shelved,
        listing.top_tracks,
        show_track_step(ids.tracks, now),
    )->Ok_0;
    let shown = listed_artist(model, listing, ids, now)->Ok_0.1;
    growth_adds_up(credited, shelved, after);
    if listing.artist.source is Some {
        an_artist_is_named_by_its_key(model, listing.artist, ids.artists[0], now);
        growth_keeps_bindings(credited, after, EntityKind::Artist, listing.artist.source->0);
    }
    assert forall|i: int|
        0 <= i < listing.albums.len() && listing.albums[i].source is Some implies after.bound(
        EntityKind::Album,
        (#[trigger] listing.albums[i]).source->0,
    ) == Some(
        shown.albums[i].id,
    ) by {
        if listing.albums[i].source is Some {
            growth_keeps_bindings(shelved, after, EntityKind::Album, listing.albums[i].source->0);
        }
    }
}

} // verus!
