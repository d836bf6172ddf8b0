//! What becomes of what services describe: it is taken in, under one identity, as it was described.

use vstd::prelude::*;

use crate::binding::{a_bound_key_names_the_entity, key_of};
use crate::catalog::AlbumListingView;
use crate::growth::{
    a_track_loses_nothing, artists_bind_only_artists, growth_adds_up, growth_keeps_bindings, grows,
};
use crate::id::{EntityId, SourceView};
use crate::ingest::{
    album_needs, an_ingested_key_names_its_track, by_isrc, credit_of, direct, ingested_album,
    ingested_artist, ingested_artists, ingested_entries, ingested_listing, ingested_track,
    ingested_unbound, isrc_match, merged, named_artist, new_album, new_track, track_needs,
};
use crate::integrity::{
    adding_a_track_keeps_the_tables_sound, adding_an_album_keeps_the_tables_sound,
    adding_an_artist_keeps_the_tables_sound, binding_keeps_the_tables_sound,
    placing_a_track_keeps_the_tables_sound, staying_adds_up,
    updating_an_album_keeps_the_tables_sound,
};
use crate::model::{AlbumModel, AlbumTrack, BindingModel, EntityKind};
use crate::rows::{first_at_matches, first_at_push};
use crate::store::{
    album_is, artist_is, binding_is, same_slot, slot_entry, track_is, AlbumEntry, Slot, StoreModel,
};
use crate::track::{SourceAlbumView, SourceArtistView, SourceTrackView};
use crate::tracklist::{resettled, resettling_seats_the_entries};

verus! {

/// Whether the library holds `id` as an entity of its kind.
pub open spec fn holds(model: StoreModel, kind: EntityKind, id: EntityId) -> bool {
    match kind {
        EntityKind::Track => model.track_at(id) is Some,
        EntityKind::Album => model.album_at(id) is Some,
        EntityKind::Artist => model.artist_at(id) is Some,
        EntityKind::Playlist => true,
    }
}

/// What a library that has only ever been added to is like: its tables are in order, what a key
/// names is there, and no two albums share a MusicBrainz id.
pub open spec fn well_kept(model: StoreModel) -> bool {
    &&& model.sound()
    &&& forall|i: int|
        0 <= i < model.bindings.len() ==> holds(
            model,
            (#[trigger] model.bindings[i]).kind,
            model.bindings[i].entity,
        )
    &&& forall|i: int, j: int|
        0 <= i < j < model.albums.len() ==> (#[trigger] model.albums[i]).album.mbid is None
            || model.albums[i].album.mbid != (#[trigger] model.albums[j]).album.mbid
}

/// Whether ids are new to the library, and each another.
pub open spec fn are_new(model: StoreModel, ids: Seq<EntityId>) -> bool {
    &&& forall|i: int| 0 <= i < ids.len() ==> model.unused(#[trigger] ids[i])
    &&& forall|i: int, j: int|
        0 <= i < j < ids.len() ==> #[trigger] ids[i] != #[trigger] ids[j]
}

/// Whether every artist that says where it is from says so by a key.
pub open spec fn have_keys(artists: Seq<SourceArtistView>) -> bool {
    forall|i: int|
        0 <= i < artists.len() ==> ((#[trigger] artists[i]).source is Some ==> key_of(
            artists[i].source->0,
        ) is Some)
}

pub open spec fn album_has_keys(album: SourceAlbumView) -> bool {
    (album.source is Some ==> key_of(album.source->0) is Some) && have_keys(album.artists)
}

pub open spec fn track_has_keys(track: SourceTrackView) -> bool {
    &&& key_of(track.source) is Some
    &&& have_keys(track.artists)
    &&& track.album is Some ==> album_has_keys(track.album->0)
}

/// An empty library is well kept.
pub proof fn an_empty_library_is_well_kept(model: StoreModel)
    requires
        model.artists.len() == 0,
        model.albums.len() == 0,
        model.tracks.len() == 0,
        model.isrcs.len() == 0,
        model.slots.len() == 0,
        model.bindings.len() == 0,
        model.saved.len() == 0,
        model.playlists.len() == 0,
    ensures
        well_kept(model),
{
    crate::integrity::an_empty_store_is_sound(model);
}

proof fn what_a_key_names_is_there(model: StoreModel, kind: EntityKind, source: SourceView)
    requires
        well_kept(model),
        model.bound(kind, source) is Some,
    ensures
        holds(model, kind, model.bound(kind, source)->0),
{
    let p = binding_is(kind, source.service(), key_of(source)->0);
    first_at_matches(model.bindings, p);
    let i = model.binding_at(kind, source.service(), key_of(source)->0)->0;
    assert(p(model.bindings[i]));
    assert(holds(model, model.bindings[i].kind, model.bindings[i].entity));
}

proof fn names_stay(model: StoreModel, after: StoreModel)
    requires
        well_kept(model),
        model.stays_in(after),
        after.bindings == model.bindings,
    ensures
        forall|i: int|
            0 <= i < after.bindings.len() ==> holds(
                after,
                (#[trigger] after.bindings[i]).kind,
                after.bindings[i].entity,
            ),
{
    assert forall|i: int| 0 <= i < after.bindings.len() implies holds(
        after,
        (#[trigger] after.bindings[i]).kind,
        after.bindings[i].entity,
    ) by {
        assert(holds(model, model.bindings[i].kind, model.bindings[i].entity));
    }
}

proof fn a_binding_of_what_is_there_is_well_kept(
    model: StoreModel,
    kind: EntityKind,
    entity: EntityId,
    binding: BindingModel,
    now: i64,
)
    requires
        well_kept(model),
        holds(model, kind, entity),
        model.bind_refusal(kind, entity, binding.source) is None,
    ensures
        well_kept(model.with_binding(kind, entity, binding, now)),
{
    let after = model.with_binding(kind, entity, binding, now);
    binding_keeps_the_tables_sound(model, kind, entity, binding, now);
    first_at_matches(
        model.bindings,
        binding_is(kind, binding.source.service(), key_of(binding.source)->0),
    );
    assert forall|i: int| 0 <= i < after.bindings.len() implies holds(
        after,
        (#[trigger] after.bindings[i]).kind,
        after.bindings[i].entity,
    ) by {
        if i < model.bindings.len() {
            assert(after.bindings[i].kind == model.bindings[i].kind && after.bindings[i].entity
                == model.bindings[i].entity);
            assert(holds(model, model.bindings[i].kind, model.bindings[i].entity));
        }
    }
}

/// Whether nothing but `ids` came into use.
pub open spec fn uses_only(model: StoreModel, after: StoreModel, ids: Seq<EntityId>) -> bool {
    forall|y: EntityId| model.unused(y) && !ids.contains(y) ==> #[trigger] after.unused(y)
}

proof fn using_adds_up(
    a: StoreModel,
    b: StoreModel,
    c: StoreModel,
    first: Seq<EntityId>,
    second: Seq<EntityId>,
    all: Seq<EntityId>,
)
    requires
        uses_only(a, b, first),
        uses_only(b, c, second),
        forall|y: EntityId| #[trigger] first.contains(y) ==> all.contains(y),
        forall|y: EntityId| #[trigger] second.contains(y) ==> all.contains(y),
    ensures
        uses_only(a, c, all),
{
    assert forall|y: EntityId| a.unused(y) && !all.contains(y) implies #[trigger] c.unused(y) by {
        assert(!first.contains(y) && !second.contains(y));
        assert(b.unused(y));
    }
}

proof fn binding_uses_nothing(
    model: StoreModel,
    kind: EntityKind,
    entity: EntityId,
    binding: BindingModel,
    now: i64,
    ids: Seq<EntityId>,
    before: StoreModel,
)
    requires
        uses_only(before, model, ids),
    ensures
        uses_only(before, model.with_binding(kind, entity, binding, now), ids),
{
    let after = model.with_binding(kind, entity, binding, now);
    assert forall|y: EntityId| before.unused(y) && !ids.contains(y) implies
        #[trigger] after.unused(y) by {
        assert(model.unused(y));
    }
}

proof fn an_added_artist_is_well_kept(model: StoreModel, id: EntityId, name: Seq<char>)
    requires
        well_kept(model),
        model.unused(id),
    ensures
        model.artist_refusal(id, named_artist(name)) is None,
        well_kept(model.with_artist(id, named_artist(name))),
        model.stays_in(model.with_artist(id, named_artist(name))),
        model.with_artist(id, named_artist(name)).artist_at(id) is Some,
        uses_only(model, model.with_artist(id, named_artist(name)), seq![id]),
{
    let after = model.with_artist(id, named_artist(name));
    adding_an_artist_keeps_the_tables_sound(model, id, named_artist(name));
    names_stay(model, after);
    assert forall|y: EntityId| model.unused(y) && !seq![id].contains(y) implies
        #[trigger] after.unused(y) by {
        assert(seq![id][0] == id);
        first_at_push(model.artists, after.artists.last(), artist_is(y));
    }
}

/// An artist that says where it is from by a key, or does not say, is taken in.
pub proof fn an_artist_arrives(model: StoreModel, described: SourceArtistView, id: EntityId, now: i64)
    requires
        well_kept(model),
    ensures
        (described.source is Some ==> key_of(described.source->0) is Some) && model.unused(id)
            ==> ingested_artist(model, described, id, now) is Ok,
        ingested_artist(model, described, id, now) is Ok ==> {
            let (after, found) = ingested_artist(model, described, id, now)->Ok_0;
            &&& well_kept(after)
            &&& after.artist_at(found) is Some
            &&& model.stays_in(after)
            &&& uses_only(model, after, seq![id])
        },
{
    let name = described.name;
    if described.source is Some && model.bound(EntityKind::Artist, described.source->0) is Some {
        what_a_key_names_is_there(model, EntityKind::Artist, described.source->0);
    } else if model.unused(id) {
        an_added_artist_is_well_kept(model, id, name);
        let added = model.with_artist(id, named_artist(name));
        if described.source is Some && key_of(described.source->0) is Some {
            let binding = direct(described.source->0);
            assert(added.bound(EntityKind::Artist, described.source->0) is None);
            a_binding_of_what_is_there_is_well_kept(added, EntityKind::Artist, id, binding, now);
            binding_keeps_the_tables_sound(added, EntityKind::Artist, id, binding, now);
            binding_uses_nothing(added, EntityKind::Artist, id, binding, now, seq![id], model);
            staying_adds_up(
                model,
                added,
                added.with_binding(EntityKind::Artist, id, binding, now),
            );
        }
    }
}

proof fn artists_arrive(
    model: StoreModel,
    described: Seq<SourceArtistView>,
    ids: Seq<EntityId>,
    now: i64,
)
    requires
        well_kept(model),
        described.len() <= ids.len(),
    ensures
        have_keys(described) && are_new(model, ids) ==> ingested_artists(
            model,
            described,
            ids,
            now,
        ) is Ok,
        ingested_artists(model, described, ids, now) is Ok ==> {
            let (after, found) = ingested_artists(model, described, ids, now)->Ok_0;
            &&& well_kept(after)
            &&& found.len() == described.len()
            &&& after.are_artists(found)
            &&& model.stays_in(after)
            &&& uses_only(model, after, ids.take(described.len() as int))
            &&& after.tracks == model.tracks && after.isrcs == model.isrcs && after.albums
                == model.albums && after.slots == model.slots && after.saved == model.saved
                && after.playlists == model.playlists
        },
    decreases described.len(),
{
    if described.len() > 0 {
        let before = described.drop_last();
        let n = described.len() - 1;
        artists_arrive(model, before, ids, now);
        if have_keys(described) {
            assert(have_keys(before)) by {
                assert forall|i: int| 0 <= i < before.len() && (
                #[trigger] before[i]).source is Some implies key_of(before[i].source->0) is Some by {
                    assert(before[i] == described[i]);
                }
            }
            assert(described[n].source is Some ==> key_of(described[n].source->0) is Some);
        }
        if ingested_artists(model, before, ids, now) is Ok {
            let (so_far, found) = ingested_artists(model, before, ids, now)->Ok_0;
            an_artist_arrives(so_far, described.last(), ids[n], now);
            let used = ids.take(n);
            if are_new(model, ids) {
                assert(!used.contains(ids[n])) by {
                    if used.contains(ids[n]) {
                        let k = choose|k: int| 0 <= k < used.len() && used[k] == ids[n];
                        assert(ids[k] != ids[n]);
                    }
                }
                assert(model.unused(ids[n]));
                assert(so_far.unused(ids[n]));
            }
            if ingested_artists(model, described, ids, now) is Ok {
                let (after, all) = ingested_artists(model, described, ids, now)->Ok_0;
                assert forall|y: EntityId| #[trigger] used.contains(y) implies ids.take(
                    n + 1,
                ).contains(y) by {
                    let k = choose|k: int| 0 <= k < used.len() && used[k] == y;
                    assert(ids.take(n + 1)[k] == y);
                }
                assert forall|y: EntityId| #[trigger] seq![ids[n]].contains(y) implies ids.take(
                    n + 1,
                ).contains(y) by {
                    assert(ids.take(n + 1)[n] == ids[n]);
                }
                using_adds_up(model, so_far, after, used, seq![ids[n]], ids.take(n + 1));
                staying_adds_up(model, so_far, after);
                assert forall|k: int| 0 <= k < all.len() implies after.artist_at(
                    #[trigger] all[k],
                ) is Some by {
                    if k < found.len() {
                        assert(so_far.artist_at(found[k]) is Some);
                        assert(all[k] == found[k]);
                    }
                }
            }
        }
    }
}

proof fn an_added_album_is_well_kept(model: StoreModel, id: EntityId, album: AlbumModel)
    requires
        well_kept(model),
        model.unused(id),
        album.mbid is None,
        model.are_artists(album.artists),
    ensures
        model.album_refusal(id, album) is None,
        well_kept(model.with_album(id, album)),
        model.stays_in(model.with_album(id, album)),
        model.with_album(id, album).album_at(id) is Some,
        uses_only(model, model.with_album(id, album), seq![id]),
{
    let after = model.with_album(id, album);
    adding_an_album_keeps_the_tables_sound(model, id, album);
    names_stay(model, after);
    assert forall|y: EntityId| model.unused(y) && !seq![id].contains(y) implies
        #[trigger] after.unused(y) by {
        assert(seq![id][0] == id);
        first_at_push(model.albums, after.albums.last(), album_is(y));
    }
    assert forall|i: int, j: int| 0 <= i < j < after.albums.len() implies (
    #[trigger] after.albums[i]).album.mbid is None || after.albums[i].album.mbid != (
    #[trigger] after.albums[j]).album.mbid by {
        assert(after.albums[i] == model.albums[i]);
        if j < model.albums.len() {
            assert(after.albums[j] == model.albums[j]);
        }
    }
}

proof fn an_updated_album_is_well_kept(model: StoreModel, id: EntityId, album: AlbumModel)
    requires
        well_kept(model),
        model.album_at(id) is Some,
        album.mbid == model.album(id)->0.mbid,
        model.are_artists(album.artists),
    ensures
        model.album_update_refusal(id, album) is None,
        well_kept(model.with_album_updated(id, album)),
        model.stays_in(model.with_album_updated(id, album)),
        uses_only(model, model.with_album_updated(id, album), Seq::empty()),
{
    let after = model.with_album_updated(id, album);
    first_at_matches(model.albums, album_is(id));
    let at = model.album_at(id)->0;
    assert(!model.album_mbid_taken(album.mbid, Some(at))) by {
        if model.album_mbid_taken(album.mbid, Some(at)) {
            let i = choose|i: int|
                0 <= i < model.albums.len() && Some(i) != Some(at)
                    && (#[trigger] model.albums[i]).album.mbid == album.mbid;
            assert(model.albums[at].album.mbid == album.mbid);
            if i < at {
                assert(model.albums[i].album.mbid != model.albums[at].album.mbid);
            } else {
                assert(model.albums[at].album.mbid != model.albums[i].album.mbid);
            }
        }
    }
    updating_an_album_keeps_the_tables_sound(model, id, album);
    names_stay(model, after);
    assert forall|y: EntityId| model.unused(y) && !Seq::<EntityId>::empty().contains(y) implies
        #[trigger] after.unused(y) by {
        crate::rows::an_update_is_found_where_it_was(
            model.albums,
            at,
            AlbumEntry { id, album },
            album_is(y),
        );
    }
    assert forall|i: int, j: int| 0 <= i < j < after.albums.len() implies (
    #[trigger] after.albums[i]).album.mbid is None || after.albums[i].album.mbid != (
    #[trigger] after.albums[j]).album.mbid by {
        assert(after.albums[i].album.mbid == model.albums[i].album.mbid);
        assert(after.albums[j].album.mbid == model.albums[j].album.mbid);
    }
}

proof fn the_first_and_the_rest(ids: Seq<EntityId>, n: int)
    requires
        0 <= n < ids.len(),
    ensures
        forall|y: EntityId| #[trigger] ids.skip(1).take(n).contains(y) ==> ids.take(1 + n).contains(y),
        forall|y: EntityId| #[trigger] seq![ids[0]].contains(y) ==> ids.take(1 + n).contains(y),
{
    assert forall|y: EntityId| #[trigger] ids.skip(1).take(n).contains(y) implies ids.take(
        1 + n,
    ).contains(y) by {
        let k = choose|k: int| 0 <= k < n && ids.skip(1).take(n)[k] == y;
        assert(ids.take(1 + n)[k + 1] == y);
    }
    assert(ids.take(1 + n)[0] == ids[0]);
}

proof fn new_ids_stay_new(model: StoreModel, ids: Seq<EntityId>, n: int)
    requires
        are_new(model, ids),
        0 <= n <= ids.len(),
    ensures
        are_new(model, ids.skip(n)),
{
    assert forall|i: int| 0 <= i < ids.skip(n).len() implies model.unused(
        #[trigger] ids.skip(n)[i],
    ) by {
        assert(model.unused(ids[n + i]));
    }
    assert forall|i: int, j: int| 0 <= i < j < ids.skip(n).len() implies #[trigger] ids.skip(n)[i]
        != #[trigger] ids.skip(n)[j] by {
        assert(ids[n + i] != ids[n + j]);
    }
}

/// An album whose sources all have keys is taken in.
pub proof fn an_album_arrives(model: StoreModel, described: SourceAlbumView, ids: Seq<EntityId>, now: i64)
    requires
        well_kept(model),
        album_needs(described) <= ids.len(),
    ensures
        album_has_keys(described) && are_new(model, ids) ==> ingested_album(
            model,
            described,
            ids,
            now,
        ) is Ok,
        ingested_album(model, described, ids, now) is Ok ==> {
            let (after, album) = ingested_album(model, described, ids, now)->Ok_0;
            &&& well_kept(after)
            &&& after.album_at(album) is Some
            &&& model.stays_in(after)
            &&& uses_only(model, after, ids.take(album_needs(described)))
            &&& after.tracks == model.tracks && after.isrcs == model.isrcs && after.slots
                == model.slots && after.saved == model.saved && after.playlists == model.playlists
        },
{
    let rest = ids.skip(1);
    let n = described.artists.len() as int;
    artists_arrive(model, described.artists, rest, now);
    the_first_and_the_rest(ids, n);
    if are_new(model, ids) {
        new_ids_stay_new(model, ids, 1);
    }
    let known = match described.source {
        Some(source) => model.bound(EntityKind::Album, source),
        None => None,
    };
    if known is Some {
        what_a_key_names_is_there(model, EntityKind::Album, described.source->0);
    }
    if ingested_artists(model, described.artists, rest, now) is Ok {
        let (credited, artists) = ingested_artists(model, described.artists, rest, now)->Ok_0;
        if known is Some {
            let id = known->0;
            let album = model.album(id)->0;
            let more = merged(album, described, artists);
            first_at_matches(model.albums, album_is(id));
            assert(model.are_artists(album.artists));
            assert(credited.are_artists(more.artists)) by {
                if described.artists.len() == 0 {
                    assert forall|k: int| 0 <= k < album.artists.len() implies credited.artist_at(
                        #[trigger] album.artists[k],
                    ) is Some by {
                        assert(model.artist_at(album.artists[k]) is Some);
                    }
                }
            }
            assert(credited.album(id) == model.album(id));
            an_updated_album_is_well_kept(credited, id, more);
            let updated = credited.with_album_updated(id, more);
            staying_adds_up(model, credited, updated);
            using_adds_up(
                model,
                credited,
                updated,
                rest.take(n),
                Seq::empty(),
                ids.take(1 + n),
            );
            using_adds_up(
                model,
                credited,
                credited,
                rest.take(n),
                Seq::empty(),
                ids.take(1 + n),
            );
        } else {
            let album = new_album(described, artists);
            if are_new(model, ids) {
                assert(!rest.take(n).contains(ids[0])) by {
                    if rest.take(n).contains(ids[0]) {
                        let k = choose|k: int| 0 <= k < n && rest.take(n)[k] == ids[0];
                        assert(ids[0] != ids[k + 1]);
                    }
                }
                assert(model.unused(ids[0]));
                assert(credited.unused(ids[0]));
            }
            if credited.unused(ids[0]) {
                an_added_album_is_well_kept(credited, ids[0], album);
                let added = credited.with_album(ids[0], album);
                staying_adds_up(model, credited, added);
                using_adds_up(
                    model,
                    credited,
                    added,
                    rest.take(n),
                    seq![ids[0]],
                    ids.take(1 + n),
                );
                if described.source is Some && key_of(described.source->0) is Some {
                    let source = described.source->0;
                    artists_bind_only_artists(
                        model,
                        described.artists,
                        rest,
                        now,
                        EntityKind::Album,
                        source,
                    );
                    assert(added.bound(EntityKind::Album, source) is None);
                    a_binding_of_what_is_there_is_well_kept(
                        added,
                        EntityKind::Album,
                        ids[0],
                        direct(source),
                        now,
                    );
                    binding_keeps_the_tables_sound(
                        added,
                        EntityKind::Album,
                        ids[0],
                        direct(source),
                        now,
                    );
                    binding_uses_nothing(
                        added,
                        EntityKind::Album,
                        ids[0],
                        direct(source),
                        now,
                        ids.take(1 + n),
                        model,
                    );
                    staying_adds_up(
                        model,
                        added,
                        added.with_binding(EntityKind::Album, ids[0], direct(source), now),
                    );
                }
            }
        }
    }
}

proof fn the_rest_is_still_new(model: StoreModel, after: StoreModel, ids: Seq<EntityId>, m: int)
    requires
        are_new(model, ids),
        0 <= m <= ids.len(),
        uses_only(model, after, ids.take(m)),
    ensures
        are_new(after, ids.skip(m)),
{
    new_ids_stay_new(model, ids, m);
    assert forall|i: int| 0 <= i < ids.skip(m).len() implies after.unused(
        #[trigger] ids.skip(m)[i],
    ) by {
        let y = ids[m + i];
        assert(model.unused(y));
        if ids.take(m).contains(y) {
            let k = choose|k: int| 0 <= k < m && ids.take(m)[k] == y;
            assert(ids[k] != ids[m + i]);
        }
        assert(after.unused(y));
    }
}

proof fn a_part_and_the_next_part(ids: Seq<EntityId>, m: int, n: int)
    requires
        0 <= m,
        0 <= n,
        m + n <= ids.len(),
    ensures
        forall|y: EntityId| #[trigger] ids.take(m).contains(y) ==> ids.take(m + n).contains(y),
        forall|y: EntityId| #[trigger] ids.skip(m).take(n).contains(y) ==> ids.take(m + n).contains(y),
{
    assert forall|y: EntityId| #[trigger] ids.take(m).contains(y) implies ids.take(m + n).contains(
        y,
    ) by {
        let k = choose|k: int| 0 <= k < m && ids.take(m)[k] == y;
        assert(ids.take(m + n)[k] == y);
    }
    assert forall|y: EntityId| #[trigger] ids.skip(m).take(n).contains(y) implies ids.take(
        m + n,
    ).contains(y) by {
        let k = choose|k: int| 0 <= k < n && ids.skip(m).take(n)[k] == y;
        assert(ids.take(m + n)[m + k] == y);
    }
}

proof fn a_placed_track_is_well_kept(model: StoreModel, album: EntityId, entry: AlbumTrack)
    requires
        well_kept(model),
        model.album_at(album) is Some,
        model.track_at(entry.track) is Some,
    ensures
        well_kept(model.with_placed(album, entry)),
        model.stays_in(model.with_placed(album, entry)),
        uses_only(model, model.with_placed(album, entry), Seq::empty()),
{
    let after = model.with_placed(album, entry);
    placing_a_track_keeps_the_tables_sound(model, album, entry);
    names_stay(model, after);
    assert forall|y: EntityId| model.unused(y) && !Seq::<EntityId>::empty().contains(y) implies
        #[trigger] after.unused(y) by {
        assert(after.kind_of(y) == model.kind_of(y));
    }
}

proof fn an_added_track_is_well_kept(
    model: StoreModel,
    id: EntityId,
    track: crate::model::TrackModel,
)
    requires
        well_kept(model),
        model.unused(id),
        track.mbid is None,
        model.are_artists(track.artists),
    ensures
        model.track_refusal(id, track) is None,
        well_kept(model.with_track(id, track)),
        model.stays_in(model.with_track(id, track)),
        model.with_track(id, track).track_at(id) is Some,
        uses_only(model, model.with_track(id, track), seq![id]),
{
    let after = model.with_track(id, track);
    adding_a_track_keeps_the_tables_sound(model, id, track);
    names_stay(model, after);
    assert forall|y: EntityId| model.unused(y) && !seq![id].contains(y) implies
        #[trigger] after.unused(y) by {
        assert(seq![id][0] == id);
        first_at_push(model.tracks, after.tracks.last(), track_is(y));
    }
}

/// A track whose sources all have keys is taken in, on a recording it is known to be or as its own.
proof fn an_unbound_track_arrives(
    model: StoreModel,
    described: SourceTrackView,
    matched: Option<EntityId>,
    ids: Seq<EntityId>,
    now: i64,
)
    requires
        well_kept(model),
        track_needs(described) <= ids.len(),
        key_of(described.source) is Some,
        model.bound(EntityKind::Track, described.source) is None,
        matched is Some ==> model.track_at(matched->0) is Some,
    ensures
        track_has_keys(described) && are_new(model, ids) ==> ingested_unbound(
            model,
            described,
            matched,
            ids,
            now,
        ) is Ok,
        ingested_unbound(model, described, matched, ids, now) is Ok ==> {
            let (after, track) = ingested_unbound(model, described, matched, ids, now)->Ok_0;
            &&& well_kept(after)
            &&& after.track_at(track) is Some
            &&& model.stays_in(after)
            &&& uses_only(model, after, ids.take(track_needs(described)))
        },
{
    let rest = ids.skip(1);
    let n = described.artists.len() as int;
    let m = 1 + n;
    artists_arrive(model, described.artists, rest, now);
    the_first_and_the_rest(ids, n);
    if are_new(model, ids) {
        new_ids_stay_new(model, ids, 1);
    }
    if ingested_artists(model, described.artists, rest, now) is Ok {
        let (credited, artists) = ingested_artists(model, described.artists, rest, now)->Ok_0;
        let track = match matched {
            Some(track) => track,
            None => ids[0],
        };
        let binding = match matched {
            Some(_) => by_isrc(described.source),
            None => direct(described.source),
        };
        let added = match matched {
            Some(_) => credited,
            None => credited.with_track(track, new_track(described, artists)),
        };
        if are_new(model, ids) {
            assert(!rest.take(n).contains(ids[0])) by {
                if rest.take(n).contains(ids[0]) {
                    let k = choose|k: int| 0 <= k < n && rest.take(n)[k] == ids[0];
                    assert(ids[0] != ids[k + 1]);
                }
            }
            assert(model.unused(ids[0]));
            assert(credited.unused(ids[0]));
        }
        if matched is Some || credited.unused(ids[0]) {
            if matched is None {
                an_added_track_is_well_kept(credited, track, new_track(described, artists));
                using_adds_up(
                    model,
                    credited,
                    added,
                    rest.take(n),
                    seq![ids[0]],
                    ids.take(m),
                );
                staying_adds_up(model, credited, added);
            } else {
                using_adds_up(
                    model,
                    credited,
                    credited,
                    rest.take(n),
                    Seq::empty(),
                    ids.take(m),
                );
            }
            artists_bind_only_artists(
                model,
                described.artists,
                rest,
                now,
                EntityKind::Track,
                described.source,
            );
            assert(added.bound(EntityKind::Track, described.source) is None);
            a_binding_of_what_is_there_is_well_kept(added, EntityKind::Track, track, binding, now);
            binding_keeps_the_tables_sound(added, EntityKind::Track, track, binding, now);
            binding_uses_nothing(
                added,
                EntityKind::Track,
                track,
                binding,
                now,
                ids.take(m),
                model,
            );
            let bound = added.with_binding(EntityKind::Track, track, binding, now);
            staying_adds_up(model, added, bound);
            if described.album is Some {
                let album = described.album->0;
                let later = ids.skip(m);
                let needs = album_needs(album);
                an_album_arrives(bound, album, later, now);
                if are_new(model, ids) {
                    the_rest_is_still_new(model, bound, ids, m);
                }
                if ingested_album(bound, album, later, now) is Ok {
                    let (filled, on) = ingested_album(bound, album, later, now)->Ok_0;
                    staying_adds_up(model, bound, filled);
                    a_part_and_the_next_part(ids, m, needs);
                    using_adds_up(
                        model,
                        bound,
                        filled,
                        ids.take(m),
                        later.take(needs),
                        ids.take(m + needs),
                    );
                    if described.disc is Some && described.position is Some {
                        let entry = AlbumTrack {
                            disc: described.disc->0,
                            position: described.position->0,
                            track,
                        };
                        a_placed_track_is_well_kept(filled, on, entry);
                        let after = filled.with_placed(on, entry);
                        staying_adds_up(model, filled, after);
                        using_adds_up(
                            model,
                            filled,
                            after,
                            ids.take(m + needs),
                            Seq::empty(),
                            ids.take(m + needs),
                        );
                    }
                }
            }
        }
    }
}

proof fn a_matched_recording_is_there(model: StoreModel, described: SourceTrackView)
    requires
        model.sound(),
        isrc_match(model, described) is Some,
    ensures
        model.track_at(isrc_match(model, described)->0) is Some,
{
    let isrc = described.isrc->0;
    let n = model.isrcs.len() as int;
    crate::rows::places_are_the_matches(model.isrcs, crate::store::carries(isrc), n);
    let at = crate::rows::places(model.isrcs, crate::store::carries(isrc), n);
    assert(model.tracks_with_isrc(isrc).len() == at.len());
    assert(0 <= at[0] < n);
    assert(model.tracks_with_isrc(isrc)[0] == model.isrcs[at[0]].track);
    assert(model.track_at(model.isrcs[at[0]].track) is Some);
}

/// A track that a service describes is taken in: where its sources all have keys and the ids drawn
/// are new, nothing refuses it, and the library stays well kept.
pub proof fn a_described_track_is_taken_in(
    model: StoreModel,
    described: SourceTrackView,
    ids: Seq<EntityId>,
    now: i64,
)
    requires
        well_kept(model),
        track_needs(described) <= ids.len(),
    ensures
        track_has_keys(described) && are_new(model, ids) ==> ingested_track(
            model,
            described,
            ids,
            now,
        ) is Ok,
        ingested_track(model, described, ids, now) is Ok ==> well_kept(
            ingested_track(model, described, ids, now)->Ok_0.0,
        ) && ingested_track(model, described, ids, now)->Ok_0.0.track_at(
            ingested_track(model, described, ids, now)->Ok_0.1,
        ) is Some,
{
    a_track_arrives(model, described, ids, now);
}

pub proof fn a_track_arrives(model: StoreModel, described: SourceTrackView, ids: Seq<EntityId>, now: i64)
    requires
        well_kept(model),
        track_needs(described) <= ids.len(),
    ensures
        track_has_keys(described) && are_new(model, ids) ==> ingested_track(
            model,
            described,
            ids,
            now,
        ) is Ok,
        ingested_track(model, described, ids, now) is Ok ==> {
            let (after, track) = ingested_track(model, described, ids, now)->Ok_0;
            &&& well_kept(after)
            &&& after.track_at(track) is Some
            &&& model.stays_in(after)
            &&& uses_only(model, after, ids)
        },
{
    if key_of(described.source) is Some {
        if model.bound(EntityKind::Track, described.source) is Some {
            what_a_key_names_is_there(model, EntityKind::Track, described.source);
        } else {
            let matched = isrc_match(model, described);
            if matched is Some {
                a_matched_recording_is_there(model, described);
            }
            an_unbound_track_arrives(model, described, matched, ids, now);
            if ingested_unbound(model, described, matched, ids, now) is Ok {
                let after = ingested_unbound(model, described, matched, ids, now)->Ok_0.0;
                let used = ids.take(track_needs(described));
                assert forall|y: EntityId| #[trigger] used.contains(y) implies ids.contains(y) by {
                    let k = choose|k: int| 0 <= k < used.len() && used[k] == y;
                    assert(ids[k] == y);
                }
                using_adds_up(model, after, after, used, Seq::empty(), ids);
            }
        }
    }
}

/// An album that a service describes is taken in: where its sources all have keys and the ids drawn
/// are new, nothing refuses it, and the library stays well kept.
pub proof fn a_described_album_is_taken_in(
    model: StoreModel,
    described: SourceAlbumView,
    ids: Seq<EntityId>,
    now: i64,
)
    requires
        well_kept(model),
        album_needs(described) <= ids.len(),
    ensures
        album_has_keys(described) && are_new(model, ids) ==> ingested_album(
            model,
            described,
            ids,
            now,
        ) is Ok,
        ingested_album(model, described, ids, now) is Ok ==> well_kept(
            ingested_album(model, described, ids, now)->Ok_0.0,
        ) && ingested_album(model, described, ids, now)->Ok_0.0.album_at(
            ingested_album(model, described, ids, now)->Ok_0.1,
        ) is Some,
{
    an_album_arrives(model, described, ids, now);
}

/// An artist that a service describes is taken in under its name: an artist already known by where
/// it is from is that artist, and any other is new.
pub proof fn a_described_artist_is_taken_in(
    model: StoreModel,
    described: SourceArtistView,
    id: EntityId,
    now: i64,
)
    requires
        well_kept(model),
    ensures
        (described.source is Some ==> key_of(described.source->0) is Some) && model.unused(id)
            ==> ingested_artist(model, described, id, now) is Ok,
        ingested_artist(model, described, id, now) is Ok ==> {
            let (after, found) = ingested_artist(model, described, id, now)->Ok_0;
            let known = described.source is Some && model.bound(
                EntityKind::Artist,
                described.source->0,
            ) is Some;
            &&& well_kept(after)
            &&& after.artist_at(found) is Some
            &&& known ==> after == model && Some(found) == model.bound(
                EntityKind::Artist,
                described.source->0,
            )
            &&& !known ==> found == id && after.artist(found)->0.name == described.name
            &&& described.source is Some ==> after.bound(EntityKind::Artist, described.source->0)
                == Some(found)
        },
{
    an_artist_arrives(model, described, id, now);
    if ingested_artist(model, described, id, now) is Ok {
        let known = described.source is Some && model.bound(
            EntityKind::Artist,
            described.source->0,
        ) is Some;
        if !known {
            let artist = named_artist(described.name);
            let added = model.with_artist(id, artist);
            crate::readback::an_artist_reads_back(model, id, artist, id);
            if described.source is Some {
                a_bound_key_names_the_entity(
                    added,
                    EntityKind::Artist,
                    id,
                    direct(described.source->0),
                    now,
                );
            }
        }
    }
}

// --- listings ---

/// The disc a track is listed on: the first, where nothing is said.
pub open spec fn disc_of(track: SourceTrackView) -> u32 {
    if track.disc is Some {
        track.disc->0
    } else {
        1
    }
}

/// The position a track is listed at: where nothing is said, its place in the listing, counted from
/// one.
pub open spec fn position_of(track: SourceTrackView, i: int) -> u32 {
    if track.position is Some {
        track.position->0
    } else if i + 1 <= u32::MAX {
        (i + 1) as u32
    } else {
        u32::MAX
    }
}

proof fn entries_say_where_tracks_are(
    model: StoreModel,
    tracks: Seq<SourceTrackView>,
    ids: Seq<Seq<EntityId>>,
    now: i64,
)
    requires
        ingested_entries(model, tracks, ids, now) is Ok,
    ensures
        ({
            let (filled, entries) = ingested_entries(model, tracks, ids, now)->Ok_0;
            &&& grows(model, filled)
            &&& entries.len() == tracks.len()
            &&& forall|i: int|
                0 <= i < tracks.len() ==> {
                    &&& (#[trigger] entries[i]).disc == disc_of(tracks[i])
                    &&& entries[i].position == position_of(tracks[i], i)
                    &&& filled.bound(EntityKind::Track, tracks[i].source) == Some(entries[i].track)
                }
        }),
    decreases tracks.len(),
{
    let (filled, entries) = ingested_entries(model, tracks, ids, now)->Ok_0;
    if tracks.len() > 0 {
        let before = tracks.drop_last();
        let n = tracks.len() - 1;
        entries_say_where_tracks_are(model, before, ids, now);
        let (so_far, fewer) = ingested_entries(model, before, ids, now)->Ok_0;
        a_track_loses_nothing(so_far, tracks.last(), ids[n], now);
        an_ingested_key_names_its_track(so_far, tracks.last(), ids[n], now);
        growth_adds_up(model, so_far, filled);
        assert forall|i: int| 0 <= i < tracks.len() implies ({
            &&& (#[trigger] entries[i]).disc == disc_of(tracks[i])
            &&& entries[i].position == position_of(tracks[i], i)
            &&& filled.bound(EntityKind::Track, tracks[i].source) == Some(entries[i].track)
        }) by {
            if i < n {
                assert(entries[i] == fewer[i]);
                assert(before[i] == tracks[i]);
                assert(so_far.bound(EntityKind::Track, tracks[i].source) == Some(fewer[i].track));
                growth_keeps_bindings(so_far, filled, EntityKind::Track, tracks[i].source);
            }
        }
    }
}

/// Whether ids drawn for several tracks are new to the library, and each another.
pub open spec fn all_new(model: StoreModel, ids: Seq<Seq<EntityId>>) -> bool {
    &&& forall|i: int| 0 <= i < ids.len() ==> are_new(model, #[trigger] ids[i])
    &&& forall|i: int, j: int, y: EntityId|
        0 <= i < j < ids.len() && #[trigger] ids[i].contains(y) ==> !(#[trigger] ids[j].contains(y))
}

spec fn uses_only_these(
    model: StoreModel,
    after: StoreModel,
    ids: Seq<Seq<EntityId>>,
    n: int,
) -> bool {
    forall|y: EntityId|
        model.unused(y) && (forall|k: int| 0 <= k < n ==> !(#[trigger] ids[k].contains(y)))
            ==> #[trigger] after.unused(y)
}

proof fn entries_arrive(
    model: StoreModel,
    tracks: Seq<SourceTrackView>,
    ids: Seq<Seq<EntityId>>,
    now: i64,
)
    requires
        well_kept(model),
        tracks.len() <= ids.len(),
        forall|i: int| 0 <= i < tracks.len() ==> track_needs(#[trigger] tracks[i]) <= ids[i].len(),
    ensures
        all_new(model, ids) && (forall|i: int|
            0 <= i < tracks.len() ==> track_has_keys(#[trigger] tracks[i])) ==> ingested_entries(
            model,
            tracks,
            ids,
            now,
        ) is Ok,
        ingested_entries(model, tracks, ids, now) is Ok ==> {
            let (filled, entries) = ingested_entries(model, tracks, ids, now)->Ok_0;
            &&& well_kept(filled)
            &&& model.stays_in(filled)
            &&& uses_only_these(model, filled, ids, tracks.len() as int)
            &&& entries.len() == tracks.len()
            &&& forall|i: int|
                0 <= i < entries.len() ==> filled.track_at((#[trigger] entries[i]).track) is Some
        },
    decreases tracks.len(),
{
    if tracks.len() > 0 {
        let before = tracks.drop_last();
        let n = tracks.len() - 1;
        assert forall|i: int| 0 <= i < before.len() implies track_needs(#[trigger] before[i])
            <= ids[i].len() by {
            assert(before[i] == tracks[i]);
        }
        entries_arrive(model, before, ids, now);
        if forall|i: int| 0 <= i < tracks.len() ==> track_has_keys(#[trigger] tracks[i]) {
            assert forall|i: int| 0 <= i < before.len() implies track_has_keys(
                #[trigger] before[i],
            ) by {
                assert(track_has_keys(tracks[i]));
            }
            assert(track_has_keys(tracks[n]));
        }
        if ingested_entries(model, before, ids, now) is Ok {
            let (so_far, fewer) = ingested_entries(model, before, ids, now)->Ok_0;
            assert(track_needs(tracks[n]) <= ids[n].len());
            a_track_arrives(so_far, tracks.last(), ids[n], now);
            if all_new(model, ids) {
                assert(are_new(model, ids[n]));
                assert forall|i: int| 0 <= i < ids[n].len() implies so_far.unused(
                    #[trigger] ids[n][i],
                ) by {
                    let y = ids[n][i];
                    assert(model.unused(y));
                    assert(ids[n].contains(y));
                    assert forall|k: int| 0 <= k < n implies !(#[trigger] ids[k].contains(y)) by {
                        if ids[k].contains(y) {
                            assert(!ids[n].contains(y));
                        }
                    }
                }
                assert(are_new(so_far, ids[n]));
            }
            if ingested_entries(model, tracks, ids, now) is Ok {
                let (filled, entries) = ingested_entries(model, tracks, ids, now)->Ok_0;
                staying_adds_up(model, so_far, filled);
                assert forall|y: EntityId|
                    model.unused(y) && (forall|k: int|
                        0 <= k < tracks.len() ==> !(#[trigger] ids[k].contains(y))) implies
                    #[trigger] filled.unused(y) by {
                    assert(!ids[n].contains(y));
                    assert(so_far.unused(y));
                }
                assert forall|i: int| 0 <= i < entries.len() implies filled.track_at(
                    (#[trigger] entries[i]).track,
                ) is Some by {
                    if i < n {
                        assert(entries[i] == fewer[i]);
                        assert(so_far.track_at(fewer[i].track) is Some);
                    }
                }
            }
        }
    }
}

/// A listing that was taken in is the album's tracklist: each track it names stands on the disc and
/// at the position it says, and nothing else is listed. A track that says neither is on the first
/// disc, at its place in the listing.
pub proof fn a_listing_puts_each_track_where_it_says(
    model: StoreModel,
    listing: AlbumListingView,
    album_ids: Seq<EntityId>,
    track_ids: Seq<Seq<EntityId>>,
    now: i64,
    i: int,
    entry: AlbumTrack,
)
    requires
        ingested_listing(model, listing, album_ids, track_ids, now) is Ok,
        ingested_listing(model, listing, album_ids, track_ids, now)->Ok_0.0.slots.len()
            <= usize::MAX,
        0 <= i < listing.tracks.len(),
    ensures
        ({
            let (after, album) = ingested_listing(model, listing, album_ids, track_ids, now)->Ok_0;
            let described = listing.tracks[i];
            let list = after.tracklist(album);
            let track = after.bound(EntityKind::Track, described.source);
            &&& track is Some
            &&& described.disc is Some && described.position is Some ==> list.contains(
                AlbumTrack {
                    disc: described.disc->0,
                    position: described.position->0,
                    track: track->0,
                },
            )
            &&& described.disc is None && described.position is Some ==> list.contains(
                AlbumTrack { disc: 1, position: described.position->0, track: track->0 },
            )
            &&& described.disc is Some && described.position is None && i < u32::MAX
                ==> list.contains(
                AlbumTrack {
                    disc: described.disc->0,
                    position: (i + 1) as u32,
                    track: track->0,
                },
            )
            &&& described.disc is None && described.position is None && i < u32::MAX
                ==> list.contains(
                AlbumTrack { disc: 1, position: (i + 1) as u32, track: track->0 },
            )
            &&& list.contains(entry) ==> exists|k: int|
                0 <= k < listing.tracks.len() && after.bound(
                    EntityKind::Track,
                    (#[trigger] listing.tracks[k]).source,
                ) == Some(entry.track) && (listing.tracks[k].disc is Some ==> entry.disc
                    == listing.tracks[k].disc->0) && (listing.tracks[k].position is Some
                    ==> entry.position == listing.tracks[k].position->0)
        }),
{
    let (after, album) = ingested_listing(model, listing, album_ids, track_ids, now)->Ok_0;
    let middle = ingested_album(model, listing.album, album_ids, now)->Ok_0.0;
    let (filled, entries) = ingested_entries(middle, listing.tracks, track_ids, now)->Ok_0;
    entries_say_where_tracks_are(middle, listing.tracks, track_ids, now);
    assert(after == filled.with_tracklist(album, entries));
    assert forall|k: int| 0 <= k < listing.tracks.len() implies after.bound(
        EntityKind::Track,
        (#[trigger] listing.tracks[k]).source,
    ) == Some(entries[k].track) by {
        assert(filled.bound(EntityKind::Track, listing.tracks[k].source) == Some(
            entries[k].track,
        ));
        assert(after.bindings == filled.bindings);
    }
    set_entries_are_listed(filled, album, entries, entries[i]);
    assert(entries.contains(entries[i]));
    assert(entries[i].disc == disc_of(listing.tracks[i]));
    set_entries_are_listed(filled, album, entries, entry);
    if after.tracklist(album).contains(entry) {
        let k = choose|k: int| 0 <= k < entries.len() && entries[k] == entry;
        assert(entries[k].disc == disc_of(listing.tracks[k]));
        assert(after.bound(EntityKind::Track, listing.tracks[k].source) == Some(entry.track));
    }
}

proof fn set_entries_are_listed(
    model: StoreModel,
    album: EntityId,
    entries: Seq<AlbumTrack>,
    entry: AlbumTrack,
)
    requires
        model.with_tracklist(album, entries).slots.len() <= usize::MAX,
    ensures
        model.with_tracklist(album, entries).tracklist(album).contains(entry) <==> entries.contains(
            entry,
        ),
{
    let after = model.with_tracklist(album, entries);
    let (kept, left) = resettled(model.slots, album, entries);
    resettling_seats_the_entries(model.slots, album, entries);
    crate::showing::a_tracklist_lists_the_albums_slots(after, album, entry);
    let slot = Slot { album, disc: entry.disc, position: entry.position, track: entry.track };
    let new = crate::tracklist::slot_entries(album, left);
    if entries.contains(entry) {
        if left.contains(entry) {
            let j = choose|j: int| 0 <= j < left.len() && left[j] == entry;
            assert(after.slots[kept.len() + j] == new[j]);
        } else {
            let j = choose|j: int| 0 <= j < kept.len() && kept[j] == slot_entry(album, entry);
            assert(after.slots[j] == kept[j]);
        }
        assert(after.slots.contains(slot));
    }
    if after.slots.contains(slot) {
        let j = choose|j: int| 0 <= j < after.slots.len() && after.slots[j] == slot;
        if j < kept.len() {
            assert(kept[j] == slot);
            assert(crate::tracklist::listed(kept[j]) == entry);
        } else {
            assert(new[j - kept.len()] == slot);
            assert(left[j - kept.len()] == entry);
        }
    }
}

proof fn no_entry_is_refused(
    model: StoreModel,
    album: EntityId,
    entries: Seq<AlbumTrack>,
    n: int,
)
    requires
        0 <= n <= entries.len(),
        model.album_at(album) is Some,
        forall|i: int| 0 <= i < entries.len() ==> model.track_at(
            (#[trigger] entries[i]).track,
        ) is Some,
        forall|i: int, j: int|
            0 <= i < j < entries.len() ==> (#[trigger] entries[i]).disc != (
            #[trigger] entries[j]).disc || entries[i].position != entries[j].position,
    ensures
        model.tracklist_refusal(album, entries, n) is None,
    decreases n,
{
    if n > 0 {
        no_entry_is_refused(model, album, entries, n - 1);
        assert(model.track_at(entries[n - 1].track) is Some);
    }
}

/// A listing whose tracks all stand in places of their own is taken in: where the sources have keys
/// and the ids drawn are new, nothing refuses it, whatever discs and positions it counts by.
pub proof fn a_listing_of_places_apart_is_taken_in(
    model: StoreModel,
    listing: AlbumListingView,
    album_ids: Seq<EntityId>,
    track_ids: Seq<Seq<EntityId>>,
    now: i64,
)
    requires
        well_kept(model),
        album_needs(listing.album) <= album_ids.len(),
        listing.tracks.len() <= track_ids.len(),
        listing.tracks.len() <= u32::MAX,
        forall|i: int|
            0 <= i < listing.tracks.len() ==> track_needs(#[trigger] listing.tracks[i])
                <= track_ids[i].len(),
        album_has_keys(listing.album),
        forall|i: int| 0 <= i < listing.tracks.len() ==> track_has_keys(#[trigger] listing.tracks[i]),
        are_new(model, album_ids),
        all_new(model, track_ids),
        forall|i: int, y: EntityId|
            0 <= i < track_ids.len() && #[trigger] track_ids[i].contains(y)
                ==> !album_ids.contains(y),
        forall|i: int, j: int|
            0 <= i < j < listing.tracks.len() ==> (match (#[trigger] listing.tracks[i]).disc {
                Some(disc) => disc,
                None => 1u32,
            }) != (match (#[trigger] listing.tracks[j]).disc {
                Some(disc) => disc,
                None => 1u32,
            }) || (match listing.tracks[i].position {
                Some(position) => position as int,
                None => i + 1,
            }) != (match listing.tracks[j].position {
                Some(position) => position as int,
                None => j + 1,
            }),
    ensures
        ingested_listing(model, listing, album_ids, track_ids, now) is Ok,
        well_kept(ingested_listing(model, listing, album_ids, track_ids, now)->Ok_0.0),
{
    an_album_arrives(model, listing.album, album_ids, now);
    let (middle, album) = ingested_album(model, listing.album, album_ids, now)->Ok_0;
    assert(all_new(middle, track_ids)) by {
        assert forall|i: int| 0 <= i < track_ids.len() implies are_new(
            middle,
            #[trigger] track_ids[i],
        ) by {
            assert(are_new(model, track_ids[i]));
            assert forall|k: int| 0 <= k < track_ids[i].len() implies middle.unused(
                #[trigger] track_ids[i][k],
            ) by {
                let y = track_ids[i][k];
                assert(model.unused(y));
                assert(track_ids[i].contains(y));
                assert(!album_ids.contains(y));
                let used = album_ids.take(album_needs(listing.album));
                if used.contains(y) {
                    let l = choose|l: int| 0 <= l < used.len() && used[l] == y;
                    assert(album_ids[l] == y);
                }
            }
        }
    }
    entries_arrive(middle, listing.tracks, track_ids, now);
    entries_say_where_tracks_are(middle, listing.tracks, track_ids, now);
    let (filled, entries) = ingested_entries(middle, listing.tracks, track_ids, now)->Ok_0;
    assert(filled.album_at(album) is Some);
    assert forall|i: int, j: int| 0 <= i < j < entries.len() implies (#[trigger] entries[i]).disc
        != (#[trigger] entries[j]).disc || entries[i].position != entries[j].position by {
        assert(entries[i].disc == disc_of(listing.tracks[i]));
        assert(entries[j].disc == disc_of(listing.tracks[j]));
        assert(entries[i].position == position_of(listing.tracks[i], i));
        assert(entries[j].position == position_of(listing.tracks[j], j));
    }
    no_entry_is_refused(filled, album, entries, entries.len() as int);
    let after = filled.with_tracklist(album, entries);
    crate::integrity::setting_a_tracklist_keeps_the_tables_sound(filled, album, entries);
    names_stay(filled, after);
}

/// A listing that puts two tracks in one place is refused, and nothing of it is taken in.
pub proof fn a_listing_with_a_place_taken_twice_is_refused(
    model: StoreModel,
    listing: AlbumListingView,
    album_ids: Seq<EntityId>,
    track_ids: Seq<Seq<EntityId>>,
    now: i64,
    i: int,
    j: int,
)
    requires
        0 <= i < j < listing.tracks.len(),
        listing.tracks[i].disc is Some,
        listing.tracks[i].disc == listing.tracks[j].disc,
        listing.tracks[i].position is Some,
        listing.tracks[i].position == listing.tracks[j].position,
    ensures
        ingested_listing(model, listing, album_ids, track_ids, now) is Err,
{
    if ingested_listing(model, listing, album_ids, track_ids, now) is Ok {
        let (middle, album) = ingested_album(model, listing.album, album_ids, now)->Ok_0;
        entries_say_where_tracks_are(middle, listing.tracks, track_ids, now);
        let (filled, entries) = ingested_entries(middle, listing.tracks, track_ids, now)->Ok_0;
        assert(entries[i].disc == disc_of(listing.tracks[i]));
        assert(entries[j].disc == disc_of(listing.tracks[j]));
        a_place_taken_twice_is_refused(filled, album, entries, entries.len() as int, i, j);
    }
}

proof fn a_place_taken_twice_is_refused(
    model: StoreModel,
    album: EntityId,
    entries: Seq<AlbumTrack>,
    n: int,
    i: int,
    j: int,
)
    requires
        0 <= i < j < n <= entries.len(),
        entries[i].disc == entries[j].disc,
        entries[i].position == entries[j].position,
    ensures
        model.tracklist_refusal(album, entries, n) is Some,
    decreases n,
{
    if n - 1 == j {
        assert(same_slot(entries[i], entries[j]));
    } else {
        a_place_taken_twice_is_refused(model, album, entries, n - 1, i, j);
    }
}

// --- what is kept of a track and of an album ---

/// A track new to the library is kept as it was described: its title, its length, its ISRC, as many
/// artists as it credits, and where it is from.
pub proof fn a_new_track_is_kept_as_described(
    model: StoreModel,
    described: SourceTrackView,
    ids: Seq<EntityId>,
    now: i64,
)
    requires
        well_kept(model),
        track_needs(described) <= ids.len(),
        model.bound(EntityKind::Track, described.source) is None,
        described.isrc is Some ==> model.tracks_with_isrc(described.isrc->0).len() == 0,
        ingested_track(model, described, ids, now) is Ok,
    ensures
        ({
            let (after, id) = ingested_track(model, described, ids, now)->Ok_0;
            let kept = after.track(id)->0;
            &&& id == ids[0]
            &&& after.track(id) is Some
            &&& kept.title == described.title
            &&& described.duration_ms is Some && described.duration_ms->0 <= i64::MAX
                ==> kept.duration_ms == described.duration_ms
            &&& described.duration_ms is None ==> kept.duration_ms is None
            &&& described.isrc is Some ==> kept.isrcs == seq![described.isrc->0]
            &&& described.isrc is None ==> kept.isrcs.len() == 0
            &&& kept.artists.len() == described.artists.len()
            &&& kept.artists == ingested_artists(model, described.artists, ids.skip(1), now)->Ok_0.1
            &&& kept.credit == credit_of(described.artists)
            &&& after.bound(EntityKind::Track, described.source) == Some(id)
            &&& after.tracks.len() == model.tracks.len() + 1
        }),
{
    a_track_arrives(model, described, ids, now);
    an_ingested_key_names_its_track(model, described, ids, now);
    let rest = ids.skip(1);
    artists_arrive(model, described.artists, rest, now);
    let (credited, artists) = ingested_artists(model, described.artists, rest, now)->Ok_0;
    let track = new_track(described, artists);
    crate::readback::a_track_reads_back(credited, ids[0], track, ids[0]);
    assert(track.isrcs.no_duplicates());
    crate::readback::nothing_twice_is_left_alone(track.isrcs);
    let added = credited.with_track(ids[0], track);
    an_added_track_is_well_kept(credited, ids[0], track);
    artists_bind_only_artists(
        model,
        described.artists,
        rest,
        now,
        EntityKind::Track,
        described.source,
    );
    assert(added.bound(EntityKind::Track, described.source) is None);
    let binding = direct(described.source);
    a_binding_of_what_is_there_is_well_kept(added, EntityKind::Track, ids[0], binding, now);
    let bound = added.with_binding(EntityKind::Track, ids[0], binding, now);
    if described.album is Some {
        an_album_arrives(
            bound,
            described.album->0,
            ids.skip(1 + described.artists.len() as int),
            now,
        );
    }
    let after = ingested_track(model, described, ids, now)->Ok_0.0;
    assert(after.tracks == added.tracks && after.isrcs == added.isrcs);
    assert(after.track(ids[0]) == added.track(ids[0]));
}

/// A track that says which album it is on, and where, stands there on that album.
pub proof fn a_track_with_a_place_stands_on_its_album(
    model: StoreModel,
    described: SourceTrackView,
    ids: Seq<EntityId>,
    now: i64,
) -> (album: EntityId)
    requires
        well_kept(model),
        track_needs(described) <= ids.len(),
        model.bound(EntityKind::Track, described.source) is None,
        described.album is Some,
        described.disc is Some,
        described.position is Some,
        ingested_track(model, described, ids, now) is Ok,
    ensures
        ({
            let (after, id) = ingested_track(model, described, ids, now)->Ok_0;
            &&& after.slots.contains(
                Slot {
                    album,
                    disc: described.disc->0,
                    position: described.position->0,
                    track: id,
                },
            )
            &&& after.album_at(album) is Some
            &&& described.album->0.source is Some ==> after.bound(
                EntityKind::Album,
                described.album->0.source->0,
            ) == Some(album)
            &&& described.album->0.title.len() > 0 ==> after.album(album)->0.title
                == described.album->0.title
        }),
{
    a_track_arrives(model, described, ids, now);
    let matched = isrc_match(model, described);
    if matched is Some {
        a_matched_recording_is_there(model, described);
    }
    let rest = ids.skip(1);
    artists_arrive(model, described.artists, rest, now);
    let (credited, artists) = ingested_artists(model, described.artists, rest, now)->Ok_0;
    let track = match matched {
        Some(track) => track,
        None => ids[0],
    };
    let binding = match matched {
        Some(_) => by_isrc(described.source),
        None => direct(described.source),
    };
    let added = match matched {
        Some(_) => credited,
        None => credited.with_track(track, new_track(described, artists)),
    };
    if matched is None {
        an_added_track_is_well_kept(credited, track, new_track(described, artists));
    }
    artists_bind_only_artists(
        model,
        described.artists,
        rest,
        now,
        EntityKind::Track,
        described.source,
    );
    assert(added.bound(EntityKind::Track, described.source) is None);
    a_binding_of_what_is_there_is_well_kept(added, EntityKind::Track, track, binding, now);
    let bound = added.with_binding(EntityKind::Track, track, binding, now);
    let later = ids.skip(1 + described.artists.len() as int);
    let about = described.album->0;
    an_album_arrives(bound, about, later, now);
    an_album_is_kept_as_described(bound, about, later, now);
    let (filled, album) = ingested_album(bound, about, later, now)->Ok_0;
    let entry = AlbumTrack { disc: described.disc->0, position: described.position->0, track };
    let after = filled.with_placed(album, entry);
    let slot = slot_entry(album, entry);
    assert(after.slots.contains(slot)) by {
        if !filled.slots.contains(slot) {
            assert(after.slots.last() == slot);
            assert(after.slots[after.slots.len() - 1] == slot);
        }
    }
    album
}

/// An album is kept as it was described: what is said of it replaces what was known, what is left
/// out stays as it was, and where it is from names it from then on.
pub proof fn an_album_is_kept_as_described(
    model: StoreModel,
    described: SourceAlbumView,
    ids: Seq<EntityId>,
    now: i64,
)
    requires
        well_kept(model),
        album_needs(described) <= ids.len(),
        ingested_album(model, described, ids, now) is Ok,
    ensures
        ({
            let (after, id) = ingested_album(model, described, ids, now)->Ok_0;
            let kept = after.album(id)->0;
            let known = if described.source is Some {
                model.bound(EntityKind::Album, described.source->0)
            } else {
                None
            };
            let was = model.album(known->0)->0;
            &&& after.album(id) is Some
            &&& known is Some ==> id == known->0
            &&& known is None ==> id == ids[0]
            &&& described.source is Some ==> after.bound(EntityKind::Album, described.source->0)
                == Some(id)
            &&& described.title.len() > 0 || known is None ==> kept.title == described.title
            &&& described.title.len() == 0 && known is Some ==> kept.title == was.title
            &&& described.release_date is Some || known is None ==> kept.release_date
                == described.release_date
            &&& described.release_date is None && known is Some ==> kept.release_date
                == was.release_date
            &&& described.barcode is Some || known is None ==> kept.barcode == described.barcode
            &&& described.barcode is None && known is Some ==> kept.barcode == was.barcode
            &&& described.artwork_url is Some || known is None ==> kept.artwork_url
                == described.artwork_url
            &&& described.artwork_url is None && known is Some ==> kept.artwork_url
                == was.artwork_url
            &&& described.artists.len() > 0 || known is None ==> kept.artists.len()
                == described.artists.len() && kept.artists == ingested_artists(
                model,
                described.artists,
                ids.skip(1),
                now,
            )->Ok_0.1 && kept.credit == credit_of(described.artists)
            &&& described.artists.len() == 0 && known is Some ==> kept.artists == was.artists
                && kept.credit == was.credit
        }),
{
    let rest = ids.skip(1);
    an_album_arrives(model, described, ids, now);
    artists_arrive(model, described.artists, rest, now);
    let (after, id) = ingested_album(model, described, ids, now)->Ok_0;
    let (credited, artists) = ingested_artists(model, described.artists, rest, now)->Ok_0;
    let known = if described.source is Some {
        model.bound(EntityKind::Album, described.source->0)
    } else {
        None
    };
    if known is Some {
        what_a_key_names_is_there(model, EntityKind::Album, described.source->0);
        let was = model.album(known->0)->0;
        let more = merged(was, described, artists);
        artists_bind_only_artists(
            model,
            described.artists,
            rest,
            now,
            EntityKind::Album,
            described.source->0,
        );
        if more != was {
            crate::readback::an_updated_album_reads_back(credited, id, more, id);
        } else {
            assert(after.album(id)->0 == more);
        }
    } else {
        let album = new_album(described, artists);
        let added = credited.with_album(ids[0], album);
        crate::readback::an_album_reads_back(credited, ids[0], album, ids[0]);
        if described.source is Some {
            a_bound_key_names_the_entity(
                added,
                EntityKind::Album,
                ids[0],
                direct(described.source->0),
                now,
            );
        }
    }
}

/// The credit of several artists is their names in order, with a comma and a space between.
pub proof fn a_credit_names_the_artists_in_order(
    artists: Seq<SourceArtistView>,
    more: SourceArtistView,
)
    ensures
        credit_of(Seq::empty()) == Seq::<char>::empty(),
        credit_of(seq![more]) == more.name,
        artists.len() > 0 ==> credit_of(artists.push(more)) == credit_of(artists) + ", "@
            + more.name,
{
    let f = |a: SourceArtistView| a.name;
    assert(Seq::<SourceArtistView>::empty().map_values(f) =~= Seq::empty());
    assert(seq![more].map_values(f) =~= seq![more.name]);
    assert(artists.push(more).map_values(f) =~= artists.map_values(f).push(more.name));
    crate::text::joining_one_more(artists.map_values(f), more.name, ", "@);
}

/// The artists credited are those their keys name, in the order credited; one the service gives no
/// key for is new each time, and a new one is called what the service calls it.
pub proof fn credited_artists_are_those_named(
    model: StoreModel,
    described: Seq<SourceArtistView>,
    ids: Seq<EntityId>,
    now: i64,
)
    requires
        ingested_artists(model, described, ids, now) is Ok,
    ensures
        ({
            let (after, found) = ingested_artists(model, described, ids, now)->Ok_0;
            &&& found.len() == described.len()
            &&& forall|i: int|
                0 <= i < described.len() ==> {
                    let one = #[trigger] described[i];
                    &&& one.source is Some ==> after.bound(EntityKind::Artist, one.source->0)
                        == Some(found[i])
                    &&& one.source is None ==> found[i] == ids[i] && after.artist(ids[i]) is Some
                        && after.artist(ids[i])->0.name == one.name
                }
        }),
    decreases described.len(),
{
    if described.len() > 0 {
        let n = described.len() - 1;
        let before = described.drop_last();
        credited_artists_are_those_named(model, before, ids, now);
        let (so_far, found) = ingested_artists(model, before, ids, now)->Ok_0;
        let (after, all) = ingested_artists(model, described, ids, now)->Ok_0;
        let last = described.last();
        crate::growth::an_artist_loses_nothing(so_far, last, ids[n], now);
        let added = so_far.with_artist(ids[n], named_artist(last.name));
        if last.source is Some {
            if so_far.bound(EntityKind::Artist, last.source->0) is None {
                a_bound_key_names_the_entity(
                    added,
                    EntityKind::Artist,
                    ids[n],
                    direct(last.source->0),
                    now,
                );
            }
        } else {
            first_at_matches(so_far.artists, artist_is(ids[n]));
            first_at_push(so_far.artists, added.artists.last(), artist_is(ids[n]));
        }
        assert forall|i: int| 0 <= i < described.len() implies ({
            let one = #[trigger] described[i];
            &&& one.source is Some ==> after.bound(EntityKind::Artist, one.source->0) == Some(
                all[i],
            )
            &&& one.source is None ==> all[i] == ids[i] && after.artist(ids[i]) is Some
                && after.artist(ids[i])->0.name == one.name
        }) by {
            if i < n {
                assert(before[i] == described[i]);
                if described[i].source is Some {
                    growth_keeps_bindings(
                        so_far,
                        after,
                        EntityKind::Artist,
                        described[i].source->0,
                    );
                } else {
                    crate::growth::a_prefix_keeps_what_is_found(
                        so_far.artists,
                        after.artists,
                        artist_is(ids[i]),
                    );
                    first_at_matches(so_far.artists, artist_is(ids[i]));
                    let at = so_far.artist_at(ids[i])->0;
                    assert(after.artists[at] == so_far.artists[at]);
                }
            }
        }
    }
}

/// An artist new to the library is called what the service calls it.
pub proof fn a_new_artist_is_called_as_described(
    model: StoreModel,
    described: SourceArtistView,
    id: EntityId,
    now: i64,
)
    requires
        described.source is Some ==> model.bound(EntityKind::Artist, described.source->0) is None,
        ingested_artist(model, described, id, now) is Ok,
    ensures
        ({
            let (after, found) = ingested_artist(model, described, id, now)->Ok_0;
            &&& found == id
            &&& after.artists.len() == model.artists.len() + 1
            &&& after.artist(id) is Some
            &&& after.artist(id)->0.name == described.name
        }),
{
    let added = model.with_artist(id, named_artist(described.name));
    first_at_matches(model.artists, artist_is(id));
    first_at_push(model.artists, added.artists.last(), artist_is(id));
}

} // verus!
