//! Taking in many things at once: what a search found, what a service lists for an artist, its
//! radio and mixes, and everything the user keeps there. All of an intake happens or none of it
//! does.

use vstd::prelude::*;

use crate::binding::{key_of, no_key, now_ms};
use crate::catalog::{
    described_view, favorites_view, releases_view, source_playlists_view, ArtistListing,
    ArtistListingView, Favorite, Favorites, SearchResults, SearchResultsView, SourcePlaylist,
    SourcePlaylistView,
};
use crate::error::{ErrorView, Result};
use crate::id::EntityId;
use crate::ingest::{
    album_needs, direct, draw_ids, ids_for_album, ids_for_track, ingested_album, ingested_artist,
    ingested_track, supplies, track_needs, Ingested,
};
use crate::model::{Binding, EntityKind};
use crate::shelf::PlaylistEdit;
use crate::store::{dangling, no_such, not_found, PlaylistEntry, Store, StoreModel};
use crate::track::{
    credits_view, SourceAlbum, SourceAlbumView, SourceArtist, SourceArtistView, SourceTrack,
    SourceTrackView,
};
use crate::view::{
    album_views_view, artist_views_view, track_views_view, AlbumShown, AlbumView, ArtistDetail,
    ArtistDetailShown, ArtistShown, ArtistView, ImportReport, SearchShown, SearchView, TrackShown,
    TrackView,
};

verus! {

/// An intake led from `before` to `after` and came to `end`; a failure left the tables as they
/// were.
pub open spec fn led<T>(
    way: Ingested<T>,
    before: StoreModel,
    after: StoreModel,
    end: std::result::Result<T, ErrorView>,
) -> bool {
    match end {
        Ok(value) => way == Ok::<(StoreModel, T), ErrorView>((after, value)),
        Err(why) => way == Err::<(StoreModel, T), ErrorView>(why) && after == before,
    }
}

/// A step of an intake led to `after` and came to `end`; what a failure leaves behind is not said.
pub open spec fn went<T>(
    way: Ingested<T>,
    after: StoreModel,
    end: std::result::Result<T, ErrorView>,
) -> bool {
    match end {
        Ok(value) => way == Ok::<(StoreModel, T), ErrorView>((after, value)),
        Err(why) => way == Err::<(StoreModel, T), ErrorView>(why),
    }
}

/// `step` taken for each of `items` in order, with what each came to, up to the first failure.
pub open spec fn each<D, T>(
    model: StoreModel,
    items: Seq<D>,
    step: spec_fn(StoreModel, D, int) -> Ingested<T>,
) -> Ingested<Seq<T>>
    decreases items.len(),
{
    if items.len() == 0 {
        Ok((model, Seq::empty()))
    } else {
        match each(model, items.drop_last(), step) {
            Err(why) => Err(why),
            Ok((so_far, out)) => match step(so_far, items.last(), items.len() - 1) {
                Err(why) => Err(why),
                Ok((after, value)) => Ok((after, out.push(value))),
            },
        }
    }
}

/// Once one step fails, the whole fails for the same reason.
proof fn a_failure_stands<D, T>(
    model: StoreModel,
    items: Seq<D>,
    step: spec_fn(StoreModel, D, int) -> Ingested<T>,
    n: int,
)
    requires
        0 <= n <= items.len(),
        each(model, items.take(n), step) is Err,
    ensures
        each(model, items, step) == each(model, items.take(n), step),
    decreases items.len() - n,
{
    if n < items.len() {
        assert(items.take(n + 1).drop_last() =~= items.take(n));
        a_failure_stands(model, items, step, n + 1);
    } else {
        assert(items.take(n) =~= items);
    }
}

/// What is there of `all`, in order.
pub open spec fn present<T>(all: Seq<Option<T>>) -> Seq<T>
    decreases all.len(),
{
    if all.len() == 0 {
        Seq::empty()
    } else {
        match all.last() {
            Some(value) => present(all.drop_last()).push(value),
            None => present(all.drop_last()),
        }
    }
}

proof fn present_push<T>(all: Seq<Option<T>>, more: Option<T>)
    ensures
        present(all.push(more)) == match more {
            Some(value) => present(all).push(value),
            None => present(all),
        },
{
    assert(all.push(more).drop_last() =~= all);
}

/// The library album a described track sits on, if the description names one it has.
pub open spec fn described_album(
    model: StoreModel,
    described: SourceTrackView,
) -> std::result::Result<Option<EntityId>, ErrorView> {
    match described.album {
        Some(album) => match album.source {
            Some(source) => if key_of(source) is None {
                Err(no_key(source))
            } else {
                Ok(model.bound(EntityKind::Album, source))
            },
            None => Ok(None),
        },
        None => Ok(None),
    }
}

/// A described track taken in and shown where its description puts it.
pub open spec fn shown_track(
    model: StoreModel,
    described: SourceTrackView,
    ids: Seq<EntityId>,
    now: i64,
) -> Ingested<Option<TrackShown>> {
    match ingested_track(model, described, ids, now) {
        Err(why) => Err(why),
        Ok((after, id)) => match described_album(after, described) {
            Err(why) => Err(why),
            Ok(on) => Ok((after, after.track_shown(id, on))),
        },
    }
}

/// A described album taken in and shown.
pub open spec fn shown_album(
    model: StoreModel,
    described: SourceAlbumView,
    ids: Seq<EntityId>,
    now: i64,
) -> Ingested<Option<AlbumShown>> {
    match ingested_album(model, described, ids, now) {
        Err(why) => Err(why),
        Ok((after, id)) => Ok((after, after.album_shown(id))),
    }
}

/// A described artist taken in and shown.
pub open spec fn shown_artist(
    model: StoreModel,
    described: SourceArtistView,
    id: EntityId,
    now: i64,
) -> Ingested<Option<ArtistShown>> {
    match ingested_artist(model, described, id, now) {
        Err(why) => Err(why),
        Ok((after, found)) => Ok((after, after.artist_shown(found))),
    }
}

/// Something taken in, saved as of when it was marked, or as of `now`.
pub open spec fn kept(way: Ingested<EntityId>, added_ms: Option<i64>, now: i64) -> Ingested<
    EntityId,
> {
    match way {
        Err(why) => Err(why),
        Ok((after, id)) => match after.save_refusal(id) {
            Some(why) => Err(why),
            None => Ok(
                (
                    after.with_saved(
                        id,
                        match added_ms {
                            Some(at) => at,
                            None => now,
                        },
                    ),
                    id,
                ),
            ),
        },
    }
}

pub open spec fn track_step(ids: Seq<Seq<EntityId>>, now: i64) -> spec_fn(
    StoreModel,
    SourceTrackView,
    int,
) -> Ingested<EntityId> {
    |m: StoreModel, d: SourceTrackView, i: int| ingested_track(m, d, ids[i], now)
}

pub open spec fn show_track_step(ids: Seq<Seq<EntityId>>, now: i64) -> spec_fn(
    StoreModel,
    SourceTrackView,
    int,
) -> Ingested<Option<TrackShown>> {
    |m: StoreModel, d: SourceTrackView, i: int| shown_track(m, d, ids[i], now)
}

pub open spec fn show_album_step(ids: Seq<Seq<EntityId>>, now: i64) -> spec_fn(
    StoreModel,
    SourceAlbumView,
    int,
) -> Ingested<Option<AlbumShown>> {
    |m: StoreModel, d: SourceAlbumView, i: int| shown_album(m, d, ids[i], now)
}

pub open spec fn show_artist_step(ids: Seq<EntityId>, now: i64) -> spec_fn(
    StoreModel,
    SourceArtistView,
    int,
) -> Ingested<Option<ArtistShown>> {
    |m: StoreModel, d: SourceArtistView, i: int| shown_artist(m, d, ids[i], now)
}

pub open spec fn keep_track_step(ids: Seq<Seq<EntityId>>, now: i64) -> spec_fn(
    StoreModel,
    Favorite<SourceTrackView>,
    int,
) -> Ingested<EntityId> {
    |m: StoreModel, f: Favorite<SourceTrackView>, i: int|
        kept(ingested_track(m, f.item, ids[i], now), f.added_ms, now)
}

pub open spec fn keep_album_step(ids: Seq<Seq<EntityId>>, now: i64) -> spec_fn(
    StoreModel,
    Favorite<SourceAlbumView>,
    int,
) -> Ingested<EntityId> {
    |m: StoreModel, f: Favorite<SourceAlbumView>, i: int|
        kept(ingested_album(m, f.item, ids[i], now), f.added_ms, now)
}

pub open spec fn keep_artist_step(ids: Seq<EntityId>, now: i64) -> spec_fn(
    StoreModel,
    Favorite<SourceArtistView>,
    int,
) -> Ingested<EntityId> {
    |m: StoreModel, f: Favorite<SourceArtistView>, i: int|
        kept(ingested_artist(m, f.item, ids[i], now), f.added_ms, now)
}

/// The identifiers drawn for an intake: some for each track and each album, one for each artist.
#[derive(Debug, PartialEq, Eq)]
pub struct Supply {
    pub tracks: Vec<Vec<EntityId>>,
    pub albums: Vec<Vec<EntityId>>,
    pub artists: Vec<EntityId>,
}

/// The identifiers in a [`Supply`].
pub struct SupplyModel {
    pub tracks: Seq<Seq<EntityId>>,
    pub albums: Seq<Seq<EntityId>>,
    pub artists: Seq<EntityId>,
}

impl View for Supply {
    type V = SupplyModel;

    open spec fn view(&self) -> SupplyModel {
        SupplyModel {
            tracks: supplies(self.tracks@),
            albums: supplies(self.albums@),
            artists: self.artists@,
        }
    }
}

/// Whether `ids` holds enough for each of `tracks`.
pub open spec fn serves_tracks(ids: Seq<Seq<EntityId>>, tracks: Seq<SourceTrackView>) -> bool {
    ids.len() == tracks.len() && forall|i: int|
        0 <= i < tracks.len() ==> track_needs(#[trigger] tracks[i]) <= ids[i].len()
}

/// Whether `ids` holds enough for each of `albums`.
pub open spec fn serves_albums(ids: Seq<Seq<EntityId>>, albums: Seq<SourceAlbumView>) -> bool {
    ids.len() == albums.len() && forall|i: int|
        0 <= i < albums.len() ==> album_needs(#[trigger] albums[i]) <= ids[i].len()
}

/// Whether what each of `tracks` needs can be counted.
pub open spec fn countable_tracks(tracks: Seq<SourceTrackView>) -> bool {
    forall|i: int| 0 <= i < tracks.len() ==> track_needs(#[trigger] tracks[i]) <= usize::MAX
}

/// Whether what each of `albums` needs can be counted.
pub open spec fn countable_albums(albums: Seq<SourceAlbumView>) -> bool {
    forall|i: int| 0 <= i < albums.len() ==> album_needs(#[trigger] albums[i]) <= usize::MAX
}

/// Whether `ids` holds enough for what a search found.
pub open spec fn serves_search(ids: SupplyModel, found: SearchResultsView) -> bool {
    &&& serves_tracks(ids.tracks, found.tracks)
    &&& serves_albums(ids.albums, found.albums)
    &&& ids.artists.len() == found.artists.len()
}

/// Whether `ids` holds enough for what a service lists for an artist.
pub open spec fn serves_artist(ids: SupplyModel, listing: ArtistListingView) -> bool {
    &&& serves_tracks(ids.tracks, listing.top_tracks)
    &&& serves_albums(ids.albums, listing.albums)
    &&& ids.artists.len() == 1
}

/// Whether `ids` holds enough for what the user marked.
pub open spec fn serves_favorites(ids: SupplyModel, favorites: FavoritesView) -> bool {
    &&& serves_tracks(ids.tracks, items(favorites.tracks))
    &&& serves_albums(ids.albums, items(favorites.albums))
    &&& ids.artists.len() == favorites.artists.len()
}

/// Whether the identifiers drawn are enough for each of `playlists`.
pub open spec fn serves_playlists(
    ids: Seq<EntityId>,
    track_ids: Seq<Seq<Seq<EntityId>>>,
    playlists: Seq<SourcePlaylistView>,
) -> bool {
    &&& ids.len() == playlists.len()
    &&& track_ids.len() == playlists.len()
    &&& forall|i: int|
        0 <= i < playlists.len() ==> serves_tracks(track_ids[i], (#[trigger] playlists[i]).tracks)
}

/// What a search found, taken in and shown, so that each result has an id to play, save or open.
pub open spec fn searched(
    model: StoreModel,
    found: SearchResultsView,
    ids: SupplyModel,
    now: i64,
) -> Ingested<SearchShown> {
    match each(model, found.tracks, show_track_step(ids.tracks, now)) {
        Err(why) => Err(why),
        Ok((heard, tracks)) => match each(
            heard,
            found.albums,
            show_album_step(ids.albums, now),
        ) {
            Err(why) => Err(why),
            Ok((shelved, albums)) => match each(
                shelved,
                found.artists,
                show_artist_step(ids.artists, now),
            ) {
                Err(why) => Err(why),
                Ok((after, artists)) => Ok(
                    (
                        after,
                        SearchShown {
                            tracks: present(tracks),
                            albums: present(albums),
                            artists: present(artists),
                        },
                    ),
                ),
            },
        },
    }
}

/// What a service lists for an artist, taken in and shown. The artist is `ids.artists[0]` if the
/// library doesn't know them.
pub open spec fn listed_artist(
    model: StoreModel,
    listing: ArtistListingView,
    ids: SupplyModel,
    now: i64,
) -> Ingested<ArtistDetailShown> {
    match ingested_artist(model, listing.artist, ids.artists[0], now) {
        Err(why) => Err(why),
        Ok((credited, id)) => match each(
            credited,
            listing.albums,
            show_album_step(ids.albums, now),
        ) {
            Err(why) => Err(why),
            Ok((shelved, albums)) => match each(
                shelved,
                listing.top_tracks,
                show_track_step(ids.tracks, now),
            ) {
                Err(why) => Err(why),
                Ok((after, tracks)) => match after.artist_shown(id) {
                    None => Err(not_found("artist "@, id)),
                    Some(artist) => Ok(
                        (
                            after,
                            ArtistDetailShown {
                                artist,
                                albums: present(albums),
                                top_tracks: present(tracks),
                            },
                        ),
                    ),
                },
            },
        },
    }
}

/// Why the playlist `id` cannot be made to hold exactly `tracks`, if it cannot.
pub open spec fn replace_refusal(
    model: StoreModel,
    id: EntityId,
    tracks: Seq<EntityId>,
) -> Option<ErrorView> {
    if model.playlist_at(id) is None {
        Some(not_found("playlist "@, id))
    } else if !model.are_tracks(tracks) {
        Some(dangling())
    } else {
        None
    }
}

/// The tables with the playlist `id` holding exactly `tracks`.
pub open spec fn with_playlist_replaced(
    model: StoreModel,
    id: EntityId,
    tracks: Seq<EntityId>,
    now: i64,
) -> StoreModel {
    let i = model.playlist_at(id)->0;
    StoreModel {
        playlists: model.playlists.update(
            i,
            PlaylistEntry { updated_at: now, tracks, ..model.playlists[i] },
        ),
        ..model
    }
}

/// A playlist a service keeps made here, as `id`, and bound to it.
pub open spec fn made_playlist(
    model: StoreModel,
    playlist: SourcePlaylistView,
    id: EntityId,
    tracks: Seq<EntityId>,
    now: i64,
) -> Ingested<EntityId> {
    match model.playlist_refusal(id, tracks) {
        Some(why) => Err(why),
        None => {
            let made = model.with_playlist(id, playlist.name, tracks, now);
            match made.bind_refusal(EntityKind::Playlist, id, playlist.source) {
                Some(why) => Err(why),
                None => Ok(
                    (
                        made.with_binding(
                            EntityKind::Playlist,
                            id,
                            direct(playlist.source),
                            now,
                        ),
                        id,
                    ),
                ),
            }
        },
    }
}

/// A service's playlist brought in: the playlist bound to it brought up to date, or a new one,
/// `id`, bound to it. A binding to a playlist that was deleted since gives way to the new one.
pub open spec fn imported_playlist(
    model: StoreModel,
    playlist: SourcePlaylistView,
    id: EntityId,
    track_ids: Seq<Seq<EntityId>>,
    now: i64,
) -> Ingested<EntityId> {
    match each(model, playlist.tracks, track_step(track_ids, now)) {
        Err(why) => Err(why),
        Ok((filled, tracks)) => if key_of(playlist.source) is None {
            Err(no_key(playlist.source))
        } else {
            match filled.bound(EntityKind::Playlist, playlist.source) {
                Some(known) => if filled.playlist_at(known) is None {
                    made_playlist(
                        filled.without_binding(EntityKind::Playlist, playlist.source),
                        playlist,
                        id,
                        tracks,
                        now,
                    )
                } else {
                    let renamed = filled.with_playlist_renamed(known, playlist.name, now);
                    match replace_refusal(renamed, known, tracks) {
                        Some(why) => Err(why),
                        None => Ok((with_playlist_replaced(renamed, known, tracks, now), known)),
                    }
                },
                None => made_playlist(filled, playlist, id, tracks, now),
            }
        },
    }
}

pub open spec fn playlist_step(
    ids: Seq<EntityId>,
    track_ids: Seq<Seq<Seq<EntityId>>>,
    now: i64,
) -> spec_fn(StoreModel, SourcePlaylistView, int) -> Ingested<EntityId> {
    |m: StoreModel, p: SourcePlaylistView, i: int|
        imported_playlist(m, p, ids[i], track_ids[i], now)
}

/// What [`Favorites`] say.
pub struct FavoritesView {
    pub tracks: Seq<Favorite<SourceTrackView>>,
    pub albums: Seq<Favorite<SourceAlbumView>>,
    pub artists: Seq<Favorite<SourceArtistView>>,
}

impl View for Favorites {
    type V = FavoritesView;

    open spec fn view(&self) -> FavoritesView {
        FavoritesView {
            tracks: favorites_view(self.tracks@),
            albums: favorites_view(self.albums@),
            artists: favorites_view(self.artists@),
        }
    }
}

/// What the things marked are.
pub open spec fn items<T>(all: Seq<Favorite<T>>) -> Seq<T> {
    all.map_values(|f: Favorite<T>| f.item)
}

/// The identifiers drawn for the tracks of each of several playlists.
pub open spec fn playlist_supplies(ids: Seq<Vec<Vec<EntityId>>>) -> Seq<Seq<Seq<EntityId>>> {
    ids.map_values(|v: Vec<Vec<EntityId>>| supplies(v@))
}

/// Everything the user keeps on a service brought in: favorites saved as of when they were marked
/// there, playlists as playlists bound to theirs.
pub open spec fn imported(
    model: StoreModel,
    favorites: FavoritesView,
    playlists: Seq<SourcePlaylistView>,
    ids: SupplyModel,
    playlist_ids: Seq<EntityId>,
    playlist_tracks: Seq<Seq<Seq<EntityId>>>,
    now: i64,
) -> Ingested<ImportReport> {
    match each(model, favorites.tracks, keep_track_step(ids.tracks, now)) {
        Err(why) => Err(why),
        Ok((heard, _)) => match each(
            heard,
            favorites.albums,
            keep_album_step(ids.albums, now),
        ) {
            Err(why) => Err(why),
            Ok((shelved, _)) => match each(
                shelved,
                favorites.artists,
                keep_artist_step(ids.artists, now),
            ) {
                Err(why) => Err(why),
                Ok((credited, _)) => match each(
                    credited,
                    playlists,
                    playlist_step(playlist_ids, playlist_tracks, now),
                ) {
                    Err(why) => Err(why),
                    Ok((after, _)) => Ok(
                        (
                            after,
                            ImportReport {
                                tracks: favorites.tracks.len() as usize,
                                albums: favorites.albums.len() as usize,
                                artists: favorites.artists.len() as usize,
                                playlists: playlists.len() as usize,
                            },
                        ),
                    ),
                },
            },
        },
    }
}

/// What a list of ids that may have failed to come about says.
pub open spec fn ids_result(done: Result<Vec<EntityId>>) -> std::result::Result<
    Seq<EntityId>,
    ErrorView,
> {
    match done {
        Ok(ids) => Ok(ids@),
        Err(e) => Err(e@),
    }
}

/// What a value that may have failed to come about says.
pub open spec fn seen<T: View>(done: Result<T>) -> std::result::Result<T::V, ErrorView> {
    match done {
        Ok(value) => Ok(value@),
        Err(e) => Err(e@),
    }
}

/// An intake of things to show, keeping those that are there.
pub open spec fn only_present<T>(way: Ingested<Seq<Option<T>>>) -> Ingested<Seq<T>> {
    match way {
        Err(why) => Err(why),
        Ok((after, all)) => Ok((after, present(all))),
    }
}

pub open spec fn track_views_result(done: Result<Vec<TrackView>>) -> std::result::Result<
    Seq<TrackShown>,
    ErrorView,
> {
    match done {
        Ok(views) => Ok(track_views_view(views@)),
        Err(e) => Err(e@),
    }
}

pub open spec fn album_views_result(done: Result<Vec<AlbumView>>) -> std::result::Result<
    Seq<AlbumShown>,
    ErrorView,
> {
    match done {
        Ok(views) => Ok(album_views_view(views@)),
        Err(e) => Err(e@),
    }
}

pub open spec fn artist_views_result(done: Result<Vec<ArtistView>>) -> std::result::Result<
    Seq<ArtistShown>,
    ErrorView,
> {
    match done {
        Ok(views) => Ok(artist_views_view(views@)),
        Err(e) => Err(e@),
    }
}

/// Identifiers for each of `tracks`.
pub(crate) fn draw_for_tracks(tracks: &Vec<SourceTrack>) -> (ids: Vec<Vec<EntityId>>)
    requires
        countable_tracks(described_view(tracks@)),
    ensures
        serves_tracks(supplies(ids@), described_view(tracks@)),
{
    let mut ids: Vec<Vec<EntityId>> = Vec::new();
    let mut i: usize = 0;
    while i < tracks.len()
        invariant
            i <= tracks@.len(),
            ids@.len() == i,
            countable_tracks(described_view(tracks@)),
            forall|k: int| 0 <= k < i ==> track_needs(tracks@[k]@) <= (#[trigger] ids@[k])@.len(),
        decreases tracks.len() - i,
    {
        assert(described_view(tracks@)[i as int] == tracks@[i as int]@);
        ids.push(draw_ids(ids_for_track(&tracks[i])));
        i = i + 1;
    }
    assert forall|k: int| 0 <= k < tracks@.len() implies track_needs(
        #[trigger] described_view(tracks@)[k],
    ) <= supplies(ids@)[k].len() by {
        assert(supplies(ids@)[k] == ids@[k]@);
    }
    ids
}

/// Identifiers for each of `albums`.
fn draw_for_albums(albums: &Vec<SourceAlbum>) -> (ids: Vec<Vec<EntityId>>)
    requires
        countable_albums(releases_view(albums@)),
    ensures
        serves_albums(supplies(ids@), releases_view(albums@)),
{
    let mut ids: Vec<Vec<EntityId>> = Vec::new();
    let mut i: usize = 0;
    while i < albums.len()
        invariant
            i <= albums@.len(),
            ids@.len() == i,
            countable_albums(releases_view(albums@)),
            forall|k: int| 0 <= k < i ==> album_needs(albums@[k]@) <= (#[trigger] ids@[k])@.len(),
        decreases albums.len() - i,
    {
        assert(releases_view(albums@)[i as int] == albums@[i as int]@);
        ids.push(draw_ids(ids_for_album(&albums[i])));
        i = i + 1;
    }
    assert forall|k: int| 0 <= k < albums@.len() implies album_needs(
        #[trigger] releases_view(albums@)[k],
    ) <= supplies(ids@)[k].len() by {
        assert(supplies(ids@)[k] == ids@[k]@);
    }
    ids
}

impl Store {
    /// The library album a described track sits on, if the description names one it has.
    fn described_album(&self, described: &SourceTrack) -> (album: Result<Option<EntityId>>)
        ensures
            described_album(self@, described@) == crate::error::result_view(album),
    {
        match &described.album {
            Some(album) => match &album.source {
                Some(source) => self.bound(EntityKind::Album, source),
                None => Ok(None),
            },
            None => Ok(None),
        }
    }

    /// Take in each of `tracks`.
    pub(crate) fn put_tracks(
        &mut self,
        tracks: &Vec<SourceTrack>,
        ids: &Vec<Vec<EntityId>>,
        now: i64,
    ) -> (done: Result<Vec<EntityId>>)
        requires
            serves_tracks(supplies(ids@), described_view(tracks@)),
        ensures
            went(
                each(old(self)@, described_view(tracks@), track_step(supplies(ids@), now)),
                final(self)@,
                ids_result(done),
            ),
    {
        let ghost before = self@;
        let ghost all = described_view(tracks@);
        let ghost step = track_step(supplies(ids@), now);
        let mut found: Vec<EntityId> = Vec::new();
        let mut i: usize = 0;
        assert(all.take(0) =~= Seq::empty());
        while i < tracks.len()
            invariant
                i <= tracks@.len(),
                before == old(self)@,
                all == described_view(tracks@),
                step == track_step(supplies(ids@), now),
                serves_tracks(supplies(ids@), all),
                each(before, all.take(i as int), step) == Ok::<
                    (StoreModel, Seq<EntityId>),
                    ErrorView,
                >((self@, found@)),
            decreases tracks.len() - i,
        {
            assert(all.take(i + 1).drop_last() =~= all.take(i as int));
            assert(all[i as int] == tracks@[i as int]@);
            assert(supplies(ids@)[i as int] == ids@[i as int]@);
            match self.put_track(&tracks[i], &ids[i], now) {
                Ok(id) => {
                    found.push(id);
                },
                Err(e) => {
                    proof {
                        a_failure_stands(before, all, step, i + 1);
                    }
                    return Err(e);
                },
            }
            i = i + 1;
        }
        assert(all.take(i as int) =~= all);
        Ok(found)
    }

    /// Take in each of `tracks` and show it.
    fn put_shown_tracks(
        &mut self,
        tracks: &Vec<SourceTrack>,
        ids: &Vec<Vec<EntityId>>,
        now: i64,
    ) -> (done: Result<Vec<TrackView>>)
        requires
            serves_tracks(supplies(ids@), described_view(tracks@)),
        ensures
            went(
                only_present(each(old(self)@, described_view(tracks@), show_track_step(supplies(ids@), now))),
                final(self)@,
                track_views_result(done),
            ),
    {
        let ghost before = self@;
        let ghost all = described_view(tracks@);
        let ghost step = show_track_step(supplies(ids@), now);
        let ghost mut came: Seq<Option<TrackShown>> = Seq::empty();
        let mut views: Vec<TrackView> = Vec::new();
        let mut i: usize = 0;
        assert(all.take(0) =~= Seq::empty());
        assert(track_views_view(views@) =~= present(came));
        while i < tracks.len()
            invariant
                i <= tracks@.len(),
                before == old(self)@,
                all == described_view(tracks@),
                step == show_track_step(supplies(ids@), now),
                serves_tracks(supplies(ids@), all),
                track_views_view(views@) == present(came),
                each(before, all.take(i as int), step) == Ok::<
                    (StoreModel, Seq<Option<TrackShown>>),
                    ErrorView,
                >((self@, came)),
            decreases tracks.len() - i,
        {
            assert(all.take(i + 1).drop_last() =~= all.take(i as int));
            assert(all[i as int] == tracks@[i as int]@);
            assert(supplies(ids@)[i as int] == ids@[i as int]@);
            let id = match self.put_track(&tracks[i], &ids[i], now) {
                Ok(id) => id,
                Err(e) => {
                    proof {
                        a_failure_stands(before, all, step, i + 1);
                    }
                    return Err(e);
                },
            };
            let on = match self.described_album(&tracks[i]) {
                Ok(on) => on,
                Err(e) => {
                    proof {
                        a_failure_stands(before, all, step, i + 1);
                    }
                    return Err(e);
                },
            };
            let shown = self.track_view(id, on);
            let ghost shown_before = views@;
            proof {
                let more: Option<TrackShown> = if shown is Some {
                    Some(shown->0@)
                } else {
                    None
                };
                present_push(came, more);
                came = came.push(more);
            }
            if let Some(view) = shown {
                views.push(view);
                assert(track_views_view(views@) =~= track_views_view(shown_before).push(view@));
            }
            i = i + 1;
        }
        assert(all.take(i as int) =~= all);
        Ok(views)
    }

    /// Take in each of `albums` and show it.
    fn put_shown_albums(
        &mut self,
        albums: &Vec<SourceAlbum>,
        ids: &Vec<Vec<EntityId>>,
        now: i64,
    ) -> (done: Result<Vec<AlbumView>>)
        requires
            serves_albums(supplies(ids@), releases_view(albums@)),
        ensures
            went(
                only_present(each(old(self)@, releases_view(albums@), show_album_step(supplies(ids@), now))),
                final(self)@,
                album_views_result(done),
            ),
    {
        let ghost before = self@;
        let ghost all = releases_view(albums@);
        let ghost step = show_album_step(supplies(ids@), now);
        let ghost mut came: Seq<Option<AlbumShown>> = Seq::empty();
        let mut views: Vec<AlbumView> = Vec::new();
        let mut i: usize = 0;
        assert(all.take(0) =~= Seq::empty());
        assert(album_views_view(views@) =~= present(came));
        while i < albums.len()
            invariant
                i <= albums@.len(),
                before == old(self)@,
                all == releases_view(albums@),
                step == show_album_step(supplies(ids@), now),
                serves_albums(supplies(ids@), all),
                album_views_view(views@) == present(came),
                each(before, all.take(i as int), step) == Ok::<
                    (StoreModel, Seq<Option<AlbumShown>>),
                    ErrorView,
                >((self@, came)),
            decreases albums.len() - i,
        {
            assert(all.take(i + 1).drop_last() =~= all.take(i as int));
            assert(all[i as int] == albums@[i as int]@);
            assert(supplies(ids@)[i as int] == ids@[i as int]@);
            assert(ids@[i as int]@.skip(0) =~= ids@[i as int]@);
            let id = match self.put_album(&albums[i], &ids[i], 0, now) {
                Ok(id) => id,
                Err(e) => {
                    proof {
                        a_failure_stands(before, all, step, i + 1);
                    }
                    return Err(e);
                },
            };
            let shown = self.album_view(id);
            let ghost shown_before = views@;
            proof {
                let more: Option<AlbumShown> = if shown is Some {
                    Some(shown->0@)
                } else {
                    None
                };
                present_push(came, more);
                came = came.push(more);
            }
            if let Some(view) = shown {
                views.push(view);
                assert(album_views_view(views@) =~= album_views_view(shown_before).push(view@));
            }
            i = i + 1;
        }
        assert(all.take(i as int) =~= all);
        Ok(views)
    }

    /// Take in each of `artists` and show it.
    fn put_shown_artists(
        &mut self,
        artists: &Vec<SourceArtist>,
        ids: &Vec<EntityId>,
        now: i64,
    ) -> (done: Result<Vec<ArtistView>>)
        requires
            ids@.len() >= artists@.len(),
        ensures
            went(
                only_present(each(old(self)@, credits_view(artists@), show_artist_step(ids@, now))),
                final(self)@,
                artist_views_result(done),
            ),
    {
        let ghost before = self@;
        let ghost all = credits_view(artists@);
        let ghost step = show_artist_step(ids@, now);
        let ghost mut came: Seq<Option<ArtistShown>> = Seq::empty();
        let mut views: Vec<ArtistView> = Vec::new();
        let mut i: usize = 0;
        assert(all.take(0) =~= Seq::empty());
        assert(artist_views_view(views@) =~= present(came));
        while i < artists.len()
            invariant
                i <= artists@.len(),
                before == old(self)@,
                all == credits_view(artists@),
                step == show_artist_step(ids@, now),
                ids@.len() >= all.len(),
                artist_views_view(views@) == present(came),
                each(before, all.take(i as int), step) == Ok::<
                    (StoreModel, Seq<Option<ArtistShown>>),
                    ErrorView,
                >((self@, came)),
            decreases artists.len() - i,
        {
            assert(all.take(i + 1).drop_last() =~= all.take(i as int));
            assert(all[i as int] == artists@[i as int]@);

            let id = match self.put_artist(&artists[i], ids[i], now) {
                Ok(id) => id,
                Err(e) => {
                    proof {
                        a_failure_stands(before, all, step, i + 1);
                    }
                    return Err(e);
                },
            };
            let shown = self.artist_view(id);
            let ghost shown_before = views@;
            proof {
                let more: Option<ArtistShown> = if shown is Some {
                    Some(shown->0@)
                } else {
                    None
                };
                present_push(came, more);
                came = came.push(more);
            }
            if let Some(view) = shown {
                views.push(view);
                assert(artist_views_view(views@) =~= artist_views_view(shown_before).push(view@));
            }
            i = i + 1;
        }
        assert(all.take(i as int) =~= all);
        Ok(views)
    }

    /// Take in each of the tracks `marked` and save it.
    fn keep_tracks(
        &mut self,
        marked: &Vec<Favorite<SourceTrack>>,
        ids: &Vec<Vec<EntityId>>,
        now: i64,
    ) -> (done: Result<()>)
        requires
            serves_tracks(supplies(ids@), items(favorites_view(marked@))),
        ensures
            match done {
                Ok(_) => each(
                    old(self)@,
                    favorites_view(marked@),
                    keep_track_step(supplies(ids@), now),
                ) is Ok && each(
                    old(self)@,
                    favorites_view(marked@),
                    keep_track_step(supplies(ids@), now),
                )->Ok_0.0 == final(self)@,
                Err(e) => each(
                    old(self)@,
                    favorites_view(marked@),
                    keep_track_step(supplies(ids@), now),
                ) == Err::<(StoreModel, Seq<EntityId>), ErrorView>(e@),
            },
    {
        let ghost before = self@;
        let ghost all = favorites_view(marked@);
        let ghost step = keep_track_step(supplies(ids@), now);
        let mut i: usize = 0;
        assert(all.take(0) =~= Seq::empty());
        while i < marked.len()
            invariant
                i <= marked@.len(),
                before == old(self)@,
                all == favorites_view(marked@),
                step == keep_track_step(supplies(ids@), now),
                serves_tracks(supplies(ids@), items(all)),
                each(before, all.take(i as int), step) is Ok,
                each(before, all.take(i as int), step)->Ok_0.0 == self@,
            decreases marked.len() - i,
        {
            assert(all.take(i + 1).drop_last() =~= all.take(i as int));
            assert(all[i as int].item == marked@[i as int].item@);
            assert(items(all)[i as int] == marked@[i as int].item@);
            assert(supplies(ids@)[i as int] == ids@[i as int]@);
            let id = match self.put_track(&marked[i].item, &ids[i], now) {
                Ok(id) => id,
                Err(e) => {
                    proof {
                        a_failure_stands(before, all, step, i + 1);
                    }
                    return Err(e);
                },
            };
            let at: i64 = match marked[i].added_ms {
                Some(at) => at,
                None => now,
            };
            match self.save_as_of(id, at) {
                Ok(_) => {},
                Err(e) => {
                    proof {
                        a_failure_stands(before, all, step, i + 1);
                    }
                    return Err(e);
                },
            }
            i = i + 1;
        }
        assert(all.take(i as int) =~= all);
        Ok(())
    }

    /// Take in each of the albums `marked` and save it.
    fn keep_albums(
        &mut self,
        marked: &Vec<Favorite<SourceAlbum>>,
        ids: &Vec<Vec<EntityId>>,
        now: i64,
    ) -> (done: Result<()>)
        requires
            serves_albums(supplies(ids@), items(favorites_view(marked@))),
        ensures
            match done {
                Ok(_) => each(
                    old(self)@,
                    favorites_view(marked@),
                    keep_album_step(supplies(ids@), now),
                ) is Ok && each(
                    old(self)@,
                    favorites_view(marked@),
                    keep_album_step(supplies(ids@), now),
                )->Ok_0.0 == final(self)@,
                Err(e) => each(
                    old(self)@,
                    favorites_view(marked@),
                    keep_album_step(supplies(ids@), now),
                ) == Err::<(StoreModel, Seq<EntityId>), ErrorView>(e@),
            },
    {
        let ghost before = self@;
        let ghost all = favorites_view(marked@);
        let ghost step = keep_album_step(supplies(ids@), now);
        let mut i: usize = 0;
        assert(all.take(0) =~= Seq::empty());
        while i < marked.len()
            invariant
                i <= marked@.len(),
                before == old(self)@,
                all == favorites_view(marked@),
                step == keep_album_step(supplies(ids@), now),
                serves_albums(supplies(ids@), items(all)),
                each(before, all.take(i as int), step) is Ok,
                each(before, all.take(i as int), step)->Ok_0.0 == self@,
            decreases marked.len() - i,
        {
            assert(all.take(i + 1).drop_last() =~= all.take(i as int));
            assert(all[i as int].item == marked@[i as int].item@);
            assert(items(all)[i as int] == marked@[i as int].item@);
            assert(supplies(ids@)[i as int] == ids@[i as int]@);
            assert(ids@[i as int]@.skip(0) =~= ids@[i as int]@);
            let id = match self.put_album(&marked[i].item, &ids[i], 0, now) {
                Ok(id) => id,
                Err(e) => {
                    proof {
                        a_failure_stands(before, all, step, i + 1);
                    }
                    return Err(e);
                },
            };
            let at: i64 = match marked[i].added_ms {
                Some(at) => at,
                None => now,
            };
            match self.save_as_of(id, at) {
                Ok(_) => {},
                Err(e) => {
                    proof {
                        a_failure_stands(before, all, step, i + 1);
                    }
                    return Err(e);
                },
            }
            i = i + 1;
        }
        assert(all.take(i as int) =~= all);
        Ok(())
    }

    /// Take in each of the artists `marked` and save it.
    fn keep_artists(
        &mut self,
        marked: &Vec<Favorite<SourceArtist>>,
        ids: &Vec<EntityId>,
        now: i64,
    ) -> (done: Result<()>)
        requires
            ids@.len() >= marked@.len(),
        ensures
            match done {
                Ok(_) => each(
                    old(self)@,
                    favorites_view(marked@),
                    keep_artist_step(ids@, now),
                ) is Ok && each(
                    old(self)@,
                    favorites_view(marked@),
                    keep_artist_step(ids@, now),
                )->Ok_0.0 == final(self)@,
                Err(e) => each(
                    old(self)@,
                    favorites_view(marked@),
                    keep_artist_step(ids@, now),
                ) == Err::<(StoreModel, Seq<EntityId>), ErrorView>(e@),
            },
    {
        let ghost before = self@;
        let ghost all = favorites_view(marked@);
        let ghost step = keep_artist_step(ids@, now);
        let mut i: usize = 0;
        assert(all.take(0) =~= Seq::empty());
        while i < marked.len()
            invariant
                i <= marked@.len(),
                before == old(self)@,
                all == favorites_view(marked@),
                step == keep_artist_step(ids@, now),
                ids@.len() >= all.len(),
                each(before, all.take(i as int), step) is Ok,
                each(before, all.take(i as int), step)->Ok_0.0 == self@,
            decreases marked.len() - i,
        {
            assert(all.take(i + 1).drop_last() =~= all.take(i as int));
            assert(all[i as int].item == marked@[i as int].item@);

            let id = match self.put_artist(&marked[i].item, ids[i], now) {
                Ok(id) => id,
                Err(e) => {
                    proof {
                        a_failure_stands(before, all, step, i + 1);
                    }
                    return Err(e);
                },
            };
            let at: i64 = match marked[i].added_ms {
                Some(at) => at,
                None => now,
            };
            match self.save_as_of(id, at) {
                Ok(_) => {},
                Err(e) => {
                    proof {
                        a_failure_stands(before, all, step, i + 1);
                    }
                    return Err(e);
                },
            }
            i = i + 1;
        }
        assert(all.take(i as int) =~= all);
        Ok(())
    }

    /// Make a playlist a service keeps, bound to it.
    fn make_playlist(
        &mut self,
        playlist: &SourcePlaylist,
        id: EntityId,
        tracks: &Vec<EntityId>,
        now: i64,
    ) -> (done: Result<EntityId>)
        ensures
            went(
                made_playlist(old(self)@, playlist@, id, tracks@, now),
                final(self)@,
                crate::error::result_view(done),
            ),
    {
        match self.insert_playlist(id, playlist.name.as_str(), tracks, now) {
            Ok(_) => {},
            Err(e) => {
                return Err(e);
            },
        }
        let binding = Binding::direct(playlist.source.clone());
        match self.bind_at(EntityKind::Playlist, id, &binding, now) {
            Ok(_) => Ok(id),
            Err(e) => Err(e),
        }
    }

    /// Bring in one of a service's playlists.
    fn put_playlist(
        &mut self,
        playlist: &SourcePlaylist,
        id: EntityId,
        track_ids: &Vec<Vec<EntityId>>,
        now: i64,
    ) -> (done: Result<EntityId>)
        requires
            serves_tracks(supplies(track_ids@), playlist@.tracks),
        ensures
            went(
                imported_playlist(old(self)@, playlist@, id, supplies(track_ids@), now),
                final(self)@,
                crate::error::result_view(done),
            ),
    {
        let tracks = match self.put_tracks(&playlist.tracks, track_ids, now) {
            Ok(tracks) => tracks,
            Err(e) => {
                return Err(e);
            },
        };
        match self.bound(EntityKind::Playlist, &playlist.source) {
            Err(e) => Err(e),
            Ok(Some(known)) => {
                if self.find_playlist(known).is_none() {
                    match self.unbind(EntityKind::Playlist, &playlist.source) {
                        Ok(_) => {},
                        Err(e) => {
                            return Err(e);
                        },
                    }
                    return self.make_playlist(playlist, id, &tracks, now);
                }
                match self.rename_playlist_at(known, playlist.name.as_str(), now) {
                    Ok(_) => {},
                    Err(e) => {
                        return Err(e);
                    },
                }
                match self.edit_playlist_at(known, PlaylistEdit::Replace { tracks }, now) {
                    Ok(_) => Ok(known),
                    Err(e) => Err(e),
                }
            },
            Ok(None) => self.make_playlist(playlist, id, &tracks, now),
        }
    }

    /// Bring in each of a service's playlists.
    fn put_playlists(
        &mut self,
        playlists: &Vec<SourcePlaylist>,
        ids: &Vec<EntityId>,
        track_ids: &Vec<Vec<Vec<EntityId>>>,
        now: i64,
    ) -> (done: Result<()>)
        requires
            serves_playlists(ids@, playlist_supplies(track_ids@), source_playlists_view(playlists@)),
        ensures
            match done {
                Ok(_) => each(
                    old(self)@,
                    source_playlists_view(playlists@),
                    playlist_step(ids@, playlist_supplies(track_ids@), now),
                ) is Ok && each(
                    old(self)@,
                    source_playlists_view(playlists@),
                    playlist_step(ids@, playlist_supplies(track_ids@), now),
                )->Ok_0.0 == final(self)@,
                Err(e) => each(
                    old(self)@,
                    source_playlists_view(playlists@),
                    playlist_step(ids@, playlist_supplies(track_ids@), now),
                ) == Err::<(StoreModel, Seq<EntityId>), ErrorView>(e@),
            },
    {
        let ghost before = self@;
        let ghost all = source_playlists_view(playlists@);
        let ghost step = playlist_step(ids@, playlist_supplies(track_ids@), now);
        let mut i: usize = 0;
        assert(all.take(0) =~= Seq::empty());
        while i < playlists.len()
            invariant
                i <= playlists@.len(),
                before == old(self)@,
                all == source_playlists_view(playlists@),
                step == playlist_step(ids@, playlist_supplies(track_ids@), now),
                serves_playlists(ids@, playlist_supplies(track_ids@), all),
                each(before, all.take(i as int), step) is Ok,
                each(before, all.take(i as int), step)->Ok_0.0 == self@,
            decreases playlists.len() - i,
        {
            assert(all.take(i + 1).drop_last() =~= all.take(i as int));
            assert(all[i as int] == playlists@[i as int]@);
            assert(playlist_supplies(track_ids@)[i as int] == supplies(track_ids@[i as int]@));
            match self.put_playlist(&playlists[i], ids[i], &track_ids[i], now) {
                Ok(_) => {},
                Err(e) => {
                    proof {
                        a_failure_stands(before, all, step, i + 1);
                    }
                    return Err(e);
                },
            }
            i = i + 1;
        }
        assert(all.take(i as int) =~= all);
        Ok(())
    }

    /// Take in tracks a service lists (its radio, one of its mixes), drawing on `ids`, as of `now`.
    pub fn take_in_tracks_as(
        &mut self,
        tracks: &Vec<SourceTrack>,
        ids: &Vec<Vec<EntityId>>,
        now: i64,
    ) -> (done: Result<Vec<EntityId>>)
        requires
            serves_tracks(supplies(ids@), described_view(tracks@)),
        ensures
            led(
                each(old(self)@, described_view(tracks@), track_step(supplies(ids@), now)),
                old(self)@,
                final(self)@,
                ids_result(done),
            ),
    {
        let before = self.copy();
        match self.put_tracks(tracks, ids, now) {
            Ok(found) => Ok(found),
            Err(e) => {
                *self = before;
                Err(e)
            },
        }
    }

    /// Take in tracks a service lists (its radio, one of its mixes), in order.
    pub fn take_in_tracks(&mut self, tracks: &Vec<SourceTrack>) -> (done: Result<Vec<EntityId>>)
        requires
            countable_tracks(described_view(tracks@)),
        ensures
            exists|ids: Seq<Seq<EntityId>>, now: i64|
                serves_tracks(ids, described_view(tracks@)) && led(
                    each(old(self)@, described_view(tracks@), #[trigger] track_step(ids, now)),
                    old(self)@,
                    final(self)@,
                    ids_result(done),
                ),
    {
        let ids = draw_for_tracks(tracks);
        let now: i64 = now_ms();
        self.take_in_tracks_as(tracks, &ids, now)
    }

    /// Take in artists a service lists and show them, drawing on `ids`, as of `now`.
    pub fn take_in_artists_as(
        &mut self,
        artists: &Vec<SourceArtist>,
        ids: &Vec<EntityId>,
        now: i64,
    ) -> (done: Result<Vec<ArtistView>>)
        requires
            ids@.len() >= artists@.len(),
        ensures
            led(
                only_present(
                    each(old(self)@, credits_view(artists@), show_artist_step(ids@, now)),
                ),
                old(self)@,
                final(self)@,
                artist_views_result(done),
            ),
    {
        let before = self.copy();
        match self.put_shown_artists(artists, ids, now) {
            Ok(views) => Ok(views),
            Err(e) => {
                *self = before;
                Err(e)
            },
        }
    }

    /// Take in artists a service lists and show them, in order.
    pub fn take_in_artists(&mut self, artists: &Vec<SourceArtist>) -> (done: Result<
        Vec<ArtistView>,
    >)
        ensures
            exists|ids: Seq<EntityId>, now: i64|
                ids.len() == artists@.len() && led(
                    only_present(
                        each(
                            old(self)@,
                            credits_view(artists@),
                            #[trigger] show_artist_step(ids, now),
                        ),
                    ),
                    old(self)@,
                    final(self)@,
                    artist_views_result(done),
                ),
    {
        let ids = draw_ids(artists.len());
        let now: i64 = now_ms();
        self.take_in_artists_as(artists, &ids, now)
    }

    /// Take in what a search found and show it, drawing on `ids`, as of `now`.
    pub fn take_in_search_as(&mut self, found: &SearchResults, ids: &Supply, now: i64) -> (done:
        Result<SearchView>)
        requires
            serves_search(ids@, found@),
        ensures
            led(
                searched(old(self)@, found@, ids@, now),
                old(self)@,
                final(self)@,
                seen(done),
            ),
    {
        let before = self.copy();
        let tracks = match self.put_shown_tracks(&found.tracks, &ids.tracks, now) {
            Ok(views) => views,
            Err(e) => {
                *self = before;
                return Err(e);
            },
        };
        let albums = match self.put_shown_albums(&found.albums, &ids.albums, now) {
            Ok(views) => views,
            Err(e) => {
                *self = before;
                return Err(e);
            },
        };
        let artists = match self.put_shown_artists(&found.artists, &ids.artists, now) {
            Ok(views) => views,
            Err(e) => {
                *self = before;
                return Err(e);
            },
        };
        Ok(SearchView { tracks, albums, artists })
    }

    /// Take in what a search found and show it: every result comes with an id to play, save or
    /// open.
    pub fn take_in_search(&mut self, found: &SearchResults) -> (done: Result<SearchView>)
        requires
            countable_tracks(found@.tracks),
            countable_albums(found@.albums),
        ensures
            exists|ids: SupplyModel, now: i64|
                serves_search(ids, found@) && led(
                    #[trigger] searched(old(self)@, found@, ids, now),
                    old(self)@,
                    final(self)@,
                    seen(done),
                ),
    {
        let ids = Supply {
            tracks: draw_for_tracks(&found.tracks),
            albums: draw_for_albums(&found.albums),
            artists: draw_ids(found.artists.len()),
        };
        let now: i64 = now_ms();
        self.take_in_search_as(found, &ids, now)
    }

    /// Take in what a service lists for an artist and show it, drawing on `ids`, as of `now`.
    pub fn take_in_artist_as(&mut self, listing: &ArtistListing, ids: &Supply, now: i64) -> (done:
        Result<ArtistDetail>)
        requires
            serves_artist(ids@, listing@),
        ensures
            led(
                listed_artist(old(self)@, listing@, ids@, now),
                old(self)@,
                final(self)@,
                seen(done),
            ),
    {
        let before = self.copy();
        let id = match self.put_artist(&listing.artist, ids.artists[0], now) {
            Ok(id) => id,
            Err(e) => {
                *self = before;
                return Err(e);
            },
        };
        let albums = match self.put_shown_albums(&listing.albums, &ids.albums, now) {
            Ok(views) => views,
            Err(e) => {
                *self = before;
                return Err(e);
            },
        };
        let top_tracks = match self.put_shown_tracks(&listing.top_tracks, &ids.tracks, now) {
            Ok(views) => views,
            Err(e) => {
                *self = before;
                return Err(e);
            },
        };
        match self.artist_view(id) {
            Some(artist) => Ok(ArtistDetail { artist, albums, top_tracks }),
            None => {
                *self = before;
                Err(no_such("artist ", id))
            },
        }
    }

    /// Take in what a service lists for an artist (their releases, their top tracks) and show it.
    pub fn take_in_artist(&mut self, listing: &ArtistListing) -> (done: Result<ArtistDetail>)
        requires
            countable_tracks(listing@.top_tracks),
            countable_albums(listing@.albums),
        ensures
            exists|ids: SupplyModel, now: i64|
                serves_artist(ids, listing@) && led(
                    #[trigger] listed_artist(old(self)@, listing@, ids, now),
                    old(self)@,
                    final(self)@,
                    seen(done),
                ),
    {
        let ids = Supply {
            tracks: draw_for_tracks(&listing.top_tracks),
            albums: draw_for_albums(&listing.albums),
            artists: draw_ids(1),
        };
        let now: i64 = now_ms();
        self.take_in_artist_as(listing, &ids, now)
    }

    /// Bring in everything the user keeps on a service, drawing on the identifiers given, as of
    /// `now`.
    pub fn import_as(
        &mut self,
        favorites: &Favorites,
        playlists: &Vec<SourcePlaylist>,
        ids: &Supply,
        playlist_ids: &Vec<EntityId>,
        playlist_tracks: &Vec<Vec<Vec<EntityId>>>,
        now: i64,
    ) -> (done: Result<ImportReport>)
        requires
            serves_favorites(ids@, favorites@),
            serves_playlists(
                playlist_ids@,
                playlist_supplies(playlist_tracks@),
                source_playlists_view(playlists@),
            ),
        ensures
            led(
                imported(
                    old(self)@,
                    favorites@,
                    source_playlists_view(playlists@),
                    ids@,
                    playlist_ids@,
                    playlist_supplies(playlist_tracks@),
                    now,
                ),
                old(self)@,
                final(self)@,
                crate::error::result_view(done),
            ),
    {
        let before = self.copy();
        match self.keep_tracks(&favorites.tracks, &ids.tracks, now) {
            Ok(_) => {},
            Err(e) => {
                *self = before;
                return Err(e);
            },
        }
        match self.keep_albums(&favorites.albums, &ids.albums, now) {
            Ok(_) => {},
            Err(e) => {
                *self = before;
                return Err(e);
            },
        }
        match self.keep_artists(&favorites.artists, &ids.artists, now) {
            Ok(_) => {},
            Err(e) => {
                *self = before;
                return Err(e);
            },
        }
        match self.put_playlists(playlists, playlist_ids, playlist_tracks, now) {
            Ok(_) => Ok(
                ImportReport {
                    tracks: favorites.tracks.len(),
                    albums: favorites.albums.len(),
                    artists: favorites.artists.len(),
                    playlists: playlists.len(),
                },
            ),
            Err(e) => {
                *self = before;
                Err(e)
            },
        }
    }

    /// Bring in the user's favorites and playlists from a service. Favorites are saved as of when
    /// they were marked there; each service playlist becomes (or, imported again, updates) a
    /// playlist bound to it. One-way: nothing is written back to the service.
    pub fn import(&mut self, favorites: &Favorites, playlists: &Vec<SourcePlaylist>) -> (done:
        Result<ImportReport>)
        requires
            countable_tracks(items(favorites@.tracks)),
            countable_albums(items(favorites@.albums)),
            forall|i: int|
                0 <= i < playlists@.len() ==> countable_tracks((#[trigger] playlists@[i])@.tracks),
        ensures
            exists|
                ids: SupplyModel,
                playlist_ids: Seq<EntityId>,
                playlist_tracks: Seq<Seq<Seq<EntityId>>>,
                now: i64,
            |
                serves_favorites(ids, favorites@) && serves_playlists(
                    playlist_ids,
                    playlist_tracks,
                    source_playlists_view(playlists@),
                ) && led(
                    #[trigger] imported(
                        old(self)@,
                        favorites@,
                        source_playlists_view(playlists@),
                        ids,
                        playlist_ids,
                        playlist_tracks,
                        now,
                    ),
                    old(self)@,
                    final(self)@,
                    crate::error::result_view(done),
                ),
    {
        let mut tracks: Vec<Vec<EntityId>> = Vec::new();
        let mut i: usize = 0;
        while i < favorites.tracks.len()
            invariant
                i <= favorites.tracks@.len(),
                tracks@.len() == i,
                countable_tracks(items(favorites@.tracks)),
                forall|k: int|
                    0 <= k < i ==> track_needs(favorites.tracks@[k].item@) <= (
                    #[trigger] tracks@[k])@.len(),
            decreases favorites.tracks.len() - i,
        {
            assert(items(favorites@.tracks)[i as int] == favorites.tracks@[i as int].item@);
            tracks.push(draw_ids(ids_for_track(&favorites.tracks[i].item)));
            i = i + 1;
        }
        let mut albums: Vec<Vec<EntityId>> = Vec::new();
        let mut j: usize = 0;
        while j < favorites.albums.len()
            invariant
                j <= favorites.albums@.len(),
                albums@.len() == j,
                countable_albums(items(favorites@.albums)),
                forall|k: int|
                    0 <= k < j ==> album_needs(favorites.albums@[k].item@) <= (
                    #[trigger] albums@[k])@.len(),
            decreases favorites.albums.len() - j,
        {
            assert(items(favorites@.albums)[j as int] == favorites.albums@[j as int].item@);
            albums.push(draw_ids(ids_for_album(&favorites.albums[j].item)));
            j = j + 1;
        }
        let ids = Supply { tracks, albums, artists: draw_ids(favorites.artists.len()) };
        assert(serves_favorites(ids@, favorites@)) by {
            assert forall|k: int| 0 <= k < favorites@.tracks.len() implies track_needs(
                #[trigger] items(favorites@.tracks)[k],
            ) <= ids@.tracks[k].len() by {
                assert(ids@.tracks[k] == tracks@[k]@);
            }
            assert forall|k: int| 0 <= k < favorites@.albums.len() implies album_needs(
                #[trigger] items(favorites@.albums)[k],
            ) <= ids@.albums[k].len() by {
                assert(ids@.albums[k] == albums@[k]@);
            }
        }
        let mut playlist_tracks: Vec<Vec<Vec<EntityId>>> = Vec::new();
        let mut n: usize = 0;
        while n < playlists.len()
            invariant
                n <= playlists@.len(),
                playlist_tracks@.len() == n,
                forall|i: int|
                    0 <= i < playlists@.len() ==> countable_tracks(
                        (#[trigger] playlists@[i])@.tracks,
                    ),
                forall|k: int|
                    0 <= k < n ==> serves_tracks(
                        supplies((#[trigger] playlist_tracks@[k])@),
                        playlists@[k]@.tracks,
                    ),
            decreases playlists.len() - n,
        {
            assert(countable_tracks(playlists@[n as int]@.tracks));
            playlist_tracks.push(draw_for_tracks(&playlists[n].tracks));
            n = n + 1;
        }
        let playlist_ids = draw_ids(playlists.len());
        assert(serves_playlists(
            playlist_ids@,
            playlist_supplies(playlist_tracks@),
            source_playlists_view(playlists@),
        )) by {
            assert forall|k: int| 0 <= k < playlists@.len() implies serves_tracks(
                playlist_supplies(playlist_tracks@)[k],
                (#[trigger] source_playlists_view(playlists@)[k]).tracks,
            ) by {
                assert(playlist_supplies(playlist_tracks@)[k] == supplies(playlist_tracks@[k]@));
            }
        }
        let now: i64 = now_ms();
        self.import_as(favorites, playlists, &ids, &playlist_ids, &playlist_tracks, now)
    }
}

} // verus!
