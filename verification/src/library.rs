//! The user's library over its store: what a request names, what has to be asked of a service to
//! answer it, and what to make of the reply.
//!
//! Nothing here talks to a service. Each operation that needs one is cut where the call is made:
//! one function says what to ask, another takes what came back.

use vstd::prelude::*;
use vstd::string::*;

use crate::binding::{key_of, no_key, now_ms};
use crate::catalog::{
    described_view, source_playlists_view, AlbumListing, ArtistListing, Favorites, SearchResults,
    Seed, SourceMix, SourcePlaylist,
};
use crate::error::{result_view, Error, ErrorView, Result};
use crate::id::{opt_source, sources_view, EntityId, Service, SourceRef, SourceView};
use crate::ingest::{
    album_needs, ingested_listing, listing_outcome, track_needs, track_outcome, Ingested,
};
use crate::intake::{
    countable_albums, countable_tracks, each, ids_result, imported, items, led, listed_artist,
    searched, seen, serves_artist, serves_favorites, serves_playlists, serves_search,
    serves_tracks, track_step, SupplyModel,
};
use crate::model::{EntityKind, ItemRef};
use crate::rows::{first_at, first_at_matches, found_first, found_none};
use crate::shelf::{page_of, PlaylistEdit};
use crate::source::{no_source, not_browsable, Sources, SourcesModel};
use crate::store::{no_such, not_found, Store, StoreModel};
use crate::text::{concat, opt_text};
use crate::track::{opt_track, tracks_view, SourceTrack, TrackRef, TrackRefView};
use crate::view::{
    mark, mark_listing, marked_listing, marked_tracks, not_tracks, track_views_view, AlbumDetail,
    AlbumDetailShown, ArtistDetail, ArtistDetailShown, ImportReport, LibraryPage, MixView,
    PageShown, PlaylistDetail, PlaylistDetailShown, SearchShown, SearchView, TrackView,
};

verus! {

/// The library, over its store.
pub struct Library {
    pub store: Store,
}

impl View for Library {
    type V = StoreModel;

    open spec fn view(&self) -> StoreModel {
        self.store@
    }
}

/// A mix is not an entity.
pub open spec fn mix_is_no_entity() -> ErrorView {
    ErrorView::Unsupported("a mix is a list of tracks, not a library entity"@)
}

pub fn not_an_entity() -> (e: Error)
    ensures
        e@ == mix_is_no_entity(),
{
    Error::Unsupported("a mix is a list of tracks, not a library entity".to_owned())
}

/// There is no id that names anything on `service`.
pub open spec fn no_item_id(service: Service) -> ErrorView {
    ErrorView::Unsupported("a "@ + service.name() + " item has no id to name it by"@)
}

/// The binding `id` names on `service`.
pub open spec fn named_on(service: Service, id: Seq<char>) -> std::result::Result<
    SourceView,
    ErrorView,
> {
    match service {
        Service::Local => Err(no_item_id(service)),
        Service::Tidal => Ok(SourceView::Tidal(id)),
        Service::Spotify => Ok(SourceView::Spotify(id)),
    }
}

/// A service's id as a binding.
pub fn by_id(service: Service, id: &str) -> (source: Result<SourceRef>)
    ensures
        seen(source) == named_on(service, id@),
{
    match SourceRef::by_id(service, id) {
        Some(source) => Ok(source),
        None => {
            let mut text = concat("a ", service.as_str());
            text.append(" item has no id to name it by");
            Err(Error::Unsupported(text))
        },
    }
}

/// The service a radio station is asked of.
pub fn seed_service(seed: &Seed) -> (service: Service)
    ensures
        match seed {
            Seed::Track(source) => service == source@.service(),
            Seed::Artist(source) => service == source@.service(),
        },
{
    match seed {
        Seed::Track(source) => source.service(),
        Seed::Artist(source) => source.service(),
    }
}

/// What an item names: the library entity and its kind, if the library has it, and a binding on a
/// service that can be browsed for it, if there is one.
pub struct Located {
    pub known: Option<(EntityId, EntityKind)>,
    pub binding: Option<SourceRef>,
}

/// What a [`Located`] says.
pub struct LocatedView {
    pub known: Option<(EntityId, EntityKind)>,
    pub binding: Option<SourceView>,
}

impl View for Located {
    type V = LocatedView;

    open spec fn view(&self) -> LocatedView {
        LocatedView { known: self.known, binding: opt_source(self.binding) }
    }
}

/// What to ask a service for, and what the library has if it doesn't answer.
pub struct Fetch {
    /// The library's own copy, if it has one.
    pub known: Option<EntityId>,
    /// The binding to ask about, on a service that can be browsed.
    pub from: Option<SourceRef>,
}

/// What a [`Fetch`] says.
pub struct FetchView {
    pub known: Option<EntityId>,
    pub from: Option<SourceView>,
}

impl View for Fetch {
    type V = FetchView;

    open spec fn view(&self) -> FetchView {
        FetchView { known: self.known, from: opt_source(self.from) }
    }
}

/// How an item comes to be a library entity.
pub enum EntityStep {
    /// The library has it.
    Known(EntityId, EntityKind),
    /// Its service describes it, and the description is taken in.
    Describe(SourceRef),
    /// Its service lists it, and the listing is taken in.
    Album(Fetch),
    Artist(Fetch),
}

/// What an [`EntityStep`] says.
pub enum EntityStepView {
    Known(EntityId, EntityKind),
    Describe(SourceView),
    Album(FetchView),
    Artist(FetchView),
}

impl View for EntityStep {
    type V = EntityStepView;

    open spec fn view(&self) -> EntityStepView {
        match self {
            EntityStep::Known(id, kind) => EntityStepView::Known(*id, *kind),
            EntityStep::Describe(source) => EntityStepView::Describe(source@),
            EntityStep::Album(fetch) => EntityStepView::Album(fetch@),
            EntityStep::Artist(fetch) => EntityStepView::Artist(fetch@),
        }
    }
}

/// How an item comes to be tracks.
pub enum NameStep {
    /// These are the tracks.
    Tracks(Vec<TrackRef>),
    /// The service lists the mix's tracks, and they are taken in.
    Mix { service: Service, mix: String },
    /// Its service describes the track, and the description is taken in.
    Describe(SourceRef),
    /// The album is fetched, then expanded: a tracklist is only whole once its listing has been.
    Album(Fetch),
}

/// What a [`NameStep`] says.
pub enum NameStepView {
    Tracks(Seq<TrackRefView>),
    Mix { service: Service, mix: Seq<char> },
    Describe(SourceView),
    Album(FetchView),
}

impl View for NameStep {
    type V = NameStepView;

    open spec fn view(&self) -> NameStepView {
        match self {
            NameStep::Tracks(tracks) => NameStepView::Tracks(tracks_view(tracks@)),
            NameStep::Mix { service, mix } => NameStepView::Mix { service: *service, mix: mix@ },
            NameStep::Describe(source) => NameStepView::Describe(source@),
            NameStep::Album(fetch) => NameStepView::Album(fetch@),
        }
    }
}

/// That is not what was asked for.
pub open spec fn wrong_kind(kind: EntityKind, wanted: EntityKind) -> ErrorView {
    ErrorView::Unsupported("that is a "@ + kind.name() + ", not an "@ + wanted.name())
}

fn is_wrong_kind(kind: EntityKind, wanted: EntityKind) -> (e: Error)
    ensures
        e@ == wrong_kind(kind, wanted),
{
    let mut text = concat("that is a ", kind.as_str());
    text.append(", not an ");
    text.append(wanted.as_str());
    Error::Unsupported(text)
}

/// A binding on a service that can be browsed.
pub open spec fn can_browse(sources: SourcesModel) -> spec_fn(SourceView) -> bool {
    |s: SourceView| sources.browses(s.service())
}

/// The first of `bindings` on a service that can be browsed.
pub open spec fn first_browsable(
    sources: SourcesModel,
    bindings: Seq<SourceView>,
) -> Option<SourceView> {
    match first_at(bindings, can_browse(sources)) {
        Some(i) => Some(bindings[i]),
        None => None,
    }
}

/// A binding on `service`.
pub open spec fn is_on(service: Service) -> spec_fn(SourceView) -> bool {
    |s: SourceView| s.service() == service
}

/// The first of `bindings` on `service`.
pub open spec fn first_on(service: Service, bindings: Seq<SourceView>) -> Option<SourceView> {
    match first_at(bindings, is_on(service)) {
        Some(i) => Some(bindings[i]),
        None => None,
    }
}

/// What `item` names.
pub open spec fn located(
    model: StoreModel,
    sources: SourcesModel,
    item: ItemRef,
) -> std::result::Result<LocatedView, ErrorView> {
    match item {
        ItemRef::Entity { entity } => Ok(
            LocatedView {
                known: match model.kind_of(entity) {
                    Some(kind) => Some((entity, kind)),
                    None => None,
                },
                binding: first_browsable(sources, model.sources_of(entity)),
            },
        ),
        ItemRef::Service { service, id, kind } => match named_on(service, id@) {
            Err(why) => Err(why),
            Ok(source) => Ok(
                LocatedView {
                    known: match model.bound(kind, source) {
                        Some(entity) => Some((entity, kind)),
                        None => None,
                    },
                    binding: if sources.browses(service) {
                        Some(source)
                    } else {
                        None
                    },
                },
            ),
        },
        ItemRef::Mix { .. } => Err(mix_is_no_entity()),
    }
}

/// Why nothing can be fetched for `item`, which the library does not have: it is on a service that
/// cannot be browsed.
pub open spec fn beyond_reach(sources: SourcesModel, item: ItemRef) -> Option<ErrorView> {
    match item {
        ItemRef::Service { service, .. } => if sources.browses(service) {
            None
        } else {
            Some(not_browsable(service))
        },
        _ => None,
    }
}

/// What to fetch so that `item`, which must be a `wanted`, can be shown whole. What the library
/// has can be shown even where nothing can be fetched.
pub open spec fn to_fetch(
    model: StoreModel,
    sources: SourcesModel,
    item: ItemRef,
    wanted: EntityKind,
) -> std::result::Result<FetchView, ErrorView> {
    match located(model, sources, item) {
        Err(why) => Err(why),
        Ok(found) => if found.known is Some && (found.known->0).1 != wanted {
            Err(wrong_kind((found.known->0).1, wanted))
        } else if found.known is None && beyond_reach(sources, item) is Some {
            Err(beyond_reach(sources, item)->0)
        } else {
            Ok(
                FetchView {
                    known: match found.known {
                        Some((id, _)) => Some(id),
                        None => None,
                    },
                    from: found.binding,
                },
            )
        },
    }
}

/// How `item` comes to be a library entity.
pub open spec fn entity_step(
    model: StoreModel,
    sources: SourcesModel,
    item: ItemRef,
) -> std::result::Result<EntityStepView, ErrorView> {
    match located(model, sources, item) {
        Err(why) => Err(why),
        Ok(found) => match found.known {
            Some((id, kind)) => Ok(EntityStepView::Known(id, kind)),
            None => match item {
                ItemRef::Entity { entity } => Err(not_found("entity "@, entity)),
                ItemRef::Mix { .. } => Err(mix_is_no_entity()),
                ItemRef::Service { service, id, kind } => match kind {
                    EntityKind::Track => if sources.plays(service) {
                        Ok(EntityStepView::Describe(named_on(service, id@)->Ok_0))
                    } else {
                        Err(no_source(service))
                    },
                    EntityKind::Album => match to_fetch(model, sources, item, kind) {
                        Err(why) => Err(why),
                        Ok(fetch) => Ok(EntityStepView::Album(fetch)),
                    },
                    EntityKind::Artist => match to_fetch(model, sources, item, kind) {
                        Err(why) => Err(why),
                        Ok(fetch) => Ok(EntityStepView::Artist(fetch)),
                    },
                    EntityKind::Playlist => Err(
                        ErrorView::Unsupported(
                            "playlists are canon's own; "@ + service.name()
                                + " ones can't be named here"@,
                        ),
                    ),
                },
            },
        },
    }
}

/// The track a binding names, if the library has it.
pub open spec fn bound_track(model: StoreModel, source: SourceView) -> Option<TrackRefView> {
    match model.bound(EntityKind::Track, source) {
        Some(id) => model.track_ref(id),
        None => None,
    }
}

/// How `item` comes to be tracks: a track is itself, an album its tracklist, a playlist and a mix
/// their tracks.
pub open spec fn name_step(
    model: StoreModel,
    sources: SourcesModel,
    item: ItemRef,
) -> std::result::Result<NameStepView, ErrorView> {
    match item {
        ItemRef::Mix { service, mix } => if sources.browses(service) {
            Ok(NameStepView::Mix { service, mix: mix@ })
        } else {
            Err(not_browsable(service))
        },
        ItemRef::Entity { entity } => match model.kind_of(entity) {
            None => Err(not_found("entity "@, entity)),
            Some(EntityKind::Album) => match to_fetch(model, sources, item, EntityKind::Album) {
                Err(why) => Err(why),
                Ok(fetch) => Ok(NameStepView::Album(fetch)),
            },
            Some(_) => match model.expansion(entity) {
                Err(why) => Err(why),
                Ok(tracks) => Ok(NameStepView::Tracks(tracks)),
            },
        },
        ItemRef::Service { service, id, kind } => match named_on(service, id@) {
            Err(why) => Err(why),
            Ok(source) => match kind {
                EntityKind::Track => match bound_track(model, source) {
                    Some(track) => Ok(NameStepView::Tracks(seq![track])),
                    None => if sources.plays(service) {
                        Ok(NameStepView::Describe(source))
                    } else {
                        Err(no_source(service))
                    },
                },
                EntityKind::Album => match to_fetch(model, sources, item, EntityKind::Album) {
                    Err(why) => Err(why),
                    Ok(fetch) => Ok(NameStepView::Album(fetch)),
                },
                _ => match model.bound(kind, source) {
                    Some(entity) => match model.expansion(entity) {
                        Err(why) => Err(why),
                        Ok(tracks) => Ok(NameStepView::Tracks(tracks)),
                    },
                    None => Err(not_tracks()),
                },
            },
        },
    }
}

/// Where a radio station for an entity is seeded, or why there is none.
pub open spec fn seed_for(
    model: StoreModel,
    sources: SourcesModel,
    entity: EntityId,
    kind: EntityKind,
) -> std::result::Result<(bool, SourceView), ErrorView> {
    match first_browsable(sources, model.sources_of(entity)) {
        None => Err(nowhere_to_browse()),
        Some(source) => match kind {
            EntityKind::Track => Ok((true, source)),
            EntityKind::Artist => Ok((false, source)),
            EntityKind::Album => Err(
                ErrorView::Unsupported("radio starts from a track or an artist, not an album"@),
            ),
            EntityKind::Playlist => Err(
                ErrorView::Unsupported("radio starts from a track or an artist, not a playlist"@),
            ),
        },
    }
}

/// What a seed says: whether it is a track (rather than an artist), and which.
pub open spec fn seed_view(seed: Seed) -> (bool, SourceView) {
    match seed {
        Seed::Track(source) => (true, source@),
        Seed::Artist(source) => (false, source@),
    }
}

/// It is nowhere that can be browsed.
pub open spec fn nowhere_to_browse() -> ErrorView {
    ErrorView::Unsupported("it isn't on a service that can be browsed"@)
}

/// The album `id` as the library shows it.
pub open spec fn shown_album_detail(
    model: StoreModel,
    sources: SourcesModel,
    id: EntityId,
) -> std::result::Result<AlbumDetailShown, ErrorView> {
    match model.album_detail(id) {
        None => Err(not_found("album "@, id)),
        Some(detail) => Ok(
            AlbumDetailShown { tracks: marked_listing(detail.tracks, sources), ..detail },
        ),
    }
}

/// The library's own copy of the artist `id`: the albums credited to them, and no top tracks.
pub open spec fn shown_artist_detail(
    model: StoreModel,
    id: EntityId,
) -> std::result::Result<ArtistDetailShown, ErrorView> {
    match model.artist_shown(id) {
        None => Err(not_found("artist "@, id)),
        Some(artist) => Ok(
            ArtistDetailShown {
                artist,
                albums: model.albums_shown(model.albums_by(id)),
                top_tracks: Seq::empty(),
            },
        ),
    }
}

/// The artist with where each top track plays from filled in.
pub open spec fn marked_artist(
    end: std::result::Result<ArtistDetailShown, ErrorView>,
    sources: SourcesModel,
) -> std::result::Result<ArtistDetailShown, ErrorView> {
    match end {
        Err(why) => Err(why),
        Ok(detail) => Ok(
            ArtistDetailShown { top_tracks: marked_tracks(detail.top_tracks, sources), ..detail },
        ),
    }
}

/// The playlist `id` as the library shows it.
pub open spec fn shown_playlist_detail(
    model: StoreModel,
    sources: SourcesModel,
    id: EntityId,
) -> std::result::Result<PlaylistDetailShown, ErrorView> {
    match model.playlist_detail(id) {
        None => Err(not_found("playlist "@, id)),
        Some(detail) => Ok(
            PlaylistDetailShown { tracks: marked_tracks(detail.tracks, sources), ..detail },
        ),
    }
}

/// A page of the saved library of one kind.
pub open spec fn shown_page(
    model: StoreModel,
    sources: SourcesModel,
    kind: EntityKind,
    query: Option<Seq<char>>,
    limit: int,
    offset: int,
) -> PageShown {
    let all = model.shelf(kind, query);
    let ids = page_of(all, limit, offset);
    PageShown {
        total: all.len() as int,
        tracks: if kind == EntityKind::Track {
            marked_tracks(model.tracks_shown(ids), sources)
        } else {
            Seq::empty()
        },
        albums: if kind == EntityKind::Album {
            model.albums_shown(ids)
        } else {
            Seq::empty()
        },
        artists: if kind == EntityKind::Artist {
            model.artists_shown(ids)
        } else {
            Seq::empty()
        },
        playlists: if kind == EntityKind::Playlist {
            model.playlists_shown(ids)
        } else {
            Seq::empty()
        },
    }
}

/// What fetching an album came to: a listing is taken in and shown; failing that, the library's
/// own copy, if it has one; failing that, why.
pub open spec fn album_after_fetch(
    before: StoreModel,
    after: StoreModel,
    sources: SourcesModel,
    known: Option<EntityId>,
    reply: Option<Result<AlbumListing>>,
    album_ids: Seq<EntityId>,
    track_ids: Seq<Seq<EntityId>>,
    now: i64,
    end: std::result::Result<AlbumDetailShown, ErrorView>,
) -> bool {
    match reply {
        Some(Ok(listing)) => match ingested_listing(
            before,
            listing@,
            album_ids,
            track_ids,
            now,
        ) {
            Err(why) => end == Err::<AlbumDetailShown, ErrorView>(why) && after == before,
            Ok((filled, id)) => after == filled && end == shown_album_detail(filled, sources, id),
        },
        Some(Err(e)) => after == before && match known {
            Some(id) => end == shown_album_detail(before, sources, id),
            None => end == Err::<AlbumDetailShown, ErrorView>(e@),
        },
        None => after == before && match known {
            Some(id) => end == shown_album_detail(before, sources, id),
            None => end == Err::<AlbumDetailShown, ErrorView>(
                ErrorView::NotFound("no such album"@),
            ),
        },
    }
}

/// What fetching an artist came to: a listing is taken in and shown; failing that, the library's
/// own copy, if it has one; failing that, why.
pub open spec fn artist_after_fetch(
    before: StoreModel,
    after: StoreModel,
    sources: SourcesModel,
    known: Option<EntityId>,
    reply: Option<Result<ArtistListing>>,
    ids: SupplyModel,
    now: i64,
    end: std::result::Result<ArtistDetailShown, ErrorView>,
) -> bool {
    match reply {
        Some(Ok(listing)) => match listed_artist(before, listing@, ids, now) {
            Err(why) => end == Err::<ArtistDetailShown, ErrorView>(why) && after == before,
            Ok((filled, detail)) => after == filled && end == marked_artist(Ok(detail), sources),
        },
        Some(Err(e)) => after == before && match known {
            Some(id) => end == shown_artist_detail(before, id),
            None => end == Err::<ArtistDetailShown, ErrorView>(e@),
        },
        None => after == before && match known {
            Some(id) => end == shown_artist_detail(before, id),
            None => end == Err::<ArtistDetailShown, ErrorView>(
                ErrorView::NotFound("no such artist"@),
            ),
        },
    }
}

/// What a search showed, each track marked with where it plays from.
pub open spec fn marked_search(way: Ingested<SearchShown>, sources: SourcesModel) -> Ingested<
    SearchShown,
> {
    match way {
        Err(why) => Err(why),
        Ok((after, found)) => Ok(
            (after, SearchShown { tracks: marked_tracks(found.tracks, sources), ..found }),
        ),
    }
}

/// A playlist was made and is shown, or the tables are as they were. The identifier and the time
/// are drawn; a drawn identifier that is already in use is refused.
pub open spec fn playlist_made(
    before: StoreModel,
    after: StoreModel,
    sources: SourcesModel,
    name: Seq<char>,
    tracks: Seq<EntityId>,
    id: EntityId,
    now: i64,
    end: std::result::Result<PlaylistDetailShown, ErrorView>,
) -> bool {
    match before.playlist_refusal(id, tracks) {
        Some(why) => after == before && end == Err::<PlaylistDetailShown, ErrorView>(why),
        None => after == before.with_playlist(id, name, tracks, now) && end
            == shown_playlist_detail(after, sources, id),
    }
}

/// The first of `bindings` on a service that can be browsed.
fn pick_browsable(sources: &Sources, bindings: &Vec<SourceRef>) -> (source: Option<SourceRef>)
    ensures
        opt_source(source) == first_browsable(sources@, sources_view(bindings@)),
{
    let ghost all = sources_view(bindings@);
    let ghost p = can_browse(sources@);
    let mut i: usize = 0;
    while i < bindings.len()
        invariant
            i <= bindings@.len(),
            all == sources_view(bindings@),
            p == can_browse(sources@),
            forall|k: int| 0 <= k < i ==> !p(#[trigger] all[k]),
        decreases bindings.len() - i,
    {
        assert(all[i as int] == bindings@[i as int]@);
        if sources.browses(bindings[i].service()) {
            proof {
                found_first(all, p, i as int);
            }
            return Some(bindings[i].clone());
        }
        i = i + 1;
    }
    proof {
        found_none(all, p);
    }
    None
}

impl Library {
    /// A library over an existing store.
    pub fn new(store: Store) -> (library: Self)
        ensures
            library@ == store@,
    {
        Library { store }
    }

    /// What `item` names: the library entity (and its kind) if the library has it, and a binding
    /// on a service that can be browsed for it, if there is one.
    pub fn locate(&self, sources: &Sources, item: &ItemRef) -> (found: Result<Located>)
        ensures
            seen(found) == located(self@, sources@, *item),
    {
        match item {
            ItemRef::Entity { entity } => {
                let known: Option<(EntityId, EntityKind)> = match self.store.kind_of(*entity) {
                    Some(kind) => Some((*entity, kind)),
                    None => None,
                };
                let bindings = self.store.sources(*entity);
                Ok(Located { known, binding: pick_browsable(sources, &bindings) })
            },
            ItemRef::Service { service, id, kind } => {
                let binding = match by_id(*service, id.as_str()) {
                    Ok(binding) => binding,
                    Err(e) => {
                        return Err(e);
                    },
                };
                let known: Option<(EntityId, EntityKind)> = match self.store.bound(*kind, &binding) {
                    Ok(Some(entity)) => Some((entity, *kind)),
                    Ok(None) => None,
                    Err(e) => {
                        return Err(e);
                    },
                };
                if sources.browses(*service) {
                    Ok(Located { known, binding: Some(binding) })
                } else {
                    Ok(Located { known, binding: None })
                }
            },
            ItemRef::Mix { .. } => Err(not_an_entity()),
        }
    }

    /// What to fetch so that `item`, which must be a `wanted`, can be shown whole.
    pub fn fetch_for(&self, sources: &Sources, item: &ItemRef, wanted: EntityKind) -> (fetch:
        Result<Fetch>)
        ensures
            seen(fetch) == to_fetch(self@, sources@, *item, wanted),
    {
        let found = match self.locate(sources, item) {
            Ok(found) => found,
            Err(e) => {
                return Err(e);
            },
        };
        let known: Option<EntityId> = match found.known {
            Some((id, kind)) => {
                if kind != wanted {
                    return Err(is_wrong_kind(kind, wanted));
                }
                Some(id)
            },
            None => {
                if let ItemRef::Service { service, .. } = item {
                    match sources.catalog(*service) {
                        Ok(_) => {},
                        Err(e) => {
                            return Err(e);
                        },
                    }
                }
                None
            },
        };
        Ok(Fetch { known, from: found.binding })
    }

    /// How `item` comes to be a library entity, bringing it into the library first if it is on a
    /// service the library hasn't seen it from yet.
    pub fn entity_for(&self, sources: &Sources, item: &ItemRef) -> (step: Result<EntityStep>)
        ensures
            seen(step) == entity_step(self@, sources@, *item),
    {
        let found = match self.locate(sources, item) {
            Ok(found) => found,
            Err(e) => {
                return Err(e);
            },
        };
        if let Some((id, kind)) = found.known {
            return Ok(EntityStep::Known(id, kind));
        }
        match item {
            ItemRef::Entity { entity } => Err(no_such("entity ", *entity)),
            ItemRef::Mix { .. } => Err(not_an_entity()),
            ItemRef::Service { service, id, kind } => match kind {
                EntityKind::Track => {
                    let binding = match by_id(*service, id.as_str()) {
                        Ok(binding) => binding,
                        Err(e) => {
                            return Err(e);
                        },
                    };
                    match sources.describe(&binding) {
                        Ok(_) => Ok(EntityStep::Describe(binding)),
                        Err(e) => Err(e),
                    }
                },
                EntityKind::Album => match self.fetch_for(sources, item, *kind) {
                    Ok(fetch) => Ok(EntityStep::Album(fetch)),
                    Err(e) => Err(e),
                },
                EntityKind::Artist => match self.fetch_for(sources, item, *kind) {
                    Ok(fetch) => Ok(EntityStep::Artist(fetch)),
                    Err(e) => Err(e),
                },
                EntityKind::Playlist => {
                    let mut text = concat("playlists are canon's own; ", service.as_str());
                    text.append(" ones can't be named here");
                    Err(Error::Unsupported(text))
                },
            },
        }
    }

    /// The track a binding names, if the library has it.
    pub fn bound_track(&self, binding: &SourceRef) -> (track: Result<Option<TrackRef>>)
        ensures
            match track {
                Ok(found) => key_of(binding@) is Some && opt_track(found) == bound_track(
                    self@,
                    binding@,
                ),
                Err(e) => key_of(binding@) is None && e@ == no_key(binding@),
            },
    {
        match self.store.bound(EntityKind::Track, binding) {
            Ok(Some(id)) => Ok(self.store.track_ref(id)),
            Ok(None) => Ok(None),
            Err(e) => Err(e),
        }
    }

    /// How `item` comes to be tracks, for a queue or a playlist edit.
    pub fn tracks_named(&self, sources: &Sources, item: &ItemRef) -> (step: Result<NameStep>)
        ensures
            seen(step) == name_step(self@, sources@, *item),
    {
        match item {
            ItemRef::Mix { service, mix } => match sources.catalog(*service) {
                Ok(_) => Ok(NameStep::Mix { service: *service, mix: mix.clone() }),
                Err(e) => Err(e),
            },
            ItemRef::Entity { entity } => match self.store.kind_of(*entity) {
                None => Err(no_such("entity ", *entity)),
                Some(EntityKind::Album) => match self.fetch_for(
                    sources,
                    item,
                    EntityKind::Album,
                ) {
                    Ok(fetch) => Ok(NameStep::Album(fetch)),
                    Err(e) => Err(e),
                },
                Some(_) => match self.store.expand(*entity) {
                    Ok(tracks) => Ok(NameStep::Tracks(tracks)),
                    Err(e) => Err(e),
                },
            },
            ItemRef::Service { service, id, kind } => {
                let binding = match by_id(*service, id.as_str()) {
                    Ok(binding) => binding,
                    Err(e) => {
                        return Err(e);
                    },
                };
                match kind {
                    EntityKind::Track => match self.bound_track(&binding) {
                        Ok(Some(track)) => {
                            let mut tracks: Vec<TrackRef> = Vec::new();
                            tracks.push(track);
                            assert(tracks_view(tracks@) =~= seq![track@]);
                            Ok(NameStep::Tracks(tracks))
                        },
                        Ok(None) => match sources.describe(&binding) {
                            Ok(_) => Ok(NameStep::Describe(binding)),
                            Err(e) => Err(e),
                        },
                        Err(e) => Err(e),
                    },
                    EntityKind::Album => match self.fetch_for(sources, item, EntityKind::Album) {
                        Ok(fetch) => Ok(NameStep::Album(fetch)),
                        Err(e) => Err(e),
                    },
                    _ => match self.store.bound(*kind, &binding) {
                        Ok(Some(entity)) => match self.store.expand(entity) {
                            Ok(tracks) => Ok(NameStep::Tracks(tracks)),
                            Err(e) => Err(e),
                        },
                        Ok(None) => Err(crate::view::is_not_tracks()),
                        Err(e) => Err(e),
                    },
                }
            },
        }
    }

    /// A binding of `entity` on a service that can be browsed.
    pub fn browsable(&self, sources: &Sources, entity: EntityId) -> (source: Result<SourceRef>)
        ensures
            match source {
                Ok(source) => first_browsable(sources@, self@.sources_of(entity)) == Some(source@),
                Err(e) => first_browsable(sources@, self@.sources_of(entity)) is None && e@
                    == nowhere_to_browse(),
            },
    {
        let bindings = self.store.sources(entity);
        match pick_browsable(sources, &bindings) {
            Some(source) => Ok(source),
            None => Err(
                Error::Unsupported("it isn't on a service that can be browsed".to_owned()),
            ),
        }
    }

    /// Where the radio for an entity is seeded: a track or an artist, on a service to ask.
    pub fn radio(&self, sources: &Sources, entity: EntityId, kind: EntityKind) -> (seed: Result<
        Seed,
    >)
        ensures
            match seed {
                Ok(seed) => seed_for(self@, sources@, entity, kind) == Ok::<
                    (bool, SourceView),
                    ErrorView,
                >(seed_view(seed)),
                Err(e) => seed_for(self@, sources@, entity, kind) == Err::<
                    (bool, SourceView),
                    ErrorView,
                >(e@),
            },
    {
        let binding = match self.browsable(sources, entity) {
            Ok(binding) => binding,
            Err(e) => {
                return Err(e);
            },
        };
        match kind {
            EntityKind::Track => Ok(Seed::Track(binding)),
            EntityKind::Artist => Ok(Seed::Artist(binding)),
            EntityKind::Album => Err(
                Error::Unsupported(
                    "radio starts from a track or an artist, not an album".to_owned(),
                ),
            ),
            EntityKind::Playlist => Err(
                Error::Unsupported(
                    "radio starts from a track or an artist, not a playlist".to_owned(),
                ),
            ),
        }
    }

    /// The binding to ask a service about for artists like this one.
    pub fn similar(&self, sources: &Sources, artist: EntityId, kind: EntityKind) -> (source:
        Result<SourceRef>)
        ensures
            match source {
                Ok(source) => kind == EntityKind::Artist && first_browsable(
                    sources@,
                    self@.sources_of(artist),
                ) == Some(source@),
                Err(e) => if kind != EntityKind::Artist {
                    e@ == wrong_kind(kind, EntityKind::Artist)
                } else {
                    first_browsable(sources@, self@.sources_of(artist)) is None && e@
                        == nowhere_to_browse()
                },
            },
    {
        if kind != EntityKind::Artist {
            return Err(is_wrong_kind(kind, EntityKind::Artist));
        }
        self.browsable(sources, artist)
    }

    /// The library's own copy of an album, marked with where each track plays from.
    fn kept_album(&self, sources: &Sources, id: EntityId) -> (shown: Result<AlbumDetail>)
        ensures
            seen(shown) == shown_album_detail(self@, sources@, id),
    {
        match self.store.album_detail(id) {
            Some(detail) => {
                let shown = AlbumDetail {
                    album: detail.album,
                    tracks: mark_listing(sources, detail.tracks),
                };
                assert(shown@ =~= shown_album_detail(self@, sources@, id)->Ok_0);
                Ok(shown)
            },
            None => Err(no_such("album ", id)),
        }
    }

    /// An album and its whole tracklist, given what its service replied (if it was asked). Its
    /// listing is taken in, so the tracklist is complete; if the service failed, what the library
    /// already has is shown.
    pub fn album(
        &mut self,
        sources: &Sources,
        known: Option<EntityId>,
        reply: Option<Result<AlbumListing>>,
    ) -> (shown: Result<AlbumDetail>)
        requires
            reply matches Some(Ok(listing)) ==> album_needs(listing.album@) <= usize::MAX
                && countable_tracks(described_view(listing.tracks@)),
        ensures
            exists|album_ids: Seq<EntityId>, track_ids: Seq<Seq<EntityId>>, now: i64| #[trigger]
                album_after_fetch(
                    old(self)@,
                    final(self)@,
                    sources@,
                    known,
                    reply,
                    album_ids,
                    track_ids,
                    now,
                    seen(shown),
                ),
    {
        let ghost before = self@;
        let id: EntityId = match reply {
            Some(Ok(listing)) => {
                assert forall|i: int| 0 <= i < listing.tracks@.len() implies track_needs(
                    (#[trigger] listing.tracks@[i])@,
                ) <= usize::MAX by {
                    assert(described_view(listing.tracks@)[i] == listing.tracks@[i]@);
                }
                let done = self.store.ingest_album_listing(&listing);
                let ghost (album_ids, track_ids, now) = choose|
                    album_ids: Seq<EntityId>,
                    track_ids: Seq<Seq<EntityId>>,
                    now: i64,
                |
                    #[trigger] listing_outcome(
                        before,
                        self@,
                        listing@,
                        album_ids,
                        track_ids,
                        now,
                        done,
                    );
                match done {
                    Ok(id) => {
                        let shown = self.kept_album(sources, id);
                        assert(album_after_fetch(
                            before,
                            self@,
                            sources@,
                            known,
                            reply,
                            album_ids,
                            track_ids,
                            now,
                            seen(shown),
                        ));
                        return shown;
                    },
                    Err(e) => {
                        let shown: Result<AlbumDetail> = Err(e);
                        assert(album_after_fetch(
                            before,
                            self@,
                            sources@,
                            known,
                            reply,
                            album_ids,
                            track_ids,
                            now,
                            seen(shown),
                        ));
                        return shown;
                    },
                }
            },
            Some(Err(e)) => match known {
                Some(id) => id,
                None => {
                    let shown: Result<AlbumDetail> = Err(e);
                    assert(album_after_fetch(
                        before,
                        self@,
                        sources@,
                        known,
                        reply,
                        Seq::empty(),
                        Seq::empty(),
                        0,
                        seen(shown),
                    ));
                    return shown;
                },
            },
            None => match known {
                Some(id) => id,
                None => {
                    let shown: Result<AlbumDetail> = Err(
                        Error::NotFound("no such album".to_owned()),
                    );
                    assert(album_after_fetch(
                        before,
                        self@,
                        sources@,
                        known,
                        reply,
                        Seq::empty(),
                        Seq::empty(),
                        0,
                        seen(shown),
                    ));
                    return shown;
                },
            },
        };
        let shown = self.kept_album(sources, id);
        assert(album_after_fetch(
            before,
            self@,
            sources@,
            known,
            reply,
            Seq::empty(),
            Seq::empty(),
            0,
            seen(shown),
        ));
        shown
    }

    /// The library's own copy of an artist.
    fn kept_artist(&self, id: EntityId) -> (shown: Result<ArtistDetail>)
        ensures
            seen(shown) == shown_artist_detail(self@, id),
    {
        match self.store.artist_view(id) {
            Some(artist) => {
                let albums = self.store.album_views(&self.store.albums_by(id));
                let top_tracks: Vec<TrackView> = Vec::new();
                let shown = ArtistDetail { artist, albums, top_tracks };
                assert(shown@ =~= shown_artist_detail(self@, id)->Ok_0);
                Ok(shown)
            },
            None => Err(no_such("artist ", id)),
        }
    }

    /// An artist, their releases and top tracks, given what their service replied (if it was
    /// asked). As for an album, a listing is taken in; failing that, the library's albums credited
    /// to them are shown.
    pub fn artist(
        &mut self,
        sources: &Sources,
        known: Option<EntityId>,
        reply: Option<Result<ArtistListing>>,
    ) -> (shown: Result<ArtistDetail>)
        requires
            reply matches Some(Ok(listing)) ==> countable_tracks(listing@.top_tracks)
                && countable_albums(listing@.albums),
        ensures
            exists|ids: SupplyModel, now: i64| #[trigger]
                artist_after_fetch(
                    old(self)@,
                    final(self)@,
                    sources@,
                    known,
                    reply,
                    ids,
                    now,
                    seen(shown),
                ),
    {
        let ghost before = self@;
        let ghost nothing = SupplyModel {
            tracks: Seq::empty(),
            albums: Seq::empty(),
            artists: Seq::empty(),
        };
        match reply {
            Some(Ok(listing)) => {
                let done = self.store.take_in_artist(&listing);
                let ghost (ids, now) = choose|ids: SupplyModel, now: i64|
                    serves_artist(ids, listing@) && led(
                        #[trigger] listed_artist(before, listing@, ids, now),
                        before,
                        self@,
                        seen(done),
                    );
                let shown: Result<ArtistDetail> = match done {
                    Ok(detail) => {
                        let top_tracks = mark(sources, detail.top_tracks);
                        let shown = ArtistDetail {
                            artist: detail.artist,
                            albums: detail.albums,
                            top_tracks,
                        };
                        assert(shown@ =~= marked_artist(Ok(detail@), sources@)->Ok_0);
                        Ok(shown)
                    },
                    Err(e) => Err(e),
                };
                assert(artist_after_fetch(
                    before,
                    self@,
                    sources@,
                    known,
                    reply,
                    ids,
                    now,
                    seen(shown),
                ));
                shown
            },
            Some(Err(e)) => {
                let shown: Result<ArtistDetail> = match known {
                    Some(id) => self.kept_artist(id),
                    None => Err(e),
                };
                assert(artist_after_fetch(
                    before,
                    self@,
                    sources@,
                    known,
                    reply,
                    nothing,
                    0,
                    seen(shown),
                ));
                shown
            },
            None => {
                let shown: Result<ArtistDetail> = match known {
                    Some(id) => self.kept_artist(id),
                    None => Err(Error::NotFound("no such artist".to_owned())),
                };
                assert(artist_after_fetch(
                    before,
                    self@,
                    sources@,
                    known,
                    reply,
                    nothing,
                    0,
                    seen(shown),
                ));
                shown
            },
        }
    }

    /// Track views for `ids`, in order, marked with where each plays from.
    pub fn track_views(&self, sources: &Sources, ids: &Vec<EntityId>) -> (shown: Vec<TrackView>)
        ensures
            track_views_view(shown@) == marked_tracks(self@.tracks_shown(ids@), sources@),
    {
        mark(sources, self.store.track_views(ids))
    }

    /// The playlist `id` and its tracks, marked with where each plays from.
    pub fn playlist(&self, sources: &Sources, id: EntityId) -> (shown: Result<PlaylistDetail>)
        ensures
            seen(shown) == shown_playlist_detail(self@, sources@, id),
    {
        match self.store.playlist_detail(id) {
            Some(detail) => {
                let shown = PlaylistDetail {
                    playlist: detail.playlist,
                    tracks: mark(sources, detail.tracks),
                };
                assert(shown@ =~= shown_playlist_detail(self@, sources@, id)->Ok_0);
                Ok(shown)
            },
            None => Err(no_such("playlist ", id)),
        }
    }

    /// Delete the playlist `id`.
    pub fn delete_playlist(&mut self, id: EntityId) -> (done: Result<()>)
        ensures
            final(self)@ == old(self)@.without_playlist(id),
            match done {
                Ok(_) => old(self)@.playlist_at(id) is Some,
                Err(e) => old(self)@.playlist_at(id) is None && e@ == not_found("playlist "@, id),
            },
    {
        if self.store.delete_playlist(id) {
            Ok(())
        } else {
            Err(no_such("playlist ", id))
        }
    }

    /// Add `tracks` to the playlist `id`, at position `at` (the end if there is none given).
    pub fn playlist_add(&mut self, id: EntityId, tracks: Vec<EntityId>, at: Option<usize>) -> (done:
        Result<()>)
        ensures
            playlist_changed(
                old(self)@,
                final(self)@,
                id,
                PlaylistEdit::Insert { at, tracks },
                done,
            ),
    {
        self.store.edit_playlist(id, PlaylistEdit::Insert { at, tracks })
    }

    /// Take the entry at `index` out of the playlist `id`.
    pub fn playlist_remove(&mut self, id: EntityId, index: usize) -> (done: Result<()>)
        ensures
            playlist_changed(
                old(self)@,
                final(self)@,
                id,
                PlaylistEdit::Remove { index },
                done,
            ),
    {
        self.store.edit_playlist(id, PlaylistEdit::Remove { index })
    }

    /// Move the entry of the playlist `id` at `from` so it sits at `to`.
    pub fn playlist_move(&mut self, id: EntityId, from: usize, to: usize) -> (done: Result<()>)
        ensures
            playlist_changed(
                old(self)@,
                final(self)@,
                id,
                PlaylistEdit::Move { from, to },
                done,
            ),
    {
        self.store.edit_playlist(id, PlaylistEdit::Move { from, to })
    }

    /// A page of the saved library of one kind, filtered by `query` if given. Tracks are marked
    /// with where each plays from.
    pub fn saved(
        &self,
        sources: &Sources,
        kind: EntityKind,
        query: &Option<String>,
        limit: usize,
        offset: usize,
    ) -> (page: LibraryPage)
        ensures
            page@ == shown_page(
                self@,
                sources@,
                kind,
                opt_text(*query),
                limit as int,
                offset as int,
            ),
    {
        let (ids, total) = self.store.saved_page(kind, query, limit, offset);
        let mut page = LibraryPage {
            total,
            tracks: Vec::new(),
            albums: Vec::new(),
            artists: Vec::new(),
            playlists: Vec::new(),
        };
        match kind {
            EntityKind::Track => {
                page.tracks = mark(sources, self.store.track_views(&ids));
            },
            EntityKind::Album => {
                page.albums = self.store.album_views(&ids);
            },
            EntityKind::Artist => {
                page.artists = self.store.artist_views(&ids);
            },
            EntityKind::Playlist => {
                page.playlists = self.store.playlist_views(&ids);
            },
        }
        assert(page@ =~= shown_page(
            self@,
            sources@,
            kind,
            opt_text(*query),
            limit as int,
            offset as int,
        ));
        page
    }

    /// The mixes a service has made, as clients are shown them.
    pub fn mixes(service: Service, found: &Vec<SourceMix>) -> (shown: Vec<MixView>)
        ensures
            shown@.len() == found@.len(),
            forall|i: int|
                0 <= i < found@.len() ==> {
                    let view = #[trigger] shown@[i];
                    &&& view.service == service
                    &&& view.mix == found@[i].id
                    &&& view.name == found@[i].name
                    &&& view.description == found@[i].description
                },
    {
        let mut shown: Vec<MixView> = Vec::new();
        let mut i: usize = 0;
        while i < found.len()
            invariant
                i <= found@.len(),
                shown@.len() == i,
                forall|k: int|
                    0 <= k < i ==> {
                        let view = #[trigger] shown@[k];
                        &&& view.service == service
                        &&& view.mix == found@[k].id
                        &&& view.name == found@[k].name
                        &&& view.description == found@[k].description
                    },
            decreases found.len() - i,
        {
            shown.push(
                MixView {
                    service,
                    mix: found[i].id.clone(),
                    name: found[i].name.clone(),
                    description: found[i].description.clone(),
                },
            );
            i = i + 1;
        }
        shown
    }

    /// Take in what a search found, all of it or nothing, and show it.
    pub fn search(&mut self, sources: &Sources, found: &SearchResults) -> (shown: Result<
        SearchView,
    >)
        requires
            countable_tracks(found@.tracks),
            countable_albums(found@.albums),
        ensures
            exists|ids: SupplyModel, now: i64|
                serves_search(ids, found@) && led(
                    marked_search(
                        #[trigger] searched(old(self)@, found@, ids, now),
                        sources@,
                    ),
                    old(self)@,
                    final(self)@,
                    seen(shown),
                ),
    {
        let ghost before = self@;
        let done = self.store.take_in_search(found);
        let ghost (ids, now) = choose|ids: SupplyModel, now: i64|
            serves_search(ids, found@) && led(
                #[trigger] searched(before, found@, ids, now),
                before,
                self@,
                seen(done),
            );
        let shown: Result<SearchView> = match done {
            Ok(view) => Ok(
                SearchView {
                    tracks: mark(sources, view.tracks),
                    albums: view.albums,
                    artists: view.artists,
                },
            ),
            Err(e) => Err(e),
        };
        assert(led(
            marked_search(searched(before, found@, ids, now), sources@),
            before,
            self@,
            seen(shown),
        ));
        shown
    }

    /// Take in the tracks of a mix or a radio station, all of them or none. What they came to, in
    /// order.
    pub fn mix(&mut self, found: &Vec<SourceTrack>) -> (tracks: Result<Vec<EntityId>>)
        requires
            countable_tracks(described_view(found@)),
        ensures
            exists|ids: Seq<Seq<EntityId>>, now: i64|
                serves_tracks(ids, described_view(found@)) && led(
                    each(old(self)@, described_view(found@), #[trigger] track_step(ids, now)),
                    old(self)@,
                    final(self)@,
                    ids_result(tracks),
                ),
    {
        self.store.take_in_tracks(found)
    }

    /// Bring in the favorites and the playlists the user keeps on a service, all of them or none.
    pub fn import(&mut self, favorites: &Favorites, playlists: &Vec<SourcePlaylist>) -> (report:
        Result<ImportReport>)
        requires
            countable_tracks(items(favorites@.tracks)),
            countable_albums(items(favorites@.albums)),
            forall|i: int|
                0 <= i < playlists@.len() ==> countable_tracks(
                    (#[trigger] playlists@[i])@.tracks,
                ),
        ensures
            exists|
                ids: SupplyModel,
                playlist_ids: Seq<EntityId>,
                playlist_tracks: Seq<Seq<Seq<EntityId>>>,
                now: i64,
            |
                serves_favorites(ids, favorites@) && serves_playlists(
                    playlist_ids,
                    playlist_tracks,
                    source_playlists_view(playlists@),
                ) && led(
                    #[trigger] imported(
                        old(self)@,
                        favorites@,
                        source_playlists_view(playlists@),
                        ids,
                        playlist_ids,
                        playlist_tracks,
                        now,
                    ),
                    old(self)@,
                    final(self)@,
                    result_view(report),
                ),
    {
        let ghost before = self@;
        let ghost lists = source_playlists_view(playlists@);
        let report = self.store.import(favorites, playlists);
        let ghost (ids, playlist_ids, playlist_tracks, now) = choose|
            ids: SupplyModel,
            playlist_ids: Seq<EntityId>,
            playlist_tracks: Seq<Seq<Seq<EntityId>>>,
            now: i64,
        |
            serves_favorites(ids, favorites@) && serves_playlists(
                playlist_ids,
                playlist_tracks,
                lists,
            ) && led(
                #[trigger] imported(
                    before,
                    favorites@,
                    lists,
                    ids,
                    playlist_ids,
                    playlist_tracks,
                    now,
                ),
                before,
                self@,
                result_view(report),
            );
        assert(led(
            imported(before, favorites@, lists, ids, playlist_ids, playlist_tracks, now),
            before,
            self@,
            result_view(report),
        ));
        report
    }

    /// Put an entity in the user's library, dated now unless it is in it already.
    pub fn save(&mut self, id: EntityId) -> (done: Result<()>)
        ensures
            match done {
                Ok(_) => old(self)@.save_refusal(id) is None && exists|when: i64|
                    when >= 0 && final(self)@ == #[trigger] old(self)@.with_saved(id, when),
                Err(e) => old(self)@.save_refusal(id) == Some(e@) && final(self)@ == old(self)@,
            },
    {
        self.store.save(id)
    }

    /// Take an entity out of the user's library. Whether it was in it.
    pub fn unsave(&mut self, id: EntityId) -> (was_in: bool)
        ensures
            was_in == (old(self)@.saved_at(id) is Some),
            final(self)@ == old(self)@.without_saved(id),
    {
        self.store.unsave(id)
    }

    /// The queueable tracks of these ids, in order, leaving out those the library doesn't have.
    pub fn track_refs(&self, ids: &Vec<EntityId>) -> (tracks: Vec<TrackRef>)
        ensures
            tracks_view(tracks@) == self@.track_refs(ids@),
    {
        self.store.track_refs(ids)
    }

    /// Make a playlist of `tracks`, and show it.
    pub fn create_playlist(&mut self, sources: &Sources, name: &str, tracks: &Vec<EntityId>) -> (
        shown: Result<PlaylistDetail>)
        ensures
            exists|id: EntityId, now: i64| #[trigger]
                playlist_made(
                    old(self)@,
                    final(self)@,
                    sources@,
                    name@,
                    tracks@,
                    id,
                    now,
                    seen(shown),
                ),
    {
        let ghost before = self@;
        let id = EntityId::new();
        let now: i64 = now_ms();
        let shown: Result<PlaylistDetail> = match self.store.insert_playlist(id, name, tracks, now)
        {
            Ok(_) => self.playlist(sources, id),
            Err(e) => Err(e),
        };
        assert(playlist_made(before, self@, sources@, name@, tracks@, id, now, seen(shown)));
        shown
    }

    /// Give a playlist another name.
    pub fn rename_playlist(&mut self, id: EntityId, name: &str) -> (done: Result<()>)
        ensures
            match done {
                Ok(_) => old(self)@.playlist_at(id) is Some && exists|now: i64|
                    now >= 0 && final(self)@ == #[trigger] old(self)@.with_playlist_renamed(
                        id,
                        name@,
                        now,
                    ),
                Err(e) => old(self)@.playlist_at(id) is None && e@ == not_found("playlist "@, id)
                    && final(self)@ == old(self)@,
            },
    {
        self.store.rename_playlist(id, name)
    }

    /// Take in a track its service described, ready to play.
    pub fn described(&mut self, described: &SourceTrack) -> (track: Result<TrackRef>)
        requires
            track_needs(described@) <= usize::MAX,
        ensures
            exists|done: Result<EntityId>, ids: Seq<EntityId>, now: i64|
                ids.len() == track_needs(described@) && #[trigger] track_outcome(
                    old(self)@,
                    final(self)@,
                    described@,
                    ids,
                    now,
                    done,
                ) && match done {
                    Ok(id) => match final(self)@.track_ref(id) {
                        Some(found) => track is Ok && track->Ok_0@ == found,
                        None => track is Err && track->Err_0@ == vanished(id),
                    },
                    Err(e) => track is Err && track->Err_0@ == e@,
                },
    {
        let ghost before = self@;
        let done = self.store.ingest_track(described);
        let ghost (ids, now) = choose|ids: Seq<EntityId>, now: i64|
            ids.len() == track_needs(described@) && #[trigger] track_outcome(
                before,
                self@,
                described@,
                ids,
                now,
                done,
            );
        assert(track_outcome(before, self@, described@, ids, now, done));
        match done {
            Ok(id) => match self.store.track_ref(id) {
                Some(track) => Ok(track),
                None => {
                    let mut text = concat("track ", id.text().as_str());
                    text.append(" vanished while ingesting");
                    Err(Error::Library(text))
                },
            },
            Err(e) => Err(e),
        }
    }
}

/// A track was not there to play after it was taken in.
pub open spec fn vanished(id: EntityId) -> ErrorView {
    ErrorView::Library("track "@ + crate::id::uuid_text(id.0) + " vanished while ingesting"@)
}

/// Editing a playlist led from `before` to `after` and came to `done`.
pub open spec fn playlist_changed(
    before: StoreModel,
    after: StoreModel,
    id: EntityId,
    edit: PlaylistEdit,
    done: Result<()>,
) -> bool {
    match done {
        Ok(_) => before.playlist_edit_refusal(id, edit) is None && exists|now: i64|
            now >= 0 && after == #[trigger] before.with_playlist_edited(id, edit, now),
        Err(e) => before.playlist_edit_refusal(id, edit) == Some(e@) && after == before,
    }
}

/// The binding browsed is the first listed that is on a service that can be.
pub proof fn the_first_browsable_binding_is_used(sources: SourcesModel, bindings: Seq<SourceView>)
    ensures
        match first_browsable(sources, bindings) {
            Some(source) => exists|i: int|
                0 <= i < bindings.len() && #[trigger] bindings[i] == source
                    && sources.browsing.contains(source.service()) && (forall|k: int|
                    0 <= k < i ==> !sources.browsing.contains((#[trigger] bindings[k]).service())),
            None => forall|k: int|
                0 <= k < bindings.len() ==> !sources.browsing.contains(
                    (#[trigger] bindings[k]).service(),
                ),
        },
{
    let p = can_browse(sources);
    first_at_matches(bindings, p);
    match first_at(bindings, p) {
        Some(i) => {
            assert(p(bindings[i]));
            assert forall|k: int| 0 <= k < i implies !sources.browsing.contains(
                (#[trigger] bindings[k]).service(),
            ) by {
                assert(!p(bindings[k]));
            }
        },
        None => {
            assert forall|k: int| 0 <= k < bindings.len() implies !sources.browsing.contains(
                (#[trigger] bindings[k]).service(),
            ) by {
                assert(!p(bindings[k]));
            }
        },
    }
}

/// An item named by its library id is what the library has under that id.
pub proof fn an_entity_is_located_by_its_id(
    model: StoreModel,
    sources: SourcesModel,
    entity: EntityId,
)
    ensures
        ({
            let found = located(model, sources, ItemRef::Entity { entity });
            &&& found is Ok
            &&& model.track_at(entity) is Some ==> found->Ok_0.known == Some(
                (entity, EntityKind::Track),
            )
            &&& model.kind_of(entity) is Some ==> found->Ok_0.known is Some && (
            found->Ok_0.known->0).0 == entity && (found->Ok_0.known->0).1 == model.kind_of(entity)->0
            &&& model.kind_of(entity) is None ==> found->Ok_0.known is None
            &&& found->Ok_0.binding is Some ==> sources.browsing.contains(
                found->Ok_0.binding->0.service(),
            )
        }),
{
    the_first_browsable_binding_is_used(sources, model.sources_of(entity));
}

/// An item named by a service's id is what that service's key of that kind names, and is to be had
/// from that service where it can be browsed. A local file has no such id.
pub proof fn an_item_is_located_by_its_services_id(
    model: StoreModel,
    sources: SourcesModel,
    id: String,
    kind: EntityKind,
)
    ensures
        located(
            model,
            sources,
            ItemRef::Service { service: Service::Local, id, kind },
        ) is Err,
        ({
            let found = located(
                model,
                sources,
                ItemRef::Service { service: Service::Tidal, id, kind },
            );
            &&& found is Ok
            &&& model.bound(kind, SourceView::Tidal(id@)) is Some ==> found->Ok_0.known == Some(
                (model.bound(kind, SourceView::Tidal(id@))->0, kind),
            )
            &&& model.bound(kind, SourceView::Tidal(id@)) is None ==> found->Ok_0.known is None
            &&& sources.browsing.contains(Service::Tidal) ==> found->Ok_0.binding == Some(
                SourceView::Tidal(id@),
            )
            &&& !sources.browsing.contains(Service::Tidal) ==> found->Ok_0.binding is None
        }),
        ({
            let found = located(
                model,
                sources,
                ItemRef::Service { service: Service::Spotify, id, kind },
            );
            &&& found is Ok
            &&& model.bound(kind, SourceView::Spotify(id@)) is Some ==> found->Ok_0.known == Some(
                (model.bound(kind, SourceView::Spotify(id@))->0, kind),
            )
            &&& model.bound(kind, SourceView::Spotify(id@)) is None ==> found->Ok_0.known is None
            &&& sources.browsing.contains(Service::Spotify) ==> found->Ok_0.binding == Some(
                SourceView::Spotify(id@),
            )
            &&& !sources.browsing.contains(Service::Spotify) ==> found->Ok_0.binding is None
        }),
{
}

/// A page is made from what the library knows and from the service it is to be had from; what is
/// known to be of another kind is refused.
pub proof fn a_page_is_fetched_for_what_was_asked(
    model: StoreModel,
    sources: SourcesModel,
    item: ItemRef,
    wanted: EntityKind,
)
    requires
        located(model, sources, item) is Ok,
    ensures
        ({
            let found = located(model, sources, item)->Ok_0;
            let fetch = to_fetch(model, sources, item, wanted);
            &&& found.known is Some && (found.known->0).1 == wanted ==> fetch is Ok
                && fetch->Ok_0.known == Some((found.known->0).0) && fetch->Ok_0.from
                == found.binding
            &&& found.known is Some && (found.known->0).1 != wanted ==> fetch is Err
            &&& found.known is None && found.binding is Some ==> fetch is Ok
                && fetch->Ok_0.known is None && fetch->Ok_0.from == found.binding
        }),
{
}

/// An entity the library knows is taken as it is. A track it does not know is described by the
/// service named, where that service plays; an album or an artist is fetched from it.
pub proof fn an_unknown_item_is_asked_of_its_service(
    model: StoreModel,
    sources: SourcesModel,
    id: String,
    kind: EntityKind,
)
    ensures
        ({
            let source = SourceView::Tidal(id@);
            let step = entity_step(
                model,
                sources,
                ItemRef::Service { service: Service::Tidal, id, kind },
            );
            &&& model.bound(kind, source) is Some ==> step == Ok::<EntityStepView, ErrorView>(
                EntityStepView::Known(model.bound(kind, source)->0, kind),
            )
            &&& model.bound(kind, source) is None && kind == EntityKind::Track
                && sources.playing.contains(Service::Tidal) ==> step == Ok::<
                EntityStepView,
                ErrorView,
            >(EntityStepView::Describe(source))
            &&& model.bound(kind, source) is None && kind == EntityKind::Track
                && !sources.playing.contains(Service::Tidal) ==> step is Err
            &&& model.bound(kind, source) is None && kind == EntityKind::Album
                && sources.browsing.contains(Service::Tidal) ==> step == Ok::<
                EntityStepView,
                ErrorView,
            >(EntityStepView::Album(FetchView { known: None, from: Some(source) }))
            &&& model.bound(kind, source) is None && kind == EntityKind::Artist
                && sources.browsing.contains(Service::Tidal) ==> step == Ok::<
                EntityStepView,
                ErrorView,
            >(EntityStepView::Artist(FetchView { known: None, from: Some(source) }))
            &&& model.bound(kind, source) is None && kind == EntityKind::Playlist ==> step is Err
        }),
{
}

/// What is asked to be played is what the item holds: a mix is asked of its service, an album is
/// fetched, a track the library has is itself, and one it has not is described by its service.
pub proof fn what_is_named_is_what_plays(
    model: StoreModel,
    sources: SourcesModel,
    entity: EntityId,
    service: Service,
    id: String,
)
    ensures
        name_step(model, sources, ItemRef::Mix { service, mix: id }) == (if sources.browsing.contains(
            service,
        ) {
            Ok::<NameStepView, ErrorView>(NameStepView::Mix { service, mix: id@ })
        } else {
            Err::<NameStepView, ErrorView>(not_browsable(service))
        }),
        model.kind_of(entity) == Some(EntityKind::Track) ==> name_step(
            model,
            sources,
            ItemRef::Entity { entity },
        ) == Ok::<NameStepView, ErrorView>(
            NameStepView::Tracks(seq![model.track_ref(entity)->0]),
        ),
        model.kind_of(entity) == Some(EntityKind::Album) ==> name_step(
            model,
            sources,
            ItemRef::Entity { entity },
        ) == Ok::<NameStepView, ErrorView>(
            NameStepView::Album(
                FetchView {
                    known: Some(entity),
                    from: first_browsable(sources, model.sources_of(entity)),
                },
            ),
        ),
        ({
            let source = SourceView::Spotify(id@);
            let known = model.bound(EntityKind::Track, source);
            let step = name_step(
                model,
                sources,
                ItemRef::Service { service: Service::Spotify, id, kind: EntityKind::Track },
            );
            &&& known is Some && model.track_ref(known->0) is Some ==> step == Ok::<
                NameStepView,
                ErrorView,
            >(NameStepView::Tracks(seq![model.track_ref(known->0)->0]))
            &&& known is None && sources.playing.contains(Service::Spotify) ==> step == Ok::<
                NameStepView,
                ErrorView,
            >(NameStepView::Describe(source))
        }),
{
    if model.kind_of(entity) == Some(EntityKind::Track) {
        crate::showing::a_track_plays_as_itself(model, entity);
        assert(model.expansion(entity)->Ok_0 =~= seq![model.track_ref(entity)->0]);
    }
}

/// Radio grows from a track or an artist, from the first place it can be browsed at, and from
/// nothing else.
pub proof fn radio_grows_from_tracks_and_artists(
    model: StoreModel,
    sources: SourcesModel,
    entity: EntityId,
    kind: EntityKind,
)
    ensures
        ({
            let from = first_browsable(sources, model.sources_of(entity));
            let seed = seed_for(model, sources, entity, kind);
            &&& seed is Ok <==> from is Some && (kind == EntityKind::Track || kind
                == EntityKind::Artist)
            &&& seed is Ok ==> seed->Ok_0.1 == from->0
            &&& seed is Ok ==> seed->Ok_0.0 == (kind == EntityKind::Track)
        }),
{
}

/// A service that fails costs an album its news, not its page: what the library has is shown.
pub proof fn a_failed_fetch_shows_what_is_kept(
    before: StoreModel,
    after: StoreModel,
    sources: SourcesModel,
    id: EntityId,
    e: Error,
    album_ids: Seq<EntityId>,
    track_ids: Seq<Seq<EntityId>>,
    now: i64,
    end: std::result::Result<AlbumDetailShown, ErrorView>,
)
    requires
        album_after_fetch(
            before,
            after,
            sources,
            Some(id),
            Some(Err(e)),
            album_ids,
            track_ids,
            now,
            end,
        ),
        before.album_detail(id) is Some,
    ensures
        after == before,
        end is Ok,
        end->Ok_0.album == before.album_detail(id)->0.album,
        end->Ok_0.tracks.len() == before.album_detail(id)->0.tracks.len(),
        forall|k: int|
            0 <= k < end->Ok_0.tracks.len() ==> (#[trigger] end->Ok_0.tracks[k]).track.id
                == before.album_detail(id)->0.tracks[k].track.id,
{
}

/// Marking tracks says of each where it would play from, and changes nothing else of any.
pub proof fn marking_says_where_each_plays_from(
    all: Seq<crate::view::TrackShown>,
    sources: SourcesModel,
)
    ensures
        marked_tracks(all, sources).len() == all.len(),
        forall|k: int|
            0 <= k < all.len() ==> {
                let marked = #[trigger] marked_tracks(all, sources)[k];
                &&& marked.plays_from == sources.plays_from(all[k].sources)
                &&& marked.id == all[k].id
                &&& marked.title == all[k].title
                &&& marked.artists == all[k].artists
                &&& marked.album == all[k].album
                &&& marked.duration_ms == all[k].duration_ms
                &&& marked.artwork_url == all[k].artwork_url
                &&& marked.saved == all[k].saved
                &&& marked.sources == all[k].sources
            },
{
}

} // verus!
