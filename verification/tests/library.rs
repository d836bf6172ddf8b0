use canon::catalog::{
    AlbumListing, ArtistListing, Favorite, Favorites, SearchResults, Seed, SourceMix,
    SourcePlaylist,
};
use canon::error::Error;
use canon::id::{EntityId, Service, SourceRef};
use canon::library::{EntityStep, Library, NameStep};
use canon::matching::{InTurn, MatchPlan, Matching};
use canon::model::{Artist, EntityKind, ItemRef, Provenance};
use canon::source::Sources;
use canon::store::Store;
use canon::track::{SourceAlbum, SourceArtist, SourceTrack, TrackRef};
use canon::view::{
    AlbumDetail, ArtistDetail, ImportReport, MixView, PlaylistDetail, SearchView,
};

fn tidal(id: &str) -> SourceRef {
    SourceRef::Tidal { id: id.to_string() }
}

fn floyd() -> SourceArtist {
    SourceArtist { source: Some(tidal("9706")), name: "Pink Floyd".to_string() }
}

fn release(id: &str, title: &str) -> SourceAlbum {
    SourceAlbum {
        source: Some(tidal(id)),
        title: title.to_string(),
        artists: vec![],
        release_date: None,
        barcode: None,
        artwork_url: None,
    }
}

fn on_dsotm(id: &str, title: &str, position: u32) -> SourceTrack {
    SourceTrack {
        source: tidal(id),
        title: title.to_string(),
        artists: vec![floyd()],
        album: Some(release("55391786", "The Dark Side of the Moon")),
        disc: Some(1),
        position: Some(position),
        duration_ms: Some(200_000),
        isrc: None,
    }
}

/// A library, the services it knows, and a catalog that knows one album and one artist.
struct House {
    library: Library,
    sources: Sources,
    isrc_lookups: usize,
    described: usize,
}

impl House {
    fn browsable() -> House {
        House {
            library: Library::new(Store::open_in_memory()),
            sources: Sources::new().with_catalog(Service::Tidal),
            isrc_lookups: 0,
            described: 0,
        }
    }

    fn streamable() -> House {
        House {
            sources: Sources::new().with_catalog(Service::Tidal).with(Service::Tidal),
            ..House::browsable()
        }
    }

    fn describe(&mut self, source: &SourceRef) -> SourceTrack {
        self.described += 1;
        SourceTrack {
            source: source.clone(),
            title: "Army of Me".to_string(),
            artists: vec![],
            album: None,
            disc: None,
            position: None,
            duration_ms: Some(234_000),
            isrc: None,
        }
    }

    fn album_listing(&self, album: &SourceRef) -> AlbumListing {
        assert_eq!(album, &tidal("55391786"));
        let mut whole = release("55391786", "The Dark Side of the Moon");
        whole.artists = vec![floyd()];
        whole.release_date = Some("1973-03-01".to_string());
        AlbumListing {
            album: whole,
            tracks: vec![
                on_dsotm("55391787", "Speak to Me", 1),
                on_dsotm("55391788", "Breathe", 2),
                on_dsotm("55391792", "Money", 6),
            ],
        }
    }

    fn artist_listing(&self, artist: &SourceRef) -> ArtistListing {
        assert_eq!(artist, &tidal("9706"));
        ArtistListing {
            artist: floyd(),
            albums: vec![release("55391786", "The Dark Side of the Moon")],
            top_tracks: vec![on_dsotm("55391792", "Money", 6)],
        }
    }

    fn tracks_by_isrc(&mut self, isrc: &str) -> Vec<SourceTrack> {
        self.isrc_lookups += 1;
        if isrc != "GBN9Y1100081" {
            return vec![];
        }
        let mut compilation = on_dsotm("55391582", "Money", 9);
        compilation.album =
            Some(release("55391573", "A Foot in the Door: The Best of Pink Floyd"));
        compilation.duration_ms = Some(394_000);
        compilation.isrc = Some(isrc.to_string());
        let mut original = on_dsotm("55391792", "Money", 6);
        original.duration_ms = Some(380_000);
        original.isrc = Some(isrc.to_string());
        vec![compilation, original]
    }

    fn favorites() -> Favorites {
        Favorites {
            tracks: vec![Favorite {
                item: on_dsotm("55391792", "Money", 6),
                added_ms: Some(1_000),
            }],
            albums: vec![],
            artists: vec![Favorite { item: floyd(), added_ms: Some(2_000) }],
        }
    }

    fn playlists() -> Vec<SourcePlaylist> {
        vec![SourcePlaylist {
            source: tidal("0f1e-playlist"),
            name: "Side two".to_string(),
            tracks: vec![on_dsotm("55391792", "Money", 6), on_dsotm("55391790", "Time", 4)],
        }]
    }

    fn search(&mut self) -> SearchView {
        assert!(self.sources.catalog(Service::Tidal).is_ok());
        let found = SearchResults {
            tracks: vec![on_dsotm("55391792", "Money", 6)],
            albums: vec![release("55391786", "The Dark Side of the Moon")],
            artists: vec![floyd()],
        };
        self.library.search(&self.sources, &found).unwrap()
    }

    fn album(&mut self, item: &ItemRef) -> Result<AlbumDetail, Error> {
        let fetch = self.library.fetch_for(&self.sources, item, EntityKind::Album)?;
        let reply = fetch.from.as_ref().map(|from| Ok(self.album_listing(from)));
        self.library.album(&self.sources, fetch.known, reply)
    }

    fn artist(&mut self, item: &ItemRef) -> Result<ArtistDetail, Error> {
        let fetch = self.library.fetch_for(&self.sources, item, EntityKind::Artist)?;
        let reply = fetch.from.as_ref().map(|from| Ok(self.artist_listing(from)));
        self.library.artist(&self.sources, fetch.known, reply)
    }

    fn entity_for(&mut self, item: &ItemRef) -> Result<(EntityId, EntityKind), Error> {
        match self.library.entity_for(&self.sources, item)? {
            EntityStep::Known(id, kind) => Ok((id, kind)),
            EntityStep::Describe(source) => {
                let described = self.describe(&source);
                let id = self.library.store.ingest_track(&described)?;
                Ok((id, EntityKind::Track))
            }
            EntityStep::Album(_) => Ok((self.album(item)?.album.id, EntityKind::Album)),
            EntityStep::Artist(_) => Ok((self.artist(item)?.artist.id, EntityKind::Artist)),
        }
    }

    fn save(&mut self, item: &ItemRef) -> Result<EntityId, Error> {
        let (id, _) = self.entity_for(item)?;
        self.library.save(id)?;
        Ok(id)
    }

    fn unsave(&mut self, item: &ItemRef) -> Result<bool, Error> {
        let (id, _) = self.entity_for(item)?;
        Ok(self.library.unsave(id))
    }

    fn radio(&mut self, item: &ItemRef) -> Result<Vec<EntityId>, Error> {
        let (id, kind) = self.entity_for(item)?;
        match self.library.radio(&self.sources, id, kind)? {
            Seed::Track(_) | Seed::Artist(_) => {
                self.library.mix(&vec![on_dsotm("55391790", "Time", 4)])
            }
        }
    }

    fn match_onto(&mut self, track: EntityId, service: Service) -> Result<Option<SourceRef>, Error> {
        match self.library.match_onto(&self.sources, track, service)? {
            MatchPlan::Bound(source) => Ok(Some(source)),
            MatchPlan::NoIsrc => Ok(None),
            MatchPlan::Look { isrcs, want } => {
                for isrc in &isrcs {
                    let copies = self.tracks_by_isrc(isrc);
                    if let Some(source) = self.library.bind_copy(track, want, &copies)? {
                        return Ok(Some(source));
                    }
                }
                Ok(None)
            }
        }
    }

    fn tracks_named(&mut self, item: &ItemRef) -> Result<Vec<TrackRef>, Error> {
        match self.library.tracks_named(&self.sources, item)? {
            NameStep::Tracks(tracks) => Ok(tracks),
            NameStep::Mix { mix, .. } => {
                assert_eq!(mix, "0026860c");
                let found =
                    vec![on_dsotm("55391790", "Time", 4), on_dsotm("55391792", "Money", 6)];
                let ids = self.library.mix(&found)?;
                Ok(self.library.track_refs(&ids))
            }
            NameStep::Describe(source) => {
                let described = self.describe(&source);
                Ok(vec![self.library.described(&described)?])
            }
            NameStep::Album(_) => {
                let detail = self.album(item)?;
                self.library.store.expand(detail.album.id)
            }
        }
    }

    fn tracks_for(&mut self, items: &[ItemRef]) -> Result<Vec<TrackRef>, Error> {
        let mut tracks = vec![];
        for item in items {
            tracks.extend(self.tracks_named(item)?);
        }
        let mut matching = Matching::new(&self.sources, tracks);
        while let Some(id) = matching.next() {
            let mut matched = None;
            let targets = matching.targets.clone();
            for service in targets {
                if self.match_onto(id, service)?.is_some() {
                    matched = self.library.store.track_ref(id);
                    break;
                }
            }
            matching.answer(matched);
        }
        Ok(matching.playable)
    }

    fn from_spotify(&mut self, isrc: Option<&str>) -> EntityId {
        let described = SourceTrack {
            source: SourceRef::Spotify {
                id: format!("4KW1lqgSr8TKrvBII0Brf8-{}", isrc.unwrap_or("none")),
            },
            title: "Money".to_string(),
            artists: vec![],
            album: None,
            disc: None,
            position: None,
            duration_ms: Some(382_000),
            isrc: isrc.map(str::to_owned),
        };
        self.library.store.ingest_track(&described).unwrap()
    }

    fn plays_from(&self, id: EntityId) -> Option<Service> {
        self.library.track_views(&self.sources, &vec![id])[0].plays_from
    }
}

fn named(id: &str, kind: EntityKind) -> ItemRef {
    ItemRef::Service { service: Service::Tidal, id: id.to_string(), kind }
}

#[test]
fn a_track_is_matched_onto_another_service_by_isrc() {
    let mut house = House::browsable();
    let track = house.from_spotify(Some("GBN9Y1100081"));
    let matched = house.match_onto(track, Service::Tidal).unwrap();
    assert_eq!(matched, Some(tidal("55391792")), "Dark Side, not the edit");

    let bindings = house.library.store.bindings(track);
    let on_tidal =
        bindings.iter().find(|b| b.source == tidal("55391792")).expect("bound on Tidal");
    assert_eq!(on_tidal.provenance, Provenance::Isrc);
    assert_eq!(bindings.len(), 2, "one Tidal copy is enough");
    let played = house.library.store.track_refs(&vec![track]);
    assert_eq!(played[0].meta.album.as_deref(), Some("The Dark Side of the Moon"));

    let again = house.match_onto(track, Service::Tidal).unwrap();
    assert_eq!(again, matched);
    assert_eq!(house.isrc_lookups, 1);
}

#[test]
fn a_track_already_on_the_service_keeps_its_binding() {
    let mut house = House::browsable();
    let mut compilation = on_dsotm("55391582", "Money", 9);
    compilation.isrc = Some("GBN9Y1100081".to_string());
    let track = house.library.store.ingest_track(&compilation).unwrap();
    let matched = house.match_onto(track, Service::Tidal).unwrap();
    assert_eq!(matched, Some(tidal("55391582")));
}

#[test]
fn no_isrc_or_no_such_recording_is_no_match() {
    let mut house = House::browsable();
    for isrc in [None, Some("QQ0000000000")] {
        let track = house.from_spotify(isrc);
        let matched = house.match_onto(track, Service::Tidal).unwrap();
        assert_eq!(matched, None, "{:?}", isrc);
        assert_eq!(house.library.store.bindings(track).len(), 1, "{:?}", isrc);
    }
    let unknown = house.match_onto(EntityId::new(), Service::Tidal).unwrap_err();
    assert!(matches!(unknown, Error::NotFound(_)), "{:?}", unknown);
}

#[test]
fn a_spotify_only_track_is_matched_when_queued() {
    let mut house = House::streamable();
    let track = house.from_spotify(Some("GBN9Y1100081"));
    let item = ItemRef::Entity { entity: track };
    assert_eq!(house.plays_from(track), None, "nothing streamable is bound yet");

    let queued = house.tracks_for(&[item.clone()]).unwrap();
    assert_eq!(queued[0].id, track);
    assert!(queued[0].sources.contains(&tidal("55391792")), "{:?}", queued);
    assert_eq!(house.isrc_lookups, 1);
    assert_eq!(house.plays_from(track), Some(Service::Tidal));

    house.tracks_for(&[item]).unwrap();
    assert_eq!(house.isrc_lookups, 1, "matched once, streamable since");
}

#[test]
fn a_streamable_track_is_queued_without_a_lookup() {
    let mut house = House::streamable();
    let mut money = on_dsotm("55391792", "Money", 6);
    money.isrc = Some("GBN9Y1100081".to_string());
    let track = house.library.store.ingest_track(&money).unwrap();
    let queued = house.tracks_for(&[ItemRef::Entity { entity: track }]).unwrap();
    assert_eq!(queued[0].sources, vec![tidal("55391792")]);
    assert_eq!(house.isrc_lookups, 0);
    let played = house.library.bound_track(&tidal("55391792")).unwrap().unwrap();
    assert_eq!(played.id, track);
    assert_eq!(house.isrc_lookups, 0);

    let page = house.search();
    assert_eq!(page.tracks[0].plays_from, Some(Service::Tidal));
}

#[test]
fn an_unmatched_track_is_queued_unchanged() {
    let mut house = House::streamable();
    let bare = house.from_spotify(None);
    let unknown = house.from_spotify(Some("QQ0000000000"));
    let items = [bare, unknown, unknown].map(|entity| ItemRef::Entity { entity });
    let queued = house.tracks_for(&items).unwrap();
    assert_eq!(queued.len(), 3);
    for track in &queued {
        assert!(
            track.sources.iter().all(|s| s.service() == Service::Spotify),
            "{:?}",
            track
        );
    }
    assert_eq!(house.isrc_lookups, 1);
    assert_eq!(house.plays_from(bare), None);
    assert_eq!(house.plays_from(unknown), None);
}

#[test]
fn without_a_streaming_service_nothing_is_matched() {
    let mut house = House::browsable();
    let track = house.from_spotify(Some("GBN9Y1100081"));
    let queued = house.tracks_for(&[ItemRef::Entity { entity: track }]).unwrap();
    assert_eq!(queued[0].sources.len(), 1, "not matched");
    let found = house.search();
    assert_eq!(found.tracks[0].plays_from, None, "browsable, not streamable");
}

#[test]
fn a_mix_is_listed_and_plays_as_its_tracks() {
    let mut house = House::browsable();
    let found = vec![SourceMix {
        id: "0026860c".to_string(),
        name: "My Mix 1".to_string(),
        description: "Pink Floyd and more".to_string(),
    }];
    let mixes: Vec<MixView> = Library::mixes(Service::Tidal, &found);
    assert_eq!(mixes[0].name, "My Mix 1");
    let item = ItemRef::Mix { service: Service::Tidal, mix: "0026860c".to_string() };
    let tracks = house.tracks_for(&[item.clone()]).unwrap();
    let titles: Vec<&str> = tracks.iter().map(|t| t.meta.title.as_str()).collect();
    assert_eq!(titles, ["Time", "Money"]);
    let error = house.save(&item).unwrap_err();
    assert!(error.message().contains("not a library entity"), "{:?}", error);
}

#[test]
fn an_import_is_idempotent() {
    let mut house = House::browsable();
    let report = house.library.import(&House::favorites(), &House::playlists()).unwrap();
    assert_eq!(report, ImportReport { tracks: 1, albums: 0, artists: 1, playlists: 1 });
    house.library.import(&House::favorites(), &House::playlists()).unwrap();

    let library = &house.library;
    let tracks = library.saved(&house.sources, EntityKind::Track, &None, 10, 0);
    assert_eq!(tracks.total, 1);
    assert_eq!(tracks.tracks[0].title, "Money");
    let artists = library.saved(&house.sources, EntityKind::Artist, &None, 10, 0);
    assert_eq!(artists.artists[0].name, "Pink Floyd");
    let playlists = library.saved(&house.sources, EntityKind::Playlist, &None, 10, 0);
    assert_eq!(playlists.total, 1, "imported twice, still one");
    assert_eq!(playlists.playlists[0].name, "Side two");
    assert_eq!(playlists.playlists[0].track_count, 2);
}

#[test]
fn search_results_are_library_entities() {
    let mut house = House::browsable();
    let first = house.search();
    let again = house.search();
    assert_eq!(first, again);
    let money = &first.tracks[0];
    assert_eq!(money.title, "Money");
    assert_eq!(money.artists[0].name, "Pink Floyd");
    assert_eq!(money.artists[0].id, first.artists[0].id);
    assert_eq!(money.album.as_ref().unwrap().id, first.albums[0].id);
}

#[test]
fn opening_an_album_completes_it() {
    let mut house = House::browsable();
    let found = house.search();
    let album = ItemRef::Entity { entity: found.albums[0].id };
    let detail = house.album(&album).unwrap();
    assert_eq!(detail.album.credit, "Pink Floyd");
    assert_eq!(detail.album.release_date.as_deref(), Some("1973-03-01"));
    let listed: Vec<(u32, &str)> =
        detail.tracks.iter().map(|t| (t.position, t.track.title.as_str())).collect();
    assert_eq!(listed, [(1, "Speak to Me"), (2, "Breathe"), (6, "Money")]);
    assert_eq!(detail.tracks[2].track.id, found.tracks[0].id, "Money is Money");

    let queued = house.tracks_for(&[named("55391786", EntityKind::Album)]).unwrap();
    assert_eq!(queued.len(), 3, "an album queues as its tracklist");
}

#[test]
fn an_artist_page_lists_releases_and_top_tracks() {
    let mut house = House::browsable();
    let artist = named("9706", EntityKind::Artist);
    let detail = house.artist(&artist).unwrap();
    assert_eq!(detail.artist.name, "Pink Floyd");
    assert_eq!(detail.albums[0].title, "The Dark Side of the Moon");
    assert_eq!(detail.top_tracks[0].title, "Money");
    let error = house.tracks_for(&[artist]).unwrap_err();
    assert!(error.message().contains("not a list of tracks"), "{:?}", error);
    let error = house.album(&ItemRef::Entity { entity: detail.artist.id }).unwrap_err();
    assert!(error.message().contains("not an album"), "{:?}", error);
}

#[test]
fn radio_comes_back_as_library_tracks() {
    let mut house = House::browsable();
    let money = named("55391792", EntityKind::Track);
    let album = named("55391786", EntityKind::Album);
    house.album(&album).unwrap();
    let radio = house.radio(&money).unwrap();
    let views = house.library.track_views(&house.sources, &radio);
    assert_eq!(views[0].title, "Time");
    assert_eq!(views[0].album.as_ref().unwrap().name, "The Dark Side of the Moon");
    let error = house.radio(&album).unwrap_err();
    assert!(error.message().contains("not an album"), "{:?}", error);
}

#[test]
fn a_playlist_is_an_ordered_list_that_plays_as_its_tracks() {
    let mut house = House::browsable();
    let detail = house.album(&named("55391786", EntityKind::Album)).unwrap();
    let [speak, breathe, money] = [0, 1, 2].map(|i: usize| detail.tracks[i].track.id);

    let created =
        house.library.create_playlist(&house.sources, "Side one", &vec![money]).unwrap();
    assert_eq!(created.playlist.track_count, 1);
    let id = created.playlist.id;
    house.library.playlist_add(id, vec![speak, breathe], Some(0)).unwrap();
    house.library.playlist_move(id, 2, 0).unwrap();
    let titles = |p: &PlaylistDetail| -> Vec<String> {
        p.tracks.iter().map(|t| t.title.clone()).collect()
    };
    assert_eq!(
        titles(&house.library.playlist(&house.sources, id).unwrap()),
        ["Money", "Speak to Me", "Breathe"]
    );
    house.library.playlist_remove(id, 1).unwrap();
    house.library.rename_playlist(id, "Two").unwrap();
    let shown = house.library.playlist(&house.sources, id).unwrap();
    assert_eq!(shown.playlist.name, "Two");
    assert_eq!(shown.playlist.track_count, 2);

    let queued = house.tracks_for(&[ItemRef::Entity { entity: id }]).unwrap();
    assert_eq!(queued.len(), 2);
    let query = Some("tw".to_string());
    let listed = house.library.saved(&house.sources, EntityKind::Playlist, &query, 10, 0);
    assert_eq!(listed.playlists[0].id, id);

    assert!(house.library.playlist_remove(id, 5).is_err());
    house.library.delete_playlist(id).unwrap();
    assert!(house.library.playlist(&house.sources, id).is_err());
    assert!(house.library.delete_playlist(id).is_err());
    assert_eq!(
        house.library.track_views(&house.sources, &vec![detail.tracks[2].track.id])[0].title,
        "Money",
        "deleting a playlist leaves its tracks"
    );
}

#[test]
fn saving_by_service_id_brings_it_in_and_lists_it() {
    let mut house = House::browsable();
    house.save(&named("55391786", EntityKind::Album)).unwrap();
    let saved_album = house.library.saved(&house.sources, EntityKind::Album, &None, 10, 0);
    assert_eq!(saved_album.total, 1);
    assert!(saved_album.albums[0].saved);
    assert_eq!(saved_album.albums[0].title, "The Dark Side of the Moon");

    let id = house.save(&named("55391792", EntityKind::Track)).unwrap();
    let first = ItemRef::Entity { entity: id };
    let look = |house: &House, query: &str| {
        house.library.saved(
            &house.sources,
            EntityKind::Track,
            &Some(query.to_string()),
            10,
            0,
        )
    };
    assert_eq!(look(&house, "mon").tracks[0].id, id);
    assert_eq!(look(&house, "floyd").total, 1, "the credit matches too");
    assert_eq!(look(&house, "100%").total, 0, "% is a character, not a wildcard");

    assert!(house.unsave(&first).unwrap());
    assert!(!house.unsave(&first).unwrap());
    assert_eq!(
        house.library.saved(&house.sources, EntityKind::Track, &None, 10, 0).total,
        0
    );
}

#[test]
fn one_binding_is_one_track_and_is_described_once() {
    let mut house = House::browsable();
    house.sources = Sources::new().with(Service::Tidal);
    let army = named("33348478", EntityKind::Track);

    let first = house.tracks_for(&[army.clone()]).unwrap();
    let second = house.tracks_for(&[army]).unwrap();
    assert_eq!(first[0].id, second[0].id);
    assert_eq!(first[0].meta.title, "Army of Me");
    assert_eq!(first[0].sources, vec![tidal("33348478")]);
    assert_eq!(house.described, 1);

    let spotify = ItemRef::Service {
        service: Service::Spotify,
        id: "x".to_string(),
        kind: EntityKind::Track,
    };
    let error = house.tracks_for(&[spotify]).unwrap_err();
    assert!(error.message().contains("no spotify source"), "{:?}", error);
}

#[test]
fn calls_run_in_order_against_one_store() {
    let mut library = Library::new(Store::open_in_memory());
    let id = library
        .store
        .add_artist(&Artist { name: "Björk".to_string(), sort_name: None, mbid: None })
        .unwrap();
    let name = library.store.artist(id).map(|a| a.name);
    assert_eq!(name.as_deref(), Some("Björk"));
}

#[test]
fn an_album_whose_service_fails_is_shown_as_the_library_has_it() {
    let mut house = House::browsable();
    let found = house.search();
    let item = ItemRef::Entity { entity: found.albums[0].id };
    let fetch = house.library.fetch_for(&house.sources, &item, EntityKind::Album).unwrap();
    let offline = Some(Err(Error::Source("offline".to_string())));
    let kept = house.library.album(&house.sources, fetch.known, offline).unwrap();
    assert_eq!(kept.tracks.len(), 1);
    let offline = Some(Err(Error::Source("offline".to_string())));
    let error = house.library.album(&house.sources, None, offline).unwrap_err();
    assert_eq!(error.message(), "source: offline");
}

#[test]
fn places_are_asked_in_turn_until_one_answers() {
    let mut turn = InTurn::new(3);
    assert_eq!(turn.next(), Some(0));
    turn.answer(false);
    assert_eq!(turn.next(), Some(1));
    turn.answer(true);
    assert_eq!(turn.next(), None);
    assert!(turn.found);

    let mut turn = InTurn::new(1);
    turn.answer(false);
    assert_eq!(turn.next(), None);
    assert!(!turn.found);
}

#[test]
fn what_the_library_has_is_shown_though_its_service_cannot_be_browsed() {
    let mut house = House::browsable();
    let found = house.search();
    house.sources = Sources::new();
    let album = |id: &str| ItemRef::Service {
        service: Service::Tidal,
        id: id.to_string(),
        kind: EntityKind::Album,
    };
    let shown = house.album(&album("55391786")).unwrap();
    assert_eq!(shown.album.id, found.albums[0].id);
    let artist = ItemRef::Service {
        service: Service::Tidal,
        id: "9706".to_string(),
        kind: EntityKind::Artist,
    };
    assert_eq!(house.artist(&artist).unwrap().artist.id, found.artists[0].id);
    let error = house.album(&album("1")).unwrap_err();
    assert_eq!(error.message(), "unsupported: tidal can't be browsed");
}

#[test]
fn a_playlist_deleted_since_is_made_again_by_an_import() {
    let mut house = House::browsable();
    house.library.import(&House::favorites(), &House::playlists()).unwrap();
    let first = house.library.store.saved_page(EntityKind::Playlist, &None, 10, 0).0[0];
    house.library.delete_playlist(first).unwrap();
    house.library.import(&House::favorites(), &House::playlists()).unwrap();
    let made = house.library.store.saved_page(EntityKind::Playlist, &None, 10, 0).0;
    assert_eq!(made.len(), 1);
    assert_ne!(made[0], first);
    house.library.import(&House::favorites(), &House::playlists()).unwrap();
    assert_eq!(
        house.library.store.saved_page(EntityKind::Playlist, &None, 10, 0).0,
        made,
        "and brought up to date from then on"
    );
}
