use canon::binding::{as_kept, now_ms, readable, source_ref, whole_millis};
use canon::error::Error;
use canon::id::{EntityId, LocalPath, SourceRef};
use canon::model::{
    Album, AlbumTrack, Artist, Binding, Confidence, EntityKind, Provenance, Track,
};
use canon::shelf::PlaylistEdit;
use canon::store::Store;
use canon::track::{SourceAlbum, SourceArtist, SourceTrack};

fn store() -> Store {
    Store::open_in_memory()
}

fn artist(store: &mut Store, name: &str) -> EntityId {
    store
        .add_artist(&Artist { name: name.to_string(), sort_name: None, mbid: None })
        .unwrap()
}

fn track(title: &str, artists: Vec<EntityId>, isrc: &str) -> Track {
    Track {
        title: title.to_string(),
        credit: "Pink Floyd".to_string(),
        artists,
        duration_ms: Some(230_000),
        isrcs: vec![isrc.to_string()],
        mbid: None,
    }
}

fn album(title: &str, artists: Vec<EntityId>) -> Album {
    Album {
        title: title.to_string(),
        credit: "Pink Floyd".to_string(),
        artists,
        release_date: Some("1973-03-01".to_string()),
        barcode: Some("5099902987613".to_string()),
        mbid: None,
        group_mbid: None,
        artwork_url: Some("https://example/cover.jpg".to_string()),
    }
}

fn tidal(id: &str) -> SourceRef {
    SourceRef::Tidal { id: id.to_string() }
}

fn confidence(c: f32) -> Confidence {
    Confidence { bits: c.to_bits() }
}

fn release(source: SourceRef, title: &str) -> SourceAlbum {
    SourceAlbum {
        source: Some(source),
        title: title.to_string(),
        artists: vec![],
        release_date: None,
        barcode: None,
        artwork_url: None,
    }
}

#[test]
fn entities_round_trip_with_their_credits_and_isrcs() {
    let mut store = store();
    let floyd = artist(&mut store, "Pink Floyd");
    let mbid = 0x83d91898_7763_47d7_b03b_b92132375c47_u128;
    let waters = store
        .add_artist(&Artist {
            name: "Roger Waters".to_string(),
            sort_name: Some("Waters, Roger".to_string()),
            mbid: Some(mbid),
        })
        .unwrap();

    let brain_damage = track("Brain Damage", vec![floyd, waters], "GBN9Y1100088");
    let id = store.add_track(&brain_damage).unwrap();
    assert_eq!(store.track(id).unwrap(), brain_damage);
    assert_eq!(store.by_mbid(EntityKind::Artist, mbid), Some(waters));
    assert_eq!(store.tracks_with_isrc("GBN9Y1100088"), vec![id]);

    let dsotm = album("The Dark Side of the Moon", vec![floyd]);
    let album_id = store.add_album(&dsotm).unwrap();
    assert_eq!(store.album(album_id).unwrap(), dsotm);
    assert_eq!(store.albums_with_barcode("5099902987613"), vec![album_id]);

    assert_eq!(store.kind_of(id), Some(EntityKind::Track));
    assert_eq!(store.kind_of(album_id), Some(EntityKind::Album));
    assert_eq!(store.kind_of(floyd), Some(EntityKind::Artist));
    assert_eq!(store.kind_of(EntityId::new()), None);
}

#[test]
fn an_update_replaces_isrcs_and_credits() {
    let mut store = store();
    let floyd = artist(&mut store, "Pink Floyd");
    let gilmour = artist(&mut store, "David Gilmour");
    let id = store.add_track(&track("Time", vec![floyd], "GBN9Y1100085")).unwrap();
    let mut revised = track("Time", vec![gilmour, floyd], "GBN9Y1100099");
    revised.isrcs.push("GBAYE7300004".to_string());
    store.update_track(id, &revised).unwrap();
    assert_eq!(store.track(id).unwrap(), revised);
    assert!(store.tracks_with_isrc("GBN9Y1100085").is_empty());
    assert!(matches!(
        store.update_track(EntityId::new(), &revised),
        Err(Error::NotFound(_))
    ));
}

#[test]
fn a_credit_must_name_a_real_artist() {
    let mut store = store();
    assert!(store.add_track(&track("Time", vec![EntityId::new()], "X")).is_err());
    assert!(
        store.tracks_with_isrc("X").is_empty(),
        "the failed insert left nothing behind"
    );
}

#[test]
fn a_recording_appears_on_many_albums() {
    let mut store = store();
    let floyd = artist(&mut store, "Pink Floyd");
    let money = store.add_track(&track("Money", vec![floyd], "GBN9Y1100086")).unwrap();
    let time = store.add_track(&track("Time", vec![floyd], "GBN9Y1100085")).unwrap();
    let dsotm = store.add_album(&album("The Dark Side of the Moon", vec![floyd])).unwrap();
    let echoes = store.add_album(&album("Echoes: The Best of Pink Floyd", vec![floyd])).unwrap();

    store
        .set_tracklist(
            dsotm,
            &vec![
                AlbumTrack { disc: 1, position: 6, track: money },
                AlbumTrack { disc: 1, position: 4, track: time },
            ],
        )
        .unwrap();
    store
        .set_tracklist(echoes, &vec![AlbumTrack { disc: 2, position: 3, track: money }])
        .unwrap();

    let listed: Vec<_> = store.tracklist(dsotm).iter().map(|t| t.track).collect();
    assert_eq!(listed, vec![time, money], "in position order");
    assert_eq!(store.albums_of(money), vec![dsotm, echoes]);
    let shown = store.track_ref(money).unwrap();
    assert_eq!(shown.meta.album.as_deref(), Some("The Dark Side of the Moon"));
}

#[test]
fn a_binding_names_one_entity() {
    let mut store = store();
    let floyd = artist(&mut store, "Pink Floyd");
    let money = store.add_track(&track("Money", vec![floyd], "A")).unwrap();
    let time = store.add_track(&track("Time", vec![floyd], "B")).unwrap();

    store.bind(EntityKind::Track, money, &Binding::direct(tidal("55391792"))).unwrap();
    assert_eq!(store.bound(EntityKind::Track, &tidal("55391792")).unwrap(), Some(money));
    assert_eq!(store.bound(EntityKind::Album, &tidal("55391792")).unwrap(), None);

    let error = store
        .bind(EntityKind::Track, time, &Binding::direct(tidal("55391792")))
        .expect_err("already bound elsewhere");
    assert!(error.message().contains("already bound"), "{}", error.message());

    assert!(store.unbind(EntityKind::Track, &tidal("55391792")).unwrap());
    store.bind(EntityKind::Track, time, &Binding::direct(tidal("55391792"))).unwrap();
    assert_eq!(store.bound(EntityKind::Track, &tidal("55391792")).unwrap(), Some(time));
}

#[test]
fn a_weaker_rebinding_never_downgrades_a_stronger_one() {
    let mut store = store();
    let floyd = artist(&mut store, "Pink Floyd");
    let money = store.add_track(&track("Money", vec![floyd], "A")).unwrap();
    let manual = Binding {
        source: tidal("1"),
        provenance: Provenance::Manual,
        confidence: confidence(1.0),
    };
    store.bind(EntityKind::Track, money, &manual).unwrap();
    store
        .bind(
            EntityKind::Track,
            money,
            &Binding {
                source: tidal("1"),
                provenance: Provenance::Fuzzy,
                confidence: confidence(0.7),
            },
        )
        .unwrap();
    assert_eq!(store.bindings(money), vec![manual]);

    let fuzzy = Binding {
        source: tidal("2"),
        provenance: Provenance::Fuzzy,
        confidence: confidence(0.7),
    };
    store.bind(EntityKind::Track, money, &fuzzy).unwrap();
    let upgraded = Binding {
        source: tidal("2"),
        provenance: Provenance::Isrc,
        confidence: confidence(1.0),
    };
    store.bind(EntityKind::Track, money, &upgraded).unwrap();
    assert_eq!(store.bindings(money)[1], upgraded);
}

#[test]
fn a_track_ref_lists_bindings_most_trusted_first() {
    let mut store = store();
    let floyd = artist(&mut store, "Pink Floyd");
    let money = store.add_track(&track("Money", vec![floyd], "A")).unwrap();
    let local = SourceRef::Local {
        path: LocalPath::Text("/music/Pink Floyd/Money.flac".to_string()),
    };
    store
        .bind(
            EntityKind::Track,
            money,
            &Binding {
                source: tidal("2"),
                provenance: Provenance::Fuzzy,
                confidence: confidence(0.8),
            },
        )
        .unwrap();
    store.bind(EntityKind::Track, money, &Binding::direct(local.clone())).unwrap();
    store
        .bind(
            EntityKind::Track,
            money,
            &Binding {
                source: tidal("1"),
                provenance: Provenance::Isrc,
                confidence: confidence(1.0),
            },
        )
        .unwrap();

    let shown = store.track_ref(money).unwrap();
    assert_eq!(shown.id, money);
    assert_eq!(shown.meta.title, "Money");
    assert_eq!(shown.meta.artists, vec!["Pink Floyd".to_string()]);
    assert_eq!(shown.meta.duration_ms, Some(230_000));
    assert_eq!(shown.meta.album, None, "on no album yet");
    assert_eq!(shown.sources, vec![local, tidal("1"), tidal("2")]);
    assert_eq!(store.track_ref(EntityId::new()), None);
}

#[test]
fn saved_entities_list_newest_first_by_kind() {
    let mut store = store();
    let floyd = artist(&mut store, "Pink Floyd");
    let money = store.add_track(&track("Money", vec![floyd], "A")).unwrap();
    let time = store.add_track(&track("Time", vec![floyd], "B")).unwrap();
    let dsotm = store.add_album(&album("The Dark Side of the Moon", vec![floyd])).unwrap();

    store.save(money).unwrap();
    store.save(dsotm).unwrap();
    store.save(time).unwrap();
    store.save(money).unwrap();
    assert_eq!(store.saved(EntityKind::Track), vec![time, money]);
    assert_eq!(store.saved(EntityKind::Album), vec![dsotm]);

    assert!(store.unsave(time));
    assert!(!store.unsave(time));
    assert_eq!(store.saved(EntityKind::Track), vec![money]);
    assert!(matches!(store.save(EntityId::new()), Err(Error::NotFound(_))));
}

fn described(id: &str, title: &str, isrc: Option<&str>, position: u32) -> SourceTrack {
    let mut on = release(tidal("55391786"), "The Dark Side of the Moon");
    on.artwork_url = Some("https://example/cover.jpg".to_string());
    SourceTrack {
        source: tidal(id),
        title: title.to_string(),
        artists: vec![SourceArtist {
            source: Some(tidal("9706")),
            name: "Pink Floyd".to_string(),
        }],
        album: Some(on),
        disc: Some(1),
        position: Some(position),
        duration_ms: Some(382_000),
        isrc: isrc.map(str::to_owned),
    }
}

#[test]
fn ingesting_a_binding_twice_is_one_track() {
    let mut store = store();
    let money = described("55391792", "Money", Some("GBN9Y1100086"), 6);
    let id = store.ingest_track(&money).unwrap();
    assert_eq!(store.ingest_track(&money).unwrap(), id);

    let shown = store.track_ref(id).unwrap();
    assert_eq!(shown.meta.title, "Money");
    assert_eq!(shown.meta.artists, vec!["Pink Floyd".to_string()]);
    assert_eq!(shown.meta.album.as_deref(), Some("The Dark Side of the Moon"));
    assert_eq!(shown.meta.artwork_url.as_deref(), Some("https://example/cover.jpg"));
    assert_eq!(shown.sources, vec![tidal("55391792")]);
}

#[test]
fn tracks_off_one_album_share_it_and_its_artist() {
    let mut store = store();
    let money = store.ingest_track(&described("55391792", "Money", None, 6)).unwrap();
    let time = store.ingest_track(&described("55391790", "Time", None, 4)).unwrap();
    assert_ne!(money, time);

    let album = store.bound(EntityKind::Album, &tidal("55391786")).unwrap().expect("album bound");
    let listed: Vec<_> =
        store.tracklist(album).iter().map(|t| (t.position, t.track)).collect();
    assert_eq!(listed, vec![(4, time), (6, money)]);
    let floyd = store.bound(EntityKind::Artist, &tidal("9706")).unwrap();
    assert_eq!(store.track(money).unwrap().artists, vec![floyd.unwrap()]);
    assert!(store.album(album).unwrap().artists.is_empty());
}

#[test]
fn the_same_isrc_under_another_id_is_the_same_recording() {
    let mut store = store();
    let original =
        store.ingest_track(&described("55391792", "Money", Some("GBN9Y1100086"), 6)).unwrap();
    let mut on_a_compilation = described("77000001", "Money", Some("GBN9Y1100086"), 3);
    on_a_compilation.album =
        Some(release(tidal("77000000"), "Echoes: The Best of Pink Floyd"));
    let matched = store.ingest_track(&on_a_compilation).unwrap();
    assert_eq!(matched, original);

    let bindings = store.bindings(original);
    assert_eq!(bindings.len(), 2);
    assert_eq!(bindings[1].provenance, Provenance::Isrc);
    assert_eq!(store.albums_of(original).len(), 2);
}

#[test]
fn an_isrc_match_binds_only_the_named_recording() {
    let mut store = store();
    let mut from_spotify = described("x", "Money", Some("GBN9Y1100081"), 6);
    from_spotify.source = SourceRef::Spotify { id: "4KW1".to_string() };
    from_spotify.album = None;
    let first = store.ingest_track(&from_spotify).unwrap();
    let twin = store.add_track(&track("Money", Vec::new(), "GBN9Y1100081")).unwrap();

    let other_recording = described("55391790", "Time", Some("GBN9Y1100079"), 4);
    assert!(!store.bind_isrc_match(twin, &other_recording).unwrap());
    assert_eq!(
        store.bound(EntityKind::Track, &tidal("55391790")).unwrap(),
        None,
        "a refused match writes nothing"
    );

    let on_tidal = described("55391792", "Money", Some("gbn9y1100081"), 6);
    assert!(store.bind_isrc_match(twin, &on_tidal).unwrap());
    assert_eq!(
        store.bound(EntityKind::Track, &tidal("55391792")).unwrap(),
        Some(twin),
        "the named track, not the first with the ISRC"
    );
    let bindings = store.bindings(twin);
    assert_eq!(bindings[0].provenance, Provenance::Isrc);
    assert_eq!(store.albums_of(twin).len(), 1);

    assert!(
        !store.bind_isrc_match(first, &on_tidal).unwrap(),
        "a binding another track owns is not moved"
    );
    assert!(store.bind_isrc_match(twin, &on_tidal).unwrap(), "idempotent");
}

#[test]
fn a_failed_ingest_leaves_nothing_behind() {
    let mut store = store();
    let mut broken = described("1", "Broken", None, 1);
    broken.album = Some(release(
        SourceRef::Local { path: LocalPath::Opaque("/\u{fffd}".to_string()) },
        "Unkeyable",
    ));
    assert!(store.ingest_track(&broken).is_err());
    assert_eq!(store.bound(EntityKind::Track, &tidal("1")).unwrap(), None);
    assert_eq!(store.bound(EntityKind::Artist, &tidal("9706")).unwrap(), None);
}

#[test]
fn identifiers_differ_and_read_back() {
    let a = EntityId::new();
    let b = EntityId::new();
    assert_ne!(a, b);
    assert_eq!(
        EntityId(0x83d91898_7763_47d7_b03b_b92132375c47).text(),
        "83d91898-7763-47d7-b03b-b92132375c47"
    );
    let mut store = store();
    let error = store.save(EntityId(1)).unwrap_err();
    assert_eq!(
        error.message(),
        "not found: entity 00000000-0000-0000-0000-000000000001"
    );
}

#[test]
fn a_playlist_is_edited_by_position() {
    let mut store = store();
    let mut ids = Vec::new();
    for title in ["a", "b", "c"] {
        ids.push(store.add_track(&track(title, vec![], title)).unwrap());
    }
    let id = store.create_playlist("Mine", &vec![ids[0], ids[1]]).unwrap();
    store
        .edit_playlist(id, PlaylistEdit::Insert { at: Some(0), tracks: vec![ids[2]] })
        .unwrap();
    assert_eq!(store.playlist_tracks(id), vec![ids[2], ids[0], ids[1]]);
    store.edit_playlist(id, PlaylistEdit::Move { from: 0, to: 2 }).unwrap();
    assert_eq!(store.playlist_tracks(id), vec![ids[0], ids[1], ids[2]]);
    store.edit_playlist(id, PlaylistEdit::Remove { index: 1 }).unwrap();
    assert_eq!(store.playlist_tracks(id), vec![ids[0], ids[2]]);
    assert!(store.edit_playlist(id, PlaylistEdit::Remove { index: 2 }).is_err());
    assert!(store.create_playlist("Odd", &vec![EntityId::new()]).is_err());
    assert!(store.playlist(id).unwrap().created_at > 0);
}

#[test]
fn the_words_kept_in_columns_read_back() {
    for kind in [EntityKind::Track, EntityKind::Album, EntityKind::Artist, EntityKind::Playlist] {
        assert_eq!(EntityKind::parse(kind.as_str()), Some(kind));
    }
    assert_eq!(EntityKind::parse("song"), None);
    for provenance in [
        Provenance::Manual,
        Provenance::Direct,
        Provenance::Mbid,
        Provenance::Isrc,
        Provenance::Fuzzy,
    ] {
        assert_eq!(Provenance::parse(provenance.as_str()), Some(provenance));
    }
    assert!(Provenance::Manual.rank() < Provenance::Fuzzy.rank());
}

#[test]
fn the_clock_is_kept_in_milliseconds() {
    assert_eq!(as_kept(Some(1_700_000_000_000)), 1_700_000_000_000);
    assert_eq!(as_kept(None), 0);
    assert_eq!(as_kept(Some(u128::MAX)), i64::MAX);
    assert!(now_ms() > 1_600_000_000_000, "the clock is read");
}

#[test]
fn identifiers_are_random_and_written_as_uuids() {
    let id = EntityId::new();
    assert_ne!(id, EntityId::new());
    assert_eq!((id.0 >> 76) % 16, 4);
    assert_eq!((id.0 >> 62) % 4, 2);
    assert_eq!(
        EntityId(0x5c7ae60d_789c_45d7_84c2_37d49f8b18cb).text(),
        "5c7ae60d-789c-45d7-84c2-37d49f8b18cb"
    );
}

#[test]
fn a_track_is_shown_on_the_album_it_was_first_placed_on() {
    let mut store = store();
    let money = store.add_track(&track("Money", vec![], "GBN9Y1100086")).unwrap();
    let a = store.add_album(&album("A", vec![])).unwrap();
    let b = store.add_album(&album("B", vec![])).unwrap();
    assert_eq!(store.first_album_of(money), None);
    let entry = vec![AlbumTrack { disc: 1, position: 1, track: money }];
    store.set_tracklist(b, &entry).unwrap();
    store.set_tracklist(a, &entry).unwrap();
    assert_eq!(store.albums_of(money), vec![a, b], "in the order the albums were added");
    assert_eq!(store.first_album_of(money), Some(b));
    assert_eq!(store.track_ref(money).unwrap().meta.album.as_deref(), Some("B"));
    assert_eq!(store.track_view(money, None).unwrap().album.unwrap().name, "B");
    assert_eq!(store.track_view(money, Some(a)).unwrap().album.unwrap().name, "A");
}

#[test]
fn placing_a_track_again_keeps_the_album_it_is_shown_on() {
    let mut store = store();
    let money = store.add_track(&track("Money", vec![], "GBN9Y1100086")).unwrap();
    let time = store.add_track(&track("Time", vec![], "GBN9Y1100085")).unwrap();
    let a = store.add_album(&album("A", vec![])).unwrap();
    let b = store.add_album(&album("B", vec![])).unwrap();
    let first = AlbumTrack { disc: 1, position: 1, track: money };
    store.place(a, first).unwrap();
    store.place(b, first).unwrap();
    assert_eq!(store.first_album_of(money), Some(a));
    store.place(a, first).unwrap();
    assert_eq!(store.first_album_of(money), Some(a), "placed again where it was");
    store.set_tracklist(a, &vec![first]).unwrap();
    assert_eq!(store.first_album_of(money), Some(a), "listed again where it was");
    let moved = AlbumTrack { disc: 1, position: 2, track: money };
    let before = AlbumTrack { disc: 1, position: 1, track: time };
    store.set_tracklist(a, &vec![before, moved]).unwrap();
    assert_eq!(store.first_album_of(money), Some(a), "listed again elsewhere");
    let listed: Vec<_> = store.tracklist(a).iter().map(|t| t.track).collect();
    assert_eq!(listed, vec![time, money]);
    store.set_tracklist(a, &vec![before]).unwrap();
    assert_eq!(store.first_album_of(money), Some(b), "no longer listed");
}

#[test]
fn a_query_is_met_in_the_title_or_in_the_credit() {
    let mut store = store();
    let money = store.add_track(&track("Money", vec![], "GBN9Y1100086")).unwrap();
    store.save(money).unwrap();
    let found = |query: &str| store.saved_page(EntityKind::Track, &Some(query.to_string()), 10, 0);
    assert_eq!(found("mon"), (vec![money], 1));
    assert_eq!(found("floyd"), (vec![money], 1));
    assert_eq!(found("ney Pi"), (vec![], 0), "not across the two");
    assert_eq!(found("100%"), (vec![], 0));
    assert_eq!(found("_oney"), (vec![], 0), "no wildcards");
}

#[test]
fn a_query_is_met_whatever_the_case_beyond_ascii_too() {
    let mut store = store();
    let bjork = artist(&mut store, "BJ\u{d6}RK");
    let sigma = artist(&mut store, "\u{39f}\u{394}\u{39f}\u{3a3}\u{3a3}");
    store.save(bjork).unwrap();
    store.save(sigma).unwrap();
    let found = |query: &str| {
        store.saved_page(EntityKind::Artist, &Some(query.to_string()), 10, 0).0
    };
    assert_eq!(found("bj\u{f6}rk"), vec![bjork]);
    assert_eq!(found("J\u{d6}R"), vec![bjork]);
    assert_eq!(found("bjork"), vec![], "another letter is another letter");
    assert_eq!(found("\u{39f}\u{394}\u{39f}\u{3a3}"), vec![sigma], "as it is written");
}

#[test]
fn a_row_that_cannot_be_read_is_skipped() {
    let row = |service: &str, provenance: &str| {
        (service.to_string(), "k".to_string(), provenance.to_string(), confidence(0.5))
    };
    let kept = readable(vec![
        row("tidal", "isrc"),
        row("napster", "isrc"),
        row("spotify", "hearsay"),
        row("local", "manual"),
    ]);
    assert_eq!(
        kept,
        vec![
            Binding {
                source: tidal("k"),
                provenance: Provenance::Isrc,
                confidence: confidence(0.5),
            },
            Binding {
                source: SourceRef::Local { path: LocalPath::Text("k".to_string()) },
                provenance: Provenance::Manual,
                confidence: confidence(0.5),
            },
        ]
    );
    assert_eq!(source_ref("tidal", "k".to_string()), Some(tidal("k")));
    assert_eq!(source_ref("napster", "k".to_string()), None);
}

#[test]
fn a_stretch_of_time_is_counted_in_whole_milliseconds() {
    assert_eq!(whole_millis(Some((1, 999_999_999))), Some(1_999));
    assert_eq!(whole_millis(None), None);
}
