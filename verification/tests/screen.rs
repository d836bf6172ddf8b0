use canon::client::Item;
use canon::id::{EntityId, Service, SourceRef};
use canon::listing::{
    album_line, clock, describe, output_to_set, protocol_kind, select_sink, track_line, Numbered,
    Output, Playing,
};
use canon::lookup::{device_lines, host, parameters, Found, Look, Lookup};
use canon::model::EntityKind;
use canon::screen::{
    album_listing, artist_listing, import_line, library_listing, mixes_listing, output_line,
    playlist_listing, playlists_listing, queue_lines, search_listing, similar_listing,
    tracks_listing, Watch,
};
use canon::sink::SinkKind;
use canon::time::{Duration, Instant};
use canon::track::{TrackMeta, TrackRef};
use canon::view::{
    AlbumDetail, AlbumView, ArtistDetail, ArtistView, ImportReport, LibraryPage, ListedTrack,
    MixView, Named, PlaylistDetail, PlaylistView, SearchView, TrackView,
};

const MONEY: &str = "00000000-0000-0000-0000-000000000001";
const DSOTM: &str = "00000000-0000-0000-0000-000000000002";
const FLOYD: &str = "00000000-0000-0000-0000-000000000003";

fn money() -> TrackView {
    TrackView {
        id: EntityId(1),
        title: "Money".to_string(),
        artists: vec![Named { id: EntityId(3), name: "Pink Floyd".to_string() }],
        album: Some(Named {
            id: EntityId(2),
            name: "The Dark Side of the Moon".to_string(),
        }),
        duration_ms: Some(382_000),
        artwork_url: None,
        saved: false,
        sources: vec![],
        plays_from: None,
    }
}

fn dsotm() -> AlbumView {
    AlbumView {
        id: EntityId(2),
        title: "The Dark Side of the Moon".to_string(),
        artists: vec![],
        credit: "Pink Floyd".to_string(),
        release_date: Some("1973-03-01".to_string()),
        artwork_url: None,
        saved: false,
        sources: vec![],
    }
}

fn floyd() -> ArtistView {
    ArtistView { id: EntityId(3), name: "Pink Floyd".to_string(), saved: false, sources: vec![] }
}

fn entity(id: &str) -> Item {
    Item::Entity(id.to_string())
}

const MONEY_LINE: &str = "Money — Pink Floyd · The Dark Side of the Moon  6:22";
const DSOTM_LINE: &str = "The Dark Side of the Moon — Pink Floyd (1973)";

#[test]
fn things_are_shown_on_a_line() {
    assert_eq!(clock(382_999), "6:22");
    assert_eq!(clock(5_000), "0:05");
    assert_eq!(track_line(&money()), MONEY_LINE);
    assert_eq!(album_line(&dsotm()), DSOTM_LINE);
    let bare = AlbumView { credit: String::new(), release_date: None, ..dsotm() };
    assert_eq!(album_line(&bare), "The Dark Side of the Moon");
    let playing = Playing {
        state: "playing".to_string(),
        position_ms: 61_000,
        duration_ms: None,
        title: Some("Money".to_string()),
        artist: None,
        queue: Some((1, 4)),
        repeat: Some("all".to_string()),
    };
    assert_eq!(describe(&playing), "playing  1:01/--:--  Money —   [2/4]  (repeat all)");
}

#[test]
fn what_was_found_is_numbered() {
    let found = SearchView { tracks: vec![money()], albums: vec![dsotm()], artists: vec![floyd()] };
    let listing = search_listing(&found);
    assert_eq!(
        listing.text,
        format!(
            "tracks\n  #1   {}\nalbums\n  #2   {}\nartists\n  #3   Pink Floyd\n",
            MONEY_LINE, DSOTM_LINE
        )
    );
    assert_eq!(listing.items, vec![entity(MONEY), entity(DSOTM), entity(FLOYD)]);

    let detail = AlbumDetail {
        album: dsotm(),
        tracks: vec![ListedTrack { disc: 1, position: 6, track: money() }],
    };
    assert_eq!(
        album_listing(&detail).text,
        format!("{}\n  #1   {}\n", DSOTM_LINE, MONEY_LINE)
    );
    let detail = ArtistDetail {
        artist: floyd(),
        albums: vec![dsotm()],
        top_tracks: vec![],
    };
    assert_eq!(
        artist_listing(&detail).text,
        format!("Pink Floyd\nreleases\n  #1   {}\n", DSOTM_LINE)
    );
    assert_eq!(
        tracks_listing("radio", &vec![money()]).text,
        format!("radio\n  #1   {}\n", MONEY_LINE)
    );
    assert_eq!(similar_listing(&vec![]), Numbered::new());
}

#[test]
fn a_page_of_the_library_says_how_much_there_is() {
    let page = LibraryPage {
        total: 12,
        tracks: vec![money()],
        albums: vec![],
        artists: vec![],
        playlists: vec![],
    };
    assert_eq!(
        library_listing(EntityKind::Track, &page).text,
        format!("12 saved tracks\n  #1   {}\n", MONEY_LINE)
    );
    let none = LibraryPage { total: 0, tracks: vec![], ..page };
    assert_eq!(playlists_listing(&none).text, "no playlists\n");
    let mine = PlaylistView {
        id: EntityId(4),
        name: "Side one".to_string(),
        track_count: 2,
        updated_at: 0,
    };
    let one = LibraryPage { total: 1, playlists: vec![mine], ..none };
    let listing = playlists_listing(&one);
    assert_eq!(listing.text, "playlists\n  #1   Side one (2 tracks)\n");
    let detail = PlaylistDetail {
        playlist: PlaylistView {
            id: EntityId(4),
            name: "Side one".to_string(),
            track_count: 1,
            updated_at: 0,
        },
        tracks: vec![money()],
    };
    assert_eq!(
        playlist_listing(&detail).text,
        format!("Side one\n  #1   {}\n", MONEY_LINE)
    );
    let mixes = vec![MixView {
        service: Service::Tidal,
        mix: "m".to_string(),
        name: "My Mix 1".to_string(),
        description: "Pink Floyd and more".to_string(),
    }];
    let listing = mixes_listing(&mixes);
    assert_eq!(listing.text, "  #1   My Mix 1 — Pink Floyd and more\n");
    assert_eq!(
        listing.items,
        vec![Item::Mix { service: Service::Tidal, mix: "m".to_string(), kind: None }]
    );
}

fn queued(title: &str, sources: Vec<SourceRef>) -> TrackRef {
    TrackRef {
        id: EntityId(1),
        meta: TrackMeta {
            title: title.to_string(),
            artists: vec![],
            album: None,
            duration_ms: None,
            artwork_url: None,
        },
        sources,
    }
}

#[test]
fn the_queue_is_listed_with_the_current_entry_marked() {
    assert_eq!(queue_lines(&vec![], 0), vec!["queue is empty".to_string()]);
    let tracks = vec![
        queued("Money", vec![]),
        queued("", vec![SourceRef::Tidal { id: "42".to_string() }]),
        queued("", vec![]),
    ];
    assert_eq!(
        queue_lines(&tracks, 1),
        vec![
            "    1. Money".to_string(),
            ">   2. (tidal 42)".to_string(),
            "    3. (tidal ?)".to_string(),
        ]
    );
    let many = vec![queued("x", vec![]); 100];
    assert_eq!(queue_lines(&many, 0)[99], "  100. x");
    assert_eq!(queue_lines(&many, 0)[9], "   10. x");
}

fn speaker() -> Output {
    Output {
        id: "cast-1".to_string(),
        name: "Tunes".to_string(),
        kind: "chromecast".to_string(),
        protocols: vec![
            ("chromecast".to_string(), "cast-1".to_string()),
            ("dlna".to_string(), "uuid-1".to_string()),
        ],
    }
}

#[test]
fn an_output_is_listed_and_selected() {
    assert_eq!(
        output_line(&speaker()),
        "chromecast Tunes                    cast-1  (also dlna)"
    );
    let outputs = vec![speaker()];
    assert_eq!(
        select_sink(&outputs, "TUN"),
        Ok(("cast-1".to_string(), "Tunes".to_string()))
    );
    assert_eq!(
        select_sink(&outputs, "Tunes@upnp"),
        Ok(("uuid-1".to_string(), "Tunes".to_string()))
    );
    assert_eq!(
        select_sink(&outputs, "Tunes@airplay"),
        Err("\"Tunes\" is not reachable over airplay".to_string())
    );
    assert_eq!(
        select_sink(&outputs, "Sofa"),
        Err("no sink matching \"Sofa\" — `sinks` to list what was discovered".to_string())
    );
    assert_eq!(protocol_kind("CAST"), "chromecast");
    assert_eq!(output_to_set(&outputs, "ÉTÉ").is_err(), true);
    let named = Output { name: "Été".to_string(), ..speaker() };
    assert_eq!(output_to_set(&vec![named], "ÉTÉ"), Ok(0));
}

#[test]
fn an_idle_client_stays_silent() {
    let mut watch = Watch::new(false, false);
    assert!(watch.absorb(3, "paused", 0), "the first snapshot is news");
    assert!(!watch.absorb(3, "paused", 5_000));
    assert!(!watch.absorb(3, "playing", 999));
    assert!(watch.absorb(3, "playing", 1_000));
    assert!(watch.absorb(4, "paused", 0), "a transition is news");
    assert!(!Watch::new(false, true).absorb(1, "playing", 5_000));
    assert!(!Watch::new(true, false).absorb(1, "playing", 5_000));
}

#[test]
fn an_import_says_what_it_brought_in() {
    let report = ImportReport { tracks: 1, albums: 0, artists: 20, playlists: 3 };
    assert_eq!(
        import_line(&report),
        "imported 1 tracks, 0 albums, 20 artists, 3 playlists"
    );
}

fn found(name: &str, location: Option<&str>) -> Found {
    Found {
        id: "id".to_string(),
        name: name.to_string(),
        kind: SinkKind::Chromecast,
        addr: "10.0.0.2:8009".to_string(),
        location: location.map(str::to_string),
    }
}

#[test]
fn a_renderer_is_looked_for_by_name() {
    let now = Instant { nanos: 0 };
    let lookup = Lookup::new("tunes".to_string(), now);
    let devices = vec![found("Sofa", None), found("Tunes", None)];
    assert_eq!(lookup.look(&devices, now), Look::Found(1));
    assert_eq!(lookup.look(&vec![], now), Look::Wait(Duration::from_millis(250)));
    assert_eq!(
        lookup.look(&vec![], now.after(Duration::from_secs(5))),
        Look::GiveUp(
            "no renderer named “tunes” found; run `canon devices` to list them".to_string()
        )
    );
}

#[test]
fn renderers_are_listed() {
    assert_eq!(
        device_lines(&vec![]),
        vec!["no renderers found. check that the device is on and on this LAN subnet."
            .to_string()]
    );
    assert_eq!(
        device_lines(&vec![found("Tunes", Some("http://x"))]),
        vec![
            "found 1 renderer(s):".to_string(),
            "  Chromecast  Tunes                    10.0.0.2:8009  [id]".to_string(),
            "              described at http://x".to_string(),
        ]
    );
}

#[test]
fn addresses_and_parameters_are_taken_apart() {
    assert_eq!(host("https://cdn.example/a/b"), "cdn.example");
    assert_eq!(host("https://cdn.example"), "cdn.example");
    assert_eq!(host("nonsense"), "?");
    assert_eq!(
        parameters(&vec!["a=b=c".to_string(), "d=".to_string()]),
        Ok(vec![
            ("a".to_string(), "b=c".to_string()),
            ("d".to_string(), "".to_string()),
        ])
    );
    assert_eq!(
        parameters(&vec!["a".to_string()]),
        Err("query parameters are key=value".to_string())
    );
}

#[test]
fn an_output_is_selected_by_an_id_that_holds_an_at_sign() {
    let odd = Output { id: "uuid@host".to_string(), ..speaker() };
    assert_eq!(
        select_sink(&vec![odd], "uuid@host"),
        Ok(("uuid@host".to_string(), "Tunes".to_string()))
    );
}
