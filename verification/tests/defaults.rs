use canon::catalog::{Favorites, SearchResults};
use canon::connection::{Capabilities, Capability};
use canon::id::{EntityId, Service};
use canon::model::EntityKind;
use canon::sink::{LocalGate, OutputRoute};
use canon::source::Sources;
use canon::state::FrameClock;
use canon::track::{SourceAlbum, SourceArtist, TrackMeta};
use canon::view::{ImportReport, LibraryPage, SearchView};

#[test]
fn nothing_is_granted_by_default() {
    let granted = Capabilities::default();
    for capability in [
        Capability::Catalog,
        Capability::LibraryRead,
        Capability::LibraryWrite,
        Capability::Recommendations,
        Capability::Stream,
    ] {
        assert!(!granted.has(capability));
    }
    assert_eq!(granted.stream, None);
}

#[test]
fn what_is_described_starts_out_empty() {
    let meta = TrackMeta::default();
    assert_eq!((meta.title.as_str(), meta.artists.len()), ("", 0));
    assert_eq!((meta.album, meta.duration_ms, meta.artwork_url), (None, None, None));
    assert_eq!(SourceArtist::default(), SourceArtist { source: None, name: String::new() });
    let album = SourceAlbum::default();
    assert_eq!((album.source, album.title.as_str(), album.artists.len()), (None, "", 0));
    let found = SearchResults::default();
    assert_eq!((found.tracks.len(), found.albums.len(), found.artists.len()), (0, 0, 0));
    let favorites = Favorites::default();
    assert_eq!((favorites.tracks.len(), favorites.albums.len()), (0, 0));
    assert_eq!(favorites.artists.len(), 0);
}

#[test]
fn what_is_shown_starts_out_empty() {
    let page = LibraryPage::default();
    assert_eq!((page.total, page.tracks.len(), page.playlists.len()), (0, 0, 0));
    let report = ImportReport::default();
    assert_eq!((report.tracks, report.albums), (0, 0));
    assert_eq!((report.artists, report.playlists), (0, 0));
    assert_eq!(SearchView::default().tracks.len(), 0);
    assert_eq!(EntityKind::default(), EntityKind::Track);
}

#[test]
fn nothing_plays_by_default() {
    assert!(!Sources::default().plays(Service::Tidal));
    assert_eq!(FrameClock::default(), FrameClock::new());
    assert!(!LocalGate::default().local_muted());
    assert!(!OutputRoute::default().local_muted());
    assert_ne!(EntityId::default(), EntityId::default(), "each id is a new one");
}
