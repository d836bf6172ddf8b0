//! What a service can show, as it describes it. The library ingests these.

use vstd::prelude::*;

use crate::id::{SourceRef, SourceView};
use crate::track::{
    credits_view, SourceAlbum, SourceAlbumView, SourceArtist, SourceArtistView, SourceTrack,
    SourceTrackView,
};

verus! {

/// What a search found, each list in the service's own relevance order.
#[derive(Debug, PartialEq, Eq)]
pub struct SearchResults {
    pub tracks: Vec<SourceTrack>,
    pub albums: Vec<SourceAlbum>,
    pub artists: Vec<SourceArtist>,
}

/// What several described albums say.
pub open spec fn releases_view(all: Seq<SourceAlbum>) -> Seq<SourceAlbumView> {
    all.map_values(|a: SourceAlbum| a@)
}

/// What [`SearchResults`] say.
#[verifier::ext_equal]
pub struct SearchResultsView {
    pub tracks: Seq<SourceTrackView>,
    pub albums: Seq<SourceAlbumView>,
    pub artists: Seq<SourceArtistView>,
}

impl View for SearchResults {
    type V = SearchResultsView;

    open spec fn view(&self) -> SearchResultsView {
        SearchResultsView {
            tracks: described_view(self.tracks@),
            albums: releases_view(self.albums@),
            artists: credits_view(self.artists@),
        }
    }
}

impl Default for SearchResults {
    fn default() -> (results: Self)
        ensures
            results@ == (SearchResultsView {
                tracks: Seq::empty(),
                albums: Seq::empty(),
                artists: Seq::empty(),
            }),
    {
        SearchResults { tracks: Vec::new(), albums: Vec::new(), artists: Vec::new() }
    }
}

/// An album and its whole tracklist.
#[derive(Debug, PartialEq, Eq)]
pub struct AlbumListing {
    pub album: SourceAlbum,
    /// In disc and position order, each with its disc and position set.
    pub tracks: Vec<SourceTrack>,
}

/// What several described tracks say.
pub open spec fn described_view(all: Seq<SourceTrack>) -> Seq<SourceTrackView> {
    all.map_values(|t: SourceTrack| t@)
}

/// What an [`AlbumListing`] says.
#[verifier::ext_equal]
pub struct AlbumListingView {
    pub album: SourceAlbumView,
    pub tracks: Seq<SourceTrackView>,
}

impl View for AlbumListing {
    type V = AlbumListingView;

    open spec fn view(&self) -> AlbumListingView {
        AlbumListingView { album: self.album@, tracks: described_view(self.tracks@) }
    }
}

/// An artist, their releases, and the tracks the service ranks highest.
#[derive(Debug, PartialEq, Eq)]
pub struct ArtistListing {
    pub artist: SourceArtist,
    /// Albums, and after them EPs and singles, each newest first.
    pub albums: Vec<SourceAlbum>,
    pub top_tracks: Vec<SourceTrack>,
}

/// What an [`ArtistListing`] says.
#[verifier::ext_equal]
pub struct ArtistListingView {
    pub artist: SourceArtistView,
    pub albums: Seq<SourceAlbumView>,
    pub top_tracks: Seq<SourceTrackView>,
}

impl View for ArtistListing {
    type V = ArtistListingView;

    open spec fn view(&self) -> ArtistListingView {
        ArtistListingView {
            artist: self.artist@,
            albums: releases_view(self.albums@),
            top_tracks: described_view(self.top_tracks@),
        }
    }
}

/// Something the user marked on a service, and when.
#[derive(Debug, PartialEq, Eq)]
pub struct Favorite<T> {
    pub item: T,
    /// Milliseconds since the Unix epoch, when the service says it was added.
    pub added_ms: Option<i64>,
}

/// What several favorites say.
pub open spec fn favorites_view<T: View>(all: Seq<Favorite<T>>) -> Seq<Favorite<T::V>> {
    all.map_values(|f: Favorite<T>| Favorite { item: f.item@, added_ms: f.added_ms })
}

/// Everything the user has marked as a favorite on a service, newest first.
#[derive(Debug, PartialEq, Eq)]
pub struct Favorites {
    pub tracks: Vec<Favorite<SourceTrack>>,
    pub albums: Vec<Favorite<SourceAlbum>>,
    pub artists: Vec<Favorite<SourceArtist>>,
}

impl Default for Favorites {
    fn default() -> (favorites: Self)
        ensures
            favorites.tracks@ == Seq::<Favorite<SourceTrack>>::empty(),
            favorites.albums@ == Seq::<Favorite<SourceAlbum>>::empty(),
            favorites.artists@ == Seq::<Favorite<SourceArtist>>::empty(),
    {
        Favorites { tracks: Vec::new(), albums: Vec::new(), artists: Vec::new() }
    }
}

/// A playlist the user keeps on a service, with its tracks in order.
#[derive(Debug, PartialEq, Eq)]
pub struct SourcePlaylist {
    /// The service's own id for it.
    pub source: SourceRef,
    pub name: String,
    pub tracks: Vec<SourceTrack>,
}

/// What a [`SourcePlaylist`] says.
#[verifier::ext_equal]
pub struct SourcePlaylistView {
    pub source: SourceView,
    pub name: Seq<char>,
    pub tracks: Seq<SourceTrackView>,
}

impl View for SourcePlaylist {
    type V = SourcePlaylistView;

    open spec fn view(&self) -> SourcePlaylistView {
        SourcePlaylistView {
            source: self.source@,
            name: self.name@,
            tracks: described_view(self.tracks@),
        }
    }
}

/// What several service playlists say.
pub open spec fn source_playlists_view(all: Seq<SourcePlaylist>) -> Seq<SourcePlaylistView> {
    all.map_values(|p: SourcePlaylist| p@)
}

/// A personal mix a service made for the user.
#[derive(Debug, PartialEq, Eq)]
pub struct SourceMix {
    /// The service's id for the mix.
    pub id: String,
    pub name: String,
    pub description: String,
}

/// What a radio station is seeded with.
#[derive(Debug, PartialEq, Eq)]
pub enum Seed {
    Track(SourceRef),
    Artist(SourceRef),
}

} // verus!
