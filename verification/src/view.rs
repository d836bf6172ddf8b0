//! What clients are shown: library entities joined up for display, with the ids to act on.
//!
//! Every view carries ids (to play, save or open) and the entity's bindings (where it can play
//! from). They are read-only snapshots, built fresh per request.

use vstd::prelude::*;
use vstd::string::*;

use crate::error::{Error, ErrorView, Result};
use crate::id::{sources_view, EntityId, Service, SourceRef, SourceView};
use crate::model::{AlbumTrack, EntityKind};
use crate::rows::{in_order, in_order_holds_the_same, in_order_is_sorted, put_in_order, Rank};
use crate::source::{Sources, SourcesModel};
use crate::store::{no_such, not_found, AlbumEntry, Store, StoreModel};
use crate::text::{chars_of, opt_text, texts};
use crate::track::{tracks_view, MetaView, TrackMeta, TrackRef, TrackRefView};
use crate::tracklist::rows_stay_in_bounds;

verus! {

/// An entity named by id and display name, for a credit or an album reference.
#[derive(Debug, PartialEq, Eq)]
pub struct Named {
    pub id: EntityId,
    pub name: String,
}

/// What a [`Named`] says.
pub struct NamedModel {
    pub id: EntityId,
    pub name: Seq<char>,
}

impl View for Named {
    type V = NamedModel;

    open spec fn view(&self) -> NamedModel {
        NamedModel { id: self.id, name: self.name@ }
    }
}

pub open spec fn names_view(all: Seq<Named>) -> Seq<NamedModel> {
    all.map_values(|n: Named| n@)
}

pub open spec fn opt_named(named: Option<Named>) -> Option<NamedModel> {
    match named {
        Some(n) => Some(n@),
        None => None,
    }
}

/// A track for display.
#[derive(Debug, PartialEq, Eq)]
pub struct TrackView {
    pub id: EntityId,
    pub title: String,
    pub artists: Vec<Named>,
    /// The album this track is being shown on: the one listed, or the first it was placed on.
    pub album: Option<Named>,
    pub duration_ms: Option<u64>,
    pub artwork_url: Option<String>,
    /// Whether it is in the user's library.
    pub saved: bool,
    pub sources: Vec<SourceRef>,
    /// The service it would play from, if any can play it.
    pub plays_from: Option<Service>,
}

/// What a [`TrackView`] says.
#[verifier::ext_equal]
pub struct TrackShown {
    pub id: EntityId,
    pub title: Seq<char>,
    pub artists: Seq<NamedModel>,
    pub album: Option<NamedModel>,
    pub duration_ms: Option<u64>,
    pub artwork_url: Option<Seq<char>>,
    pub saved: bool,
    pub sources: Seq<SourceView>,
    pub plays_from: Option<Service>,
}

impl View for TrackView {
    type V = TrackShown;

    open spec fn view(&self) -> TrackShown {
        TrackShown {
            id: self.id,
            title: self.title@,
            artists: names_view(self.artists@),
            album: opt_named(self.album),
            duration_ms: self.duration_ms,
            artwork_url: opt_text(self.artwork_url),
            saved: self.saved,
            sources: sources_view(self.sources@),
            plays_from: self.plays_from,
        }
    }
}

pub open spec fn track_views_view(all: Seq<TrackView>) -> Seq<TrackShown> {
    all.map_values(|t: TrackView| t@)
}

/// An album for display.
#[derive(Debug, PartialEq, Eq)]
pub struct AlbumView {
    pub id: EntityId,
    pub title: String,
    pub credit: String,
    pub artists: Vec<Named>,
    pub release_date: Option<String>,
    pub artwork_url: Option<String>,
    pub saved: bool,
    pub sources: Vec<SourceRef>,
}

/// What an [`AlbumView`] says.
#[verifier::ext_equal]
pub struct AlbumShown {
    pub id: EntityId,
    pub title: Seq<char>,
    pub credit: Seq<char>,
    pub artists: Seq<NamedModel>,
    pub release_date: Option<Seq<char>>,
    pub artwork_url: Option<Seq<char>>,
    pub saved: bool,
    pub sources: Seq<SourceView>,
}

impl View for AlbumView {
    type V = AlbumShown;

    open spec fn view(&self) -> AlbumShown {
        AlbumShown {
            id: self.id,
            title: self.title@,
            credit: self.credit@,
            artists: names_view(self.artists@),
            release_date: opt_text(self.release_date),
            artwork_url: opt_text(self.artwork_url),
            saved: self.saved,
            sources: sources_view(self.sources@),
        }
    }
}

pub open spec fn album_views_view(all: Seq<AlbumView>) -> Seq<AlbumShown> {
    all.map_values(|a: AlbumView| a@)
}

/// An artist for display.
#[derive(Debug, PartialEq, Eq)]
pub struct ArtistView {
    pub id: EntityId,
    pub name: String,
    pub saved: bool,
    pub sources: Vec<SourceRef>,
}

/// What an [`ArtistView`] says.
#[verifier::ext_equal]
pub struct ArtistShown {
    pub id: EntityId,
    pub name: Seq<char>,
    pub saved: bool,
    pub sources: Seq<SourceView>,
}

impl View for ArtistView {
    type V = ArtistShown;

    open spec fn view(&self) -> ArtistShown {
        ArtistShown {
            id: self.id,
            name: self.name@,
            saved: self.saved,
            sources: sources_view(self.sources@),
        }
    }
}

pub open spec fn artist_views_view(all: Seq<ArtistView>) -> Seq<ArtistShown> {
    all.map_values(|a: ArtistView| a@)
}

/// One entry of an album's tracklist.
#[derive(Debug, PartialEq, Eq)]
pub struct ListedTrack {
    pub disc: u32,
    pub position: u32,
    pub track: TrackView,
}

/// What a [`ListedTrack`] says.
#[verifier::ext_equal]
pub struct ListedShown {
    pub disc: u32,
    pub position: u32,
    pub track: TrackShown,
}

impl View for ListedTrack {
    type V = ListedShown;

    open spec fn view(&self) -> ListedShown {
        ListedShown { disc: self.disc, position: self.position, track: self.track@ }
    }
}

pub open spec fn listed_view(all: Seq<ListedTrack>) -> Seq<ListedShown> {
    all.map_values(|t: ListedTrack| t@)
}

/// An album and its tracklist.
#[derive(Debug, PartialEq, Eq)]
pub struct AlbumDetail {
    pub album: AlbumView,
    pub tracks: Vec<ListedTrack>,
}

/// What an [`AlbumDetail`] says.
#[verifier::ext_equal]
pub struct AlbumDetailShown {
    pub album: AlbumShown,
    pub tracks: Seq<ListedShown>,
}

impl View for AlbumDetail {
    type V = AlbumDetailShown;

    open spec fn view(&self) -> AlbumDetailShown {
        AlbumDetailShown { album: self.album@, tracks: listed_view(self.tracks@) }
    }
}

/// An artist, their releases, and their top tracks (when a service ranks them).
#[derive(Debug, PartialEq, Eq)]
pub struct ArtistDetail {
    pub artist: ArtistView,
    pub albums: Vec<AlbumView>,
    pub top_tracks: Vec<TrackView>,
}

/// What an [`ArtistDetail`] says.
#[verifier::ext_equal]
pub struct ArtistDetailShown {
    pub artist: ArtistShown,
    pub albums: Seq<AlbumShown>,
    pub top_tracks: Seq<TrackShown>,
}

impl View for ArtistDetail {
    type V = ArtistDetailShown;

    open spec fn view(&self) -> ArtistDetailShown {
        ArtistDetailShown {
            artist: self.artist@,
            albums: album_views_view(self.albums@),
            top_tracks: track_views_view(self.top_tracks@),
        }
    }
}

/// A playlist for display.
#[derive(Debug, PartialEq, Eq)]
pub struct PlaylistView {
    pub id: EntityId,
    pub name: String,
    pub track_count: usize,
    /// Milliseconds since the Unix epoch.
    pub updated_at: i64,
}

/// What a [`PlaylistView`] says.
pub struct PlaylistShown {
    pub id: EntityId,
    pub name: Seq<char>,
    pub track_count: int,
    pub updated_at: i64,
}

impl View for PlaylistView {
    type V = PlaylistShown;

    open spec fn view(&self) -> PlaylistShown {
        PlaylistShown {
            id: self.id,
            name: self.name@,
            track_count: self.track_count as int,
            updated_at: self.updated_at,
        }
    }
}

pub open spec fn playlist_views_view(all: Seq<PlaylistView>) -> Seq<PlaylistShown> {
    all.map_values(|p: PlaylistView| p@)
}

/// A playlist and its tracks, in order.
#[derive(Debug, PartialEq, Eq)]
pub struct PlaylistDetail {
    pub playlist: PlaylistView,
    pub tracks: Vec<TrackView>,
}

/// What a [`PlaylistDetail`] says.
#[verifier::ext_equal]
pub struct PlaylistDetailShown {
    pub playlist: PlaylistShown,
    pub tracks: Seq<TrackShown>,
}

impl View for PlaylistDetail {
    type V = PlaylistDetailShown;

    open spec fn view(&self) -> PlaylistDetailShown {
        PlaylistDetailShown { playlist: self.playlist@, tracks: track_views_view(self.tracks@) }
    }
}

/// A page of the user's saved library: one kind, newest first. `total` counts every match, not
/// just this page.
#[derive(Debug, PartialEq, Eq)]
pub struct LibraryPage {
    pub total: usize,
    pub tracks: Vec<TrackView>,
    pub albums: Vec<AlbumView>,
    pub artists: Vec<ArtistView>,
    pub playlists: Vec<PlaylistView>,
}

/// What a [`LibraryPage`] says.
#[verifier::ext_equal]
pub struct PageShown {
    pub total: int,
    pub tracks: Seq<TrackShown>,
    pub albums: Seq<AlbumShown>,
    pub artists: Seq<ArtistShown>,
    pub playlists: Seq<PlaylistShown>,
}

impl View for LibraryPage {
    type V = PageShown;

    open spec fn view(&self) -> PageShown {
        PageShown {
            total: self.total as int,
            tracks: track_views_view(self.tracks@),
            albums: album_views_view(self.albums@),
            artists: artist_views_view(self.artists@),
            playlists: playlist_views_view(self.playlists@),
        }
    }
}

impl Default for LibraryPage {
    fn default() -> (page: Self)
        ensures
            page@ == (PageShown {
                total: 0,
                tracks: Seq::empty(),
                albums: Seq::empty(),
                artists: Seq::empty(),
                playlists: Seq::empty(),
            }),
    {
        LibraryPage {
            total: 0,
            tracks: Vec::new(),
            albums: Vec::new(),
            artists: Vec::new(),
            playlists: Vec::new(),
        }
    }
}

/// What an import brought in.
#[derive(Debug, Clone, Copy, PartialEq, Eq, Structural)]
pub struct ImportReport {
    pub tracks: usize,
    pub albums: usize,
    pub artists: usize,
    pub playlists: usize,
}

impl Default for ImportReport {
    fn default() -> (report: Self)
        ensures
            report == (ImportReport { tracks: 0, albums: 0, artists: 0, playlists: 0 }),
    {
        ImportReport { tracks: 0, albums: 0, artists: 0, playlists: 0 }
    }
}

/// What a search found.
#[derive(Debug, PartialEq, Eq)]
pub struct SearchView {
    pub tracks: Vec<TrackView>,
    pub albums: Vec<AlbumView>,
    pub artists: Vec<ArtistView>,
}

/// What a [`SearchView`] says.
#[verifier::ext_equal]
pub struct SearchShown {
    pub tracks: Seq<TrackShown>,
    pub albums: Seq<AlbumShown>,
    pub artists: Seq<ArtistShown>,
}

impl View for SearchView {
    type V = SearchShown;

    open spec fn view(&self) -> SearchShown {
        SearchShown {
            tracks: track_views_view(self.tracks@),
            albums: album_views_view(self.albums@),
            artists: artist_views_view(self.artists@),
        }
    }
}

impl Default for SearchView {
    fn default() -> (view: Self)
        ensures
            view@ == (SearchShown {
                tracks: Seq::empty(),
                albums: Seq::empty(),
                artists: Seq::empty(),
            }),
    {
        SearchView { tracks: Vec::new(), albums: Vec::new(), artists: Vec::new() }
    }
}

/// A personal mix a service has made for the user.
#[derive(Debug, PartialEq, Eq)]
pub struct MixView {
    pub service: Service,
    /// The service's id for the mix.
    pub mix: String,
    pub name: String,
    pub description: String,
}

impl TrackShown {
    /// The track with where it plays from filled in.
    pub open spec fn marked(self, sources: SourcesModel) -> TrackShown {
        TrackShown { plays_from: sources.plays_from(self.sources), ..self }
    }
}

pub open spec fn marked_tracks(all: Seq<TrackShown>, sources: SourcesModel) -> Seq<TrackShown> {
    all.map_values(|t: TrackShown| t.marked(sources))
}

pub open spec fn marked_listing(all: Seq<ListedShown>, sources: SourcesModel) -> Seq<ListedShown> {
    all.map_values(|t: ListedShown| ListedShown { track: t.track.marked(sources), ..t })
}

/// Whether `a` comes before `b` in character order.
pub open spec fn precedes(a: Seq<char>, b: Seq<char>) -> bool
    decreases a.len(),
{
    b.len() > 0 && (a.len() == 0 || a[0] < b[0] || (a[0] == b[0] && precedes(a.skip(1), b.skip(1))))
}

/// Whether something dated `a` is newer than something dated `b`; what has no date is oldest.
pub open spec fn newer(a: Option<Seq<char>>, b: Option<Seq<char>>) -> bool {
    match (a, b) {
        (Some(x), Some(y)) => precedes(y, x),
        (Some(_), None) => true,
        _ => false,
    }
}

/// How many of the first `n` albums are newer than album `i`.
pub open spec fn newer_count(albums: Seq<AlbumEntry>, i: int, n: int) -> int
    decreases n,
{
    if n <= 0 {
        0
    } else {
        newer_count(albums, i, n - 1) + if newer(
            albums[n - 1].album.release_date,
            albums[i].album.release_date,
        ) {
            1int
        } else {
            0int
        }
    }
}

/// Where album `i` comes among the newest: by how many are newer.
pub open spec fn age_rank(albums: Seq<AlbumEntry>, i: int) -> Rank {
    Rank {
        first: newer_count(albums, i, albums.len() as int) as i128,
        second: 0,
        third: 0,
        row: i as usize,
    }
}

/// The rank of album `i` once for each of the first `m` places of its credit that `artist` has.
pub open spec fn credit_ranks(
    albums: Seq<AlbumEntry>,
    artist: EntityId,
    i: int,
    m: int,
) -> Seq<Rank>
    decreases m,
{
    if m <= 0 {
        Seq::empty()
    } else if albums[i].album.artists[m - 1] == artist {
        credit_ranks(albums, artist, i, m - 1).push(age_rank(albums, i))
    } else {
        credit_ranks(albums, artist, i, m - 1)
    }
}

/// The ranks of those of the first `n` albums credited to `artist`.
pub open spec fn discography(albums: Seq<AlbumEntry>, artist: EntityId, n: int) -> Seq<Rank>
    decreases n,
{
    if n <= 0 {
        Seq::empty()
    } else {
        discography(albums, artist, n - 1) + credit_ranks(
            albums,
            artist,
            n - 1,
            albums[n - 1].album.artists.len() as int,
        )
    }
}

/// An artist is not a list of tracks.
pub open spec fn not_tracks() -> ErrorView {
    ErrorView::Unsupported("an artist is not a list of tracks: play an album, or their radio"@)
}

pub fn is_not_tracks() -> (e: Error)
    ensures
        e@ == not_tracks(),
{
    Error::Unsupported(
        "an artist is not a list of tracks: play an album, or their radio".to_owned(),
    )
}

impl StoreModel {
    /// The names of the artists `ids` names, in order.
    pub open spec fn named_artists(self, ids: Seq<EntityId>) -> Seq<NamedModel>
        decreases ids.len(),
    {
        if ids.len() == 0 {
            Seq::empty()
        } else {
            match self.artist(ids.last()) {
                Some(artist) => self.named_artists(ids.drop_last()).push(
                    NamedModel { id: ids.last(), name: artist.name },
                ),
                None => self.named_artists(ids.drop_last()),
            }
        }
    }

    /// Whether `id` is in the user's library.
    pub open spec fn is_saved(self, id: EntityId) -> bool {
        self.saved_at(id) is Some
    }

    /// The track `id` for display, on album `on` if given, else the first it was placed on.
    pub open spec fn track_shown(self, id: EntityId, on: Option<EntityId>) -> Option<TrackShown> {
        match self.track(id) {
            None => None,
            Some(track) => {
                let album_id = match on {
                    Some(album) => Some(album),
                    None => self.first_album_of(id),
                };
                let album = match album_id {
                    Some(album) => self.album(album),
                    None => None,
                };
                Some(
                    TrackShown {
                        id,
                        title: track.title,
                        artists: self.named_artists(track.artists),
                        album: match album {
                            Some(a) => Some(NamedModel { id: album_id->0, name: a.title }),
                            None => None,
                        },
                        duration_ms: track.duration_ms,
                        artwork_url: match album {
                            Some(a) => a.artwork_url,
                            None => None,
                        },
                        saved: self.is_saved(id),
                        sources: self.sources_of(id),
                        plays_from: None,
                    },
                )
            },
        }
    }

    /// Those of `ids` that are tracks, for display, in order.
    pub open spec fn tracks_shown(self, ids: Seq<EntityId>) -> Seq<TrackShown>
        decreases ids.len(),
    {
        if ids.len() == 0 {
            Seq::empty()
        } else {
            match self.track_shown(ids.last(), None) {
                Some(shown) => self.tracks_shown(ids.drop_last()).push(shown),
                None => self.tracks_shown(ids.drop_last()),
            }
        }
    }

    /// The album `id` for display.
    pub open spec fn album_shown(self, id: EntityId) -> Option<AlbumShown> {
        match self.album(id) {
            None => None,
            Some(album) => Some(
                AlbumShown {
                    id,
                    title: album.title,
                    credit: album.credit,
                    artists: self.named_artists(album.artists),
                    release_date: album.release_date,
                    artwork_url: album.artwork_url,
                    saved: self.is_saved(id),
                    sources: self.sources_of(id),
                },
            ),
        }
    }

    /// Those of `ids` that are albums, for display, in order.
    pub open spec fn albums_shown(self, ids: Seq<EntityId>) -> Seq<AlbumShown>
        decreases ids.len(),
    {
        if ids.len() == 0 {
            Seq::empty()
        } else {
            match self.album_shown(ids.last()) {
                Some(shown) => self.albums_shown(ids.drop_last()).push(shown),
                None => self.albums_shown(ids.drop_last()),
            }
        }
    }

    /// The artist `id` for display.
    pub open spec fn artist_shown(self, id: EntityId) -> Option<ArtistShown> {
        match self.artist(id) {
            None => None,
            Some(artist) => Some(
                ArtistShown {
                    id,
                    name: artist.name,
                    saved: self.is_saved(id),
                    sources: self.sources_of(id),
                },
            ),
        }
    }

    /// Those of `ids` that are artists, for display, in order.
    pub open spec fn artists_shown(self, ids: Seq<EntityId>) -> Seq<ArtistShown>
        decreases ids.len(),
    {
        if ids.len() == 0 {
            Seq::empty()
        } else {
            match self.artist_shown(ids.last()) {
                Some(shown) => self.artists_shown(ids.drop_last()).push(shown),
                None => self.artists_shown(ids.drop_last()),
            }
        }
    }

    /// The tracks of `entries` for display, each where it is listed on `album`.
    pub open spec fn entries_shown(
        self,
        album: EntityId,
        entries: Seq<AlbumTrack>,
    ) -> Seq<ListedShown>
        decreases entries.len(),
    {
        if entries.len() == 0 {
            Seq::empty()
        } else {
            let entry = entries.last();
            match self.track_shown(entry.track, Some(album)) {
                Some(track) => self.entries_shown(album, entries.drop_last()).push(
                    ListedShown { disc: entry.disc, position: entry.position, track },
                ),
                None => self.entries_shown(album, entries.drop_last()),
            }
        }
    }

    /// The album `id` with its tracklist as the library has it.
    pub open spec fn album_detail(self, id: EntityId) -> Option<AlbumDetailShown> {
        match self.album_shown(id) {
            None => None,
            Some(album) => Some(
                AlbumDetailShown { album, tracks: self.entries_shown(id, self.tracklist(id)) },
            ),
        }
    }

    /// The albums credited to `artist`, newest first.
    pub open spec fn albums_by(self, artist: EntityId) -> Seq<EntityId> {
        in_order(discography(self.albums, artist, self.albums.len() as int)).map_values(
            |r: Rank| self.albums[r.row as int].id,
        )
    }

    /// The playlist `id` for display.
    pub open spec fn playlist_shown(self, id: EntityId) -> Option<PlaylistShown> {
        match self.playlist_at(id) {
            None => None,
            Some(i) => Some(
                PlaylistShown {
                    id,
                    name: self.playlists[i].name,
                    track_count: self.playlists[i].tracks.len() as int,
                    updated_at: self.playlists[i].updated_at,
                },
            ),
        }
    }

    /// Those of `ids` that are playlists, for display, in order.
    pub open spec fn playlists_shown(self, ids: Seq<EntityId>) -> Seq<PlaylistShown>
        decreases ids.len(),
    {
        if ids.len() == 0 {
            Seq::empty()
        } else {
            match self.playlist_shown(ids.last()) {
                Some(shown) => self.playlists_shown(ids.drop_last()).push(shown),
                None => self.playlists_shown(ids.drop_last()),
            }
        }
    }

    /// The playlist `id` with its tracks.
    pub open spec fn playlist_detail(self, id: EntityId) -> Option<PlaylistDetailShown> {
        match self.playlist_shown(id) {
            None => None,
            Some(playlist) => Some(
                PlaylistDetailShown {
                    playlist,
                    tracks: self.tracks_shown(self.playlist_tracks(id)),
                },
            ),
        }
    }

    /// The names the track is credited to: its artists', or failing them the credit itself.
    pub open spec fn credited_names(self, artists: Seq<EntityId>, credit: Seq<char>) -> Seq<
        Seq<char>,
    > {
        let names = self.named_artists(artists).map_values(|n: NamedModel| n.name);
        if names.len() == 0 && credit.len() > 0 {
            seq![credit]
        } else {
            names
        }
    }

    /// The track `id` as something to play: its display metadata and its bindings, most trusted
    /// first. The album shown is the first the track was placed on.
    pub open spec fn track_ref(self, id: EntityId) -> Option<TrackRefView> {
        match self.track(id) {
            None => None,
            Some(track) => {
                let album = match self.first_album_of(id) {
                    Some(album) => self.album(album),
                    None => None,
                };
                Some(
                    TrackRefView {
                        id,
                        meta: MetaView {
                            title: track.title,
                            artists: self.credited_names(track.artists, track.credit),
                            album: match album {
                                Some(a) => Some(a.title),
                                None => None,
                            },
                            duration_ms: track.duration_ms,
                            artwork_url: match album {
                                Some(a) => a.artwork_url,
                                None => None,
                            },
                        },
                        sources: self.sources_of(id),
                    },
                )
            },
        }
    }

    /// Those of `ids` that are tracks, as something to play, in order.
    pub open spec fn track_refs(self, ids: Seq<EntityId>) -> Seq<TrackRefView>
        decreases ids.len(),
    {
        if ids.len() == 0 {
            Seq::empty()
        } else {
            match self.track_ref(ids.last()) {
                Some(track) => self.track_refs(ids.drop_last()).push(track),
                None => self.track_refs(ids.drop_last()),
            }
        }
    }

    /// The tracks the entity `id` stands for: a track itself, an album its tracklist, a playlist
    /// its tracks.
    pub open spec fn expansion(self, id: EntityId) -> std::result::Result<
        Seq<TrackRefView>,
        ErrorView,
    > {
        match self.kind_of(id) {
            Some(EntityKind::Track) => Ok(self.track_refs(seq![id])),
            Some(EntityKind::Album) => Ok(
                self.track_refs(self.tracklist(id).map_values(|t: AlbumTrack| t.track)),
            ),
            Some(EntityKind::Playlist) => Ok(self.track_refs(self.playlist_tracks(id))),
            Some(EntityKind::Artist) => Err(not_tracks()),
            None => Err(not_found("entity "@, id)),
        }
    }
}

/// Whether `a` comes before `b` in character order.
fn comes_before(a: &Vec<char>, b: &Vec<char>) -> (r: bool)
    ensures
        r == precedes(a@, b@),
{
    let mut i: usize = 0;
    assert(a@.skip(0) =~= a@);
    assert(b@.skip(0) =~= b@);
    loop
        invariant
            i <= a@.len(),
            i <= b@.len(),
            precedes(a@, b@) == precedes(a@.skip(i as int), b@.skip(i as int)),
        decreases a@.len() - i,
    {
        if i >= b.len() {
            return false;
        }
        if i >= a.len() {
            return true;
        }
        if a[i] < b[i] {
            return true;
        }
        if a[i] != b[i] {
            return false;
        }
        assert(a@.skip(i as int).skip(1) =~= a@.skip(i + 1));
        assert(b@.skip(i as int).skip(1) =~= b@.skip(i + 1));
        i = i + 1;
    }
}

/// Whether something dated `a` is newer than something dated `b`.
fn is_newer(a: &Option<String>, b: &Option<String>) -> (r: bool)
    ensures
        r == newer(opt_text(*a), opt_text(*b)),
{
    match (a, b) {
        (Some(x), Some(y)) => comes_before(&chars_of(y.as_str()), &chars_of(x.as_str())),
        (Some(_), None) => true,
        _ => false,
    }
}

impl TrackView {
    /// Fill in where the track plays from.
    pub fn mark(&mut self, sources: &Sources)
        ensures
            final(self)@ == old(self)@.marked(sources@),
    {
        self.plays_from = sources.plays_from(&self.sources);
    }
}

/// `views` with where each plays from filled in.
pub fn mark(sources: &Sources, views: Vec<TrackView>) -> (marked: Vec<TrackView>)
    ensures
        track_views_view(marked@) == marked_tracks(track_views_view(views@), sources@),
{
    let mut views = views;
    let ghost before = views@;
    let mut i: usize = 0;
    while i < views.len()
        invariant
            i <= views@.len(),
            views@.len() == before.len(),
            forall|k: int| 0 <= k < i ==> (#[trigger] views@[k])@ == before[k]@.marked(sources@),
            forall|k: int| i <= k < before.len() ==> #[trigger] views@[k] == before[k],
        decreases views.len() - i,
    {
        let service = sources.plays_from(&views[i].sources);
        views[i].plays_from = service;
        i = i + 1;
    }
    assert(track_views_view(views@) =~= marked_tracks(track_views_view(before), sources@));
    views
}

/// A tracklist with where each track plays from filled in.
pub fn mark_listing(sources: &Sources, listing: Vec<ListedTrack>) -> (marked: Vec<ListedTrack>)
    ensures
        listed_view(marked@) == marked_listing(listed_view(listing@), sources@),
{
    let mut listing = listing;
    let ghost before = listing@;
    let mut i: usize = 0;
    while i < listing.len()
        invariant
            i <= listing@.len(),
            listing@.len() == before.len(),
            forall|k: int|
                0 <= k < i ==> (#[trigger] listing@[k])@ == (ListedShown {
                    track: before[k]@.track.marked(sources@),
                    ..before[k]@
                }),
            forall|k: int| i <= k < before.len() ==> #[trigger] listing@[k] == before[k],
        decreases listing.len() - i,
    {
        let service = sources.plays_from(&listing[i].track.sources);
        listing[i].track.plays_from = service;
        i = i + 1;
    }
    assert(listed_view(listing@) =~= marked_listing(listed_view(before), sources@));
    listing
}

impl Store {
    /// The names of the artists `ids` names, in order.
    pub fn named_artists(&self, ids: &Vec<EntityId>) -> (named: Vec<Named>)
        ensures
            names_view(named@) == self@.named_artists(ids@),
    {
        let mut named: Vec<Named> = Vec::new();
        let mut i: usize = 0;
        while i < ids.len()
            invariant
                i <= ids@.len(),
                names_view(named@) == self@.named_artists(ids@.take(i as int)),
            decreases ids.len() - i,
        {
            assert(ids@.take(i + 1).drop_last() =~= ids@.take(i as int));
            let ghost before = named@;
            if let Some(artist) = self.artist(ids[i]) {
                named.push(Named { id: ids[i], name: artist.name });
                assert(names_view(named@) =~= names_view(before).push(named@.last()@));
            }
            i = i + 1;
        }
        assert(ids@.take(i as int) =~= ids@);
        named
    }

    /// The track `id` for display, shown on album `on` if given, else the first it was placed on.
    pub fn track_view(&self, id: EntityId, on: Option<EntityId>) -> (shown: Option<TrackView>)
        ensures
            match shown {
                Some(view) => self@.track_shown(id, on) == Some(view@),
                None => self@.track_shown(id, on) is None,
            },
    {
        let track = match self.track(id) {
            Some(track) => track,
            None => {
                return None;
            },
        };
        let album_id: Option<EntityId> = match on {
            Some(album) => Some(album),
            None => self.first_album_of(id),
        };
        let (album, artwork_url) = match album_id {
            Some(album_id) => match self.album(album_id) {
                Some(album) => (
                    Some(Named { id: album_id, name: album.title }),
                    album.artwork_url,
                ),
                None => (None, None),
            },
            None => (None, None),
        };
        let view = TrackView {
            id,
            title: track.title,
            artists: self.named_artists(&track.artists),
            album,
            duration_ms: track.duration_ms,
            artwork_url,
            saved: self.is_saved(id),
            sources: self.sources(id),
            plays_from: None,
        };
        assert(self@.track_shown(id, on)->0 =~= view@);
        Some(view)
    }

    /// Those of `ids` that are tracks, for display, in order.
    pub fn track_views(&self, ids: &Vec<EntityId>) -> (shown: Vec<TrackView>)
        ensures
            track_views_view(shown@) == self@.tracks_shown(ids@),
    {
        let mut out: Vec<TrackView> = Vec::new();
        let mut i: usize = 0;
        while i < ids.len()
            invariant
                i <= ids@.len(),
                track_views_view(out@) == self@.tracks_shown(ids@.take(i as int)),
            decreases ids.len() - i,
        {
            assert(ids@.take(i + 1).drop_last() =~= ids@.take(i as int));
            let ghost before = out@;
            if let Some(view) = self.track_view(ids[i], None) {
                out.push(view);
                assert(track_views_view(out@) =~= track_views_view(before).push(view@));
            }
            i = i + 1;
        }
        assert(ids@.take(i as int) =~= ids@);
        out
    }

    /// The album `id` for display.
    pub fn album_view(&self, id: EntityId) -> (shown: Option<AlbumView>)
        ensures
            match shown {
                Some(view) => self@.album_shown(id) == Some(view@),
                None => self@.album_shown(id) is None,
            },
    {
        match self.album(id) {
            Some(album) => {
                let view = AlbumView {
                    id,
                    title: album.title,
                    credit: album.credit,
                    artists: self.named_artists(&album.artists),
                    release_date: album.release_date,
                    artwork_url: album.artwork_url,
                    saved: self.is_saved(id),
                    sources: self.sources(id),
                };
                assert(self@.album_shown(id)->0 =~= view@);
                Some(view)
            },
            None => None,
        }
    }

    /// Those of `ids` that are albums, for display, in order.
    pub fn album_views(&self, ids: &Vec<EntityId>) -> (shown: Vec<AlbumView>)
        ensures
            album_views_view(shown@) == self@.albums_shown(ids@),
    {
        let mut out: Vec<AlbumView> = Vec::new();
        let mut i: usize = 0;
        while i < ids.len()
            invariant
                i <= ids@.len(),
                album_views_view(out@) == self@.albums_shown(ids@.take(i as int)),
            decreases ids.len() - i,
        {
            assert(ids@.take(i + 1).drop_last() =~= ids@.take(i as int));
            let ghost before = out@;
            if let Some(view) = self.album_view(ids[i]) {
                out.push(view);
                assert(album_views_view(out@) =~= album_views_view(before).push(view@));
            }
            i = i + 1;
        }
        assert(ids@.take(i as int) =~= ids@);
        out
    }

    /// The artist `id` for display.
    pub fn artist_view(&self, id: EntityId) -> (shown: Option<ArtistView>)
        ensures
            match shown {
                Some(view) => self@.artist_shown(id) == Some(view@),
                None => self@.artist_shown(id) is None,
            },
    {
        match self.artist(id) {
            Some(artist) => {
                let view = ArtistView {
                    id,
                    name: artist.name,
                    saved: self.is_saved(id),
                    sources: self.sources(id),
                };
                assert(self@.artist_shown(id)->0 =~= view@);
                Some(view)
            },
            None => None,
        }
    }

    /// Those of `ids` that are artists, for display, in order.
    pub fn artist_views(&self, ids: &Vec<EntityId>) -> (shown: Vec<ArtistView>)
        ensures
            artist_views_view(shown@) == self@.artists_shown(ids@),
    {
        let mut out: Vec<ArtistView> = Vec::new();
        let mut i: usize = 0;
        while i < ids.len()
            invariant
                i <= ids@.len(),
                artist_views_view(out@) == self@.artists_shown(ids@.take(i as int)),
            decreases ids.len() - i,
        {
            assert(ids@.take(i + 1).drop_last() =~= ids@.take(i as int));
            let ghost before = out@;
            if let Some(view) = self.artist_view(ids[i]) {
                out.push(view);
                assert(artist_views_view(out@) =~= artist_views_view(before).push(view@));
            }
            i = i + 1;
        }
        assert(ids@.take(i as int) =~= ids@);
        out
    }

    /// The album `id` with its tracklist as the library has it.
    pub fn album_detail(&self, id: EntityId) -> (shown: Option<AlbumDetail>)
        ensures
            match shown {
                Some(detail) => self@.album_detail(id) == Some(detail@),
                None => self@.album_detail(id) is None,
            },
    {
        let album = match self.album_view(id) {
            Some(album) => album,
            None => {
                return None;
            },
        };
        let entries = self.tracklist(id);
        let mut tracks: Vec<ListedTrack> = Vec::new();
        let mut i: usize = 0;
        while i < entries.len()
            invariant
                i <= entries@.len(),
                listed_view(tracks@) == self@.entries_shown(id, entries@.take(i as int)),
            decreases entries.len() - i,
        {
            assert(entries@.take(i + 1).drop_last() =~= entries@.take(i as int));
            let ghost before = tracks@;
            let entry = entries[i];
            if let Some(track) = self.track_view(entry.track, Some(id)) {
                tracks.push(ListedTrack { disc: entry.disc, position: entry.position, track });
                assert(listed_view(tracks@) =~= listed_view(before).push(tracks@.last()@));
            }
            i = i + 1;
        }
        assert(entries@.take(i as int) =~= entries@);
        let detail = AlbumDetail { album, tracks };
        assert(self@.album_detail(id)->0 =~= detail@);
        Some(detail)
    }

    /// How many albums are newer than album `i`.
    fn newer_count(&self, i: usize) -> (count: usize)
        requires
            i < self.albums@.len(),
        ensures
            count == newer_count(self@.albums, i as int, self@.albums.len() as int),
    {
        let mut count: usize = 0;
        let mut n: usize = 0;
        while n < self.albums.len()
            invariant
                n <= self.albums@.len(),
                i < self.albums@.len(),
                count <= n,
                count == newer_count(self@.albums, i as int, n as int),
            decreases self.albums.len() - n,
        {
            assert(self@.albums[n as int] == self.albums@[n as int]@);
            assert(self@.albums[i as int] == self.albums@[i as int]@);
            if is_newer(&self.albums[n].album.release_date, &self.albums[i].album.release_date) {
                count = count + 1;
            }
            n = n + 1;
        }
        assert(self@.albums.len() == self.albums@.len());
        count
    }

    /// The albums credited to `artist`, newest first.
    pub fn albums_by(&self, artist: EntityId) -> (albums: Vec<EntityId>)
        ensures
            albums@ == self@.albums_by(artist),
    {
        let ghost all = self@.albums;
        let mut ranks: Vec<Rank> = Vec::new();
        let mut n: usize = 0;
        while n < self.albums.len()
            invariant
                n <= self.albums@.len(),
                all == self@.albums,
                all.len() == self.albums@.len(),
                ranks@ == discography(all, artist, n as int),
                forall|k: int| 0 <= k < ranks@.len() ==> (#[trigger] ranks@[k]).row < n,
            decreases self.albums.len() - n,
        {
            assert(all[n as int] == self.albums@[n as int]@);
            let ghost done = ranks@;
            let first: usize = self.newer_count(n);
            let rank = Rank { first: first as i128, second: 0, third: 0, row: n };
            assert(rank == age_rank(all, n as int));
            let mut m: usize = 0;
            assert(done + credit_ranks(all, artist, n as int, 0) =~= done);
            while m < self.albums[n as usize].album.artists.len()
                invariant
                    n < self.albums@.len(),
                    all == self@.albums,
                    all[n as int] == self.albums@[n as int]@,
                    m <= self.albums@[n as int].album.artists@.len(),
                    rank == age_rank(all, n as int),
                    rank.row == n,
                    ranks@ == done + credit_ranks(all, artist, n as int, m as int),
                    forall|k: int| 0 <= k < ranks@.len() ==> (#[trigger] ranks@[k]).row <= n,
                decreases self.albums@[n as int].album.artists@.len() - m,
            {
                if self.albums[n].album.artists[m].0 == artist.0 {
                    ranks.push(rank);
                    assert(ranks@ =~= done + credit_ranks(all, artist, n as int, m + 1));
                }
                m = m + 1;
            }
            n = n + 1;
        }
        proof {
            in_order_is_sorted(ranks@);
            rows_stay_in_bounds(ranks@, self.albums@.len() as int);
        }
        let sorted = put_in_order(&ranks);
        let ghost show = |r: Rank| self@.albums[r.row as int].id;
        let mut out: Vec<EntityId> = Vec::new();
        let mut j: usize = 0;
        while j < sorted.len()
            invariant
                j <= sorted@.len(),
                show == (|r: Rank| self@.albums[r.row as int].id),
                forall|k: int|
                    0 <= k < sorted@.len() ==> (#[trigger] sorted@[k]).row < self.albums@.len(),
                out@ == sorted@.take(j as int).map_values(show),
            decreases sorted.len() - j,
        {
            out.push(self.albums[sorted[j].row].id);
            assert(sorted@.take(j + 1).map_values(show) =~= sorted@.take(j as int).map_values(
                show,
            ).push(show(sorted@[j as int])));
            j = j + 1;
        }
        assert(sorted@.take(j as int) =~= sorted@);
        out
    }

    /// The playlist `id` for display.
    pub fn playlist_view(&self, id: EntityId) -> (shown: Option<PlaylistView>)
        ensures
            match shown {
                Some(view) => self@.playlist_shown(id) == Some(view@),
                None => self@.playlist_shown(id) is None,
            },
    {
        match self.playlist(id) {
            Some(playlist) => {
                let tracks = self.playlist_tracks(id);
                Some(
                    PlaylistView {
                        id,
                        name: playlist.name,
                        track_count: tracks.len(),
                        updated_at: playlist.updated_at,
                    },
                )
            },
            None => None,
        }
    }

    /// Those of `ids` that are playlists, for display, in order.
    pub fn playlist_views(&self, ids: &Vec<EntityId>) -> (shown: Vec<PlaylistView>)
        ensures
            playlist_views_view(shown@) == self@.playlists_shown(ids@),
    {
        let mut out: Vec<PlaylistView> = Vec::new();
        let mut i: usize = 0;
        while i < ids.len()
            invariant
                i <= ids@.len(),
                playlist_views_view(out@) == self@.playlists_shown(ids@.take(i as int)),
            decreases ids.len() - i,
        {
            assert(ids@.take(i + 1).drop_last() =~= ids@.take(i as int));
            let ghost before = out@;
            if let Some(view) = self.playlist_view(ids[i]) {
                out.push(view);
                assert(playlist_views_view(out@) =~= playlist_views_view(before).push(view@));
            }
            i = i + 1;
        }
        assert(ids@.take(i as int) =~= ids@);
        out
    }

    /// The playlist `id` with its tracks.
    pub fn playlist_detail(&self, id: EntityId) -> (shown: Option<PlaylistDetail>)
        ensures
            match shown {
                Some(detail) => self@.playlist_detail(id) == Some(detail@),
                None => self@.playlist_detail(id) is None,
            },
    {
        match self.playlist_view(id) {
            Some(playlist) => {
                let tracks = self.track_views(&self.playlist_tracks(id));
                let detail = PlaylistDetail { playlist, tracks };
                assert(self@.playlist_detail(id)->0 =~= detail@);
                Some(detail)
            },
            None => None,
        }
    }

    /// The track `id` as something to play: its display metadata and its bindings, most trusted
    /// first. The album shown is the first the track was placed on.
    pub fn track_ref(&self, id: EntityId) -> (track: Option<TrackRef>)
        ensures
            match track {
                Some(t) => self@.track_ref(id) == Some(t@),
                None => self@.track_ref(id) is None,
            },
    {
        let track = match self.track(id) {
            Some(track) => track,
            None => {
                return None;
            },
        };
        let named = self.named_artists(&track.artists);
        let mut artists: Vec<String> = Vec::new();
        let mut i: usize = 0;
        while i < named.len()
            invariant
                i <= named@.len(),
                artists@.len() == i,
                forall|k: int| 0 <= k < i ==> (#[trigger] artists@[k])@ == named@[k].name@,
            decreases named.len() - i,
        {
            artists.push(named[i].name.clone());
            i = i + 1;
        }
        let ghost names = self@.named_artists(track@.artists).map_values(|n: NamedModel| n.name);
        assert(texts(artists@) =~= names) by {
            assert forall|k: int| 0 <= k < names.len() implies texts(artists@)[k] == names[k] by {
                assert(names_view(named@)[k].name == named@[k].name@);
            }
        }
        if artists.len() == 0 && !track.credit.as_str().is_empty() {
            artists.push(track.credit.clone());
        }
        assert(texts(artists@) =~= self@.credited_names(track@.artists, track@.credit));
        let (album, artwork_url) = match self.first_album_of(id) {
            Some(album) => match self.album(album) {
                Some(album) => (Some(album.title), album.artwork_url),
                None => (None, None),
            },
            None => (None, None),
        };
        let found = TrackRef {
            id,
            meta: TrackMeta {
                title: track.title,
                artists,
                album,
                duration_ms: track.duration_ms,
                artwork_url,
            },
            sources: self.sources(id),
        };
        assert(self@.track_ref(id)->0 =~= found@);
        Some(found)
    }

    /// Those of `ids` that are tracks, as something to play, in order.
    pub fn track_refs(&self, ids: &Vec<EntityId>) -> (tracks: Vec<TrackRef>)
        ensures
            tracks_view(tracks@) == self@.track_refs(ids@),
    {
        let mut out: Vec<TrackRef> = Vec::new();
        let mut i: usize = 0;
        while i < ids.len()
            invariant
                i <= ids@.len(),
                tracks_view(out@) == self@.track_refs(ids@.take(i as int)),
            decreases ids.len() - i,
        {
            assert(ids@.take(i + 1).drop_last() =~= ids@.take(i as int));
            let ghost before = out@;
            if let Some(track) = self.track_ref(ids[i]) {
                out.push(track);
                assert(tracks_view(out@) =~= tracks_view(before).push(track@));
            }
            i = i + 1;
        }
        assert(ids@.take(i as int) =~= ids@);
        out
    }

    /// The tracks the entity `id` stands for: a track itself, an album its tracklist, a playlist
    /// its tracks.
    pub fn expand(&self, id: EntityId) -> (tracks: Result<Vec<TrackRef>>)
        ensures
            match tracks {
                Ok(tracks) => self@.expansion(id) == Ok::<Seq<TrackRefView>, ErrorView>(
                    tracks_view(tracks@),
                ),
                Err(e) => self@.expansion(id) == Err::<Seq<TrackRefView>, ErrorView>(e@),
            },
    {
        let mut ids: Vec<EntityId> = Vec::new();
        match self.kind_of(id) {
            Some(EntityKind::Track) => {
                ids.push(id);
                assert(ids@ =~= seq![id]);
            },
            Some(EntityKind::Album) => {
                let entries = self.tracklist(id);
                let mut i: usize = 0;
                while i < entries.len()
                    invariant
                        i <= entries@.len(),
                        ids@.len() == i,
                        forall|k: int| 0 <= k < i ==> #[trigger] ids@[k] == entries@[k].track,
                    decreases entries.len() - i,
                {
                    ids.push(entries[i].track);
                    i = i + 1;
                }
                assert(ids@ =~= entries@.map_values(|t: AlbumTrack| t.track));
            },
            Some(EntityKind::Playlist) => {
                ids = self.playlist_tracks(id);
            },
            Some(EntityKind::Artist) => {
                return Err(is_not_tracks());
            },
            None => {
                return Err(no_such("entity ", id));
            },
        }
        Ok(self.track_refs(&ids))
    }
}

/// Character order is an order: nothing comes before itself.
proof fn precedes_is_irreflexive(a: Seq<char>)
    ensures
        !precedes(a, a),
    decreases a.len(),
{
    if a.len() > 0 {
        precedes_is_irreflexive(a.skip(1));
    }
}

/// Character order is an order: what comes before what comes before comes before.
proof fn precedes_is_transitive(a: Seq<char>, b: Seq<char>, c: Seq<char>)
    requires
        precedes(a, b),
        precedes(b, c),
    ensures
        precedes(a, c),
    decreases a.len(),
{
    if a.len() > 0 && a[0] == b[0] && b[0] == c[0] {
        precedes_is_transitive(a.skip(1), b.skip(1), c.skip(1));
    }
}

/// Whatever is newer than the newer of two albums is newer than the other, so an older album has
/// at least as many newer than it; and one more where the newer is itself among those counted.
proof fn an_older_album_has_more_newer(albums: Seq<AlbumEntry>, i: int, j: int, n: int)
    requires
        newer(albums[j].album.release_date, albums[i].album.release_date),
    ensures
        newer_count(albums, j, n) <= newer_count(albums, i, n),
        0 <= j < n ==> newer_count(albums, j, n) < newer_count(albums, i, n),
    decreases n,
{
    if n > 0 {
        an_older_album_has_more_newer(albums, i, j, n - 1);
        let date = albums[n - 1].album.release_date;
        let a = albums[i].album.release_date;
        let b = albums[j].album.release_date;
        if newer(date, b) && a is Some {
            precedes_is_transitive(a->0, b->0, date->0);
        }
        if j == n - 1 {
            precedes_is_irreflexive(b->0);
        }
    }
}

proof fn newer_counts_are_small(albums: Seq<AlbumEntry>, i: int, n: int)
    requires
        0 <= n,
    ensures
        0 <= newer_count(albums, i, n) <= n,
    decreases n,
{
    if n > 0 {
        newer_counts_are_small(albums, i, n - 1);
    }
}

proof fn credit_ranks_are_of_the_album(
    albums: Seq<AlbumEntry>,
    artist: EntityId,
    i: int,
    m: int,
    k: int,
)
    requires
        0 <= k < credit_ranks(albums, artist, i, m).len(),
    ensures
        credit_ranks(albums, artist, i, m)[k] == age_rank(albums, i),
    decreases m,
{
    if m > 0 && k < credit_ranks(albums, artist, i, m - 1).len() {
        credit_ranks_are_of_the_album(albums, artist, i, m - 1, k);
    }
}

proof fn discographies_rank_albums(albums: Seq<AlbumEntry>, artist: EntityId, n: int, k: int)
    requires
        0 <= n <= albums.len(),
        0 <= k < discography(albums, artist, n).len(),
    ensures
        exists|i: int|
            0 <= i < n && discography(albums, artist, n)[k] == #[trigger] age_rank(albums, i),
    decreases n,
{
    if n > 0 {
        let before = discography(albums, artist, n - 1);
        if k < before.len() {
            discographies_rank_albums(albums, artist, n - 1, k);
            let i = choose|i: int| 0 <= i < n - 1 && before[k] == #[trigger] age_rank(albums, i);
            assert(discography(albums, artist, n)[k] == age_rank(albums, i));
        } else {
            credit_ranks_are_of_the_album(
                albums,
                artist,
                n - 1,
                albums[n - 1].album.artists.len() as int,
                k - before.len(),
            );
            assert(discography(albums, artist, n)[k] == age_rank(albums, n - 1));
        }
    }
}

/// An artist's albums are listed newest first: none is newer than one listed before it.
pub proof fn albums_are_listed_newest_first(model: StoreModel, artist: EntityId, i: int, j: int)
    requires
        model.albums.len() <= usize::MAX,
        0 <= i < j < model.albums_by(artist).len(),
    ensures
        ({
            let ranks = in_order(discography(model.albums, artist, model.albums.len() as int));
            let a = model.albums[ranks[i].row as int];
            let b = model.albums[ranks[j].row as int];
            &&& model.albums_by(artist)[i] == a.id
            &&& model.albums_by(artist)[j] == b.id
            &&& !newer(b.album.release_date, a.album.release_date)
        }),
{
    broadcast use vstd::seq_lib::group_to_multiset_ensures;

    let all = model.albums;
    let n = all.len() as int;
    let unsorted = discography(all, artist, n);
    let ranks = in_order(unsorted);
    in_order_is_sorted(unsorted);
    let x = ranks[i];
    let y = ranks[j];
    assert(ranks.to_multiset().count(x) > 0 && ranks.to_multiset().count(y) > 0);
    assert(unsorted.contains(x) && unsorted.contains(y));
    let k = choose|k: int| 0 <= k < unsorted.len() && unsorted[k] == x;
    discographies_rank_albums(all, artist, n, k);
    let a = choose|a: int| 0 <= a < n && unsorted[k] == #[trigger] age_rank(all, a);
    let l = choose|l: int| 0 <= l < unsorted.len() && unsorted[l] == y;
    discographies_rank_albums(all, artist, n, l);
    let b = choose|b: int| 0 <= b < n && unsorted[l] == #[trigger] age_rank(all, b);
    newer_counts_are_small(all, a, n);
    newer_counts_are_small(all, b, n);
    if newer(all[b].album.release_date, all[a].album.release_date) {
        an_older_album_has_more_newer(all, a, b, n);
        assert(y.before(x));
    }
}

/// Dates stand in the order of their characters: where two agree at first, the first character
/// they differ in decides, and one that goes on is the later.
pub proof fn dates_stand_in_character_order(a: Seq<char>, b: Seq<char>, same: int)
    requires
        0 <= same <= a.len(),
        same < b.len(),
        forall|k: int| 0 <= k < same ==> #[trigger] a[k] == b[k],
        same < a.len() ==> a[same] < b[same],
    ensures
        precedes(a, b),
        !precedes(b, a),
        newer(Some(b), Some(a)),
        !newer(Some(a), Some(b)),
    decreases same,
{
    if same > 0 {
        let (s, t) = (a.skip(1), b.skip(1));
        assert forall|k: int| 0 <= k < same - 1 implies #[trigger] s[k] == t[k] by {
            assert(s[k] == a[k + 1] && t[k] == b[k + 1]);
        }
        assert(a[0] == b[0]);
        dates_stand_in_character_order(s, t, same - 1);
    }
}

/// What has a date is newer than what has none, and nothing is newer than itself.
pub proof fn what_has_no_date_is_oldest(date: Seq<char>)
    ensures
        newer(Some(date), None),
        !newer(None, Some(date)),
        !newer(None, None),
        !newer(Some(date), Some(date)),
{
    precedes_is_irreflexive(date);
}

proof fn a_credit_ranks_the_album(
    albums: Seq<AlbumEntry>,
    artist: EntityId,
    i: int,
    m: int,
    at: int,
)
    requires
        0 <= at < m,
        albums[i].album.artists[at] == artist,
    ensures
        credit_ranks(albums, artist, i, m).contains(age_rank(albums, i)),
    decreases m,
{
    let all = credit_ranks(albums, artist, i, m);
    let before = credit_ranks(albums, artist, i, m - 1);
    if at == m - 1 {
        assert(all[all.len() - 1] == age_rank(albums, i));
    } else {
        a_credit_ranks_the_album(albums, artist, i, m - 1, at);
        let k = choose|k: int| 0 <= k < before.len() && before[k] == age_rank(albums, i);
        assert(all[k] == age_rank(albums, i));
    }
}

proof fn an_album_credited_is_ranked(
    albums: Seq<AlbumEntry>,
    artist: EntityId,
    n: int,
    i: int,
    at: int,
)
    requires
        0 <= i < n,
        0 <= at < albums[i].album.artists.len(),
        albums[i].album.artists[at] == artist,
    ensures
        discography(albums, artist, n).contains(age_rank(albums, i)),
    decreases n,
{
    let before = discography(albums, artist, n - 1);
    let m = albums[n - 1].album.artists.len() as int;
    let more = credit_ranks(albums, artist, n - 1, m);
    let all = discography(albums, artist, n);
    if i == n - 1 {
        a_credit_ranks_the_album(albums, artist, i, m, at);
        let k = choose|k: int| 0 <= k < more.len() && more[k] == age_rank(albums, i);
        assert(all[before.len() + k] == age_rank(albums, i));
    } else {
        an_album_credited_is_ranked(albums, artist, n - 1, i, at);
        let k = choose|k: int| 0 <= k < before.len() && before[k] == age_rank(albums, i);
        assert(all[k] == age_rank(albums, i));
    }
}

/// Every album that credits an artist is among the artist's albums.
pub proof fn an_album_is_listed_by_whom_it_credits(
    model: StoreModel,
    artist: EntityId,
    i: int,
    at: int,
)
    requires
        model.albums.len() <= usize::MAX,
        0 <= i < model.albums.len(),
        0 <= at < model.albums[i].album.artists.len(),
        model.albums[i].album.artists[at] == artist,
    ensures
        model.albums_by(artist).contains(model.albums[i].id),
{
    let ranks = discography(model.albums, artist, model.albums.len() as int);
    an_album_credited_is_ranked(model.albums, artist, model.albums.len() as int, i, at);
    in_order_holds_the_same(ranks);
    let sorted = in_order(ranks);
    assert(sorted.contains(age_rank(model.albums, i)));
    let k = choose|k: int| 0 <= k < sorted.len() && sorted[k] == age_rank(model.albums, i);
    assert(model.albums_by(artist)[k] == model.albums[i].id);
}

/// Only albums that credit an artist are among the artist's albums.
pub proof fn only_albums_that_credit_an_artist_are_listed(
    model: StoreModel,
    artist: EntityId,
    k: int,
) -> (i: int)
    requires
        model.albums.len() <= usize::MAX,
        0 <= k < model.albums_by(artist).len(),
    ensures
        0 <= i < model.albums.len(),
        model.albums_by(artist)[k] == model.albums[i].id,
        model.albums[i].album.artists.contains(artist),
{
    let ranks = discography(model.albums, artist, model.albums.len() as int);
    in_order_holds_the_same(ranks);
    let sorted = in_order(ranks);
    assert(sorted.contains(sorted[k]));
    let m = choose|m: int| 0 <= m < ranks.len() && ranks[m] == sorted[k];
    discographies_rank_albums(model.albums, artist, model.albums.len() as int, m);
    ranks_are_of_credited_albums(model.albums, artist, model.albums.len() as int, m);
    sorted[k].row as int
}

proof fn credits_are_of_the_artist(
    albums: Seq<AlbumEntry>,
    artist: EntityId,
    i: int,
    m: int,
)
    requires
        0 <= m <= albums[i].album.artists.len(),
        credit_ranks(albums, artist, i, m).len() > 0,
    ensures
        albums[i].album.artists.contains(artist),
    decreases m,
{
    if albums[i].album.artists[m - 1] != artist {
        credits_are_of_the_artist(albums, artist, i, m - 1);
    }
}

proof fn ranks_are_of_credited_albums(albums: Seq<AlbumEntry>, artist: EntityId, n: int, k: int)
    requires
        0 <= n <= albums.len() <= usize::MAX,
        0 <= k < discography(albums, artist, n).len(),
    ensures
        albums[discography(albums, artist, n)[k].row as int].album.artists.contains(artist),
    decreases n,
{
    let before = discography(albums, artist, n - 1);
    let m = albums[n - 1].album.artists.len() as int;
    if k < before.len() {
        ranks_are_of_credited_albums(albums, artist, n - 1, k);
    } else {
        credits_are_of_the_artist(albums, artist, n - 1, m);
        credit_ranks_are_of_the_album(albums, artist, n - 1, m, k - before.len());
    }
}

} // verus!
