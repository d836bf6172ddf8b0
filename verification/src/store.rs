//! [`Store`]: the library's entities in tables, and the rules that keep the tables true.
//!
//! Rows stand in the order they were added. Each operation either does all it says or leaves the
//! tables as they were.

use vstd::prelude::*;
use vstd::string::*;

use crate::error::{Error, ErrorView, Result};
use crate::id::{uuid_text, EntityId, Service};
use crate::model::{
    clone_ids, Album, AlbumModel, AlbumTrack, Artist, ArtistModel, Confidence, EntityKind, Playlist,
    Provenance, Track, TrackModel,
};
use crate::rows::{
    any, first_at, first_at_matches, found_first, found_none, places, without,
};
use crate::text::{concat, same, texts};

verus! {

/// A row of the artists table.
#[derive(Debug, PartialEq, Eq)]
pub struct ArtistRow {
    pub id: EntityId,
    pub artist: Artist,
}

/// What an [`ArtistRow`] says.
pub struct ArtistEntry {
    pub id: EntityId,
    pub artist: ArtistModel,
}

impl View for ArtistRow {
    type V = ArtistEntry;

    open spec fn view(&self) -> ArtistEntry {
        ArtistEntry { id: self.id, artist: self.artist@ }
    }
}

impl Clone for ArtistRow {
    fn clone(&self) -> (copy: Self)
        ensures
            copy@ == self@,
    {
        ArtistRow {
            id: self.id,
            artist: self.artist.clone(),
        }
    }
}

/// A row of the albums table.
#[derive(Debug, PartialEq, Eq)]
pub struct AlbumRow {
    pub id: EntityId,
    pub album: Album,
}

/// What an [`AlbumRow`] says.
pub struct AlbumEntry {
    pub id: EntityId,
    pub album: AlbumModel,
}

impl View for AlbumRow {
    type V = AlbumEntry;

    open spec fn view(&self) -> AlbumEntry {
        AlbumEntry { id: self.id, album: self.album@ }
    }
}

impl Clone for AlbumRow {
    fn clone(&self) -> (copy: Self)
        ensures
            copy@ == self@,
    {
        AlbumRow {
            id: self.id,
            album: self.album.clone(),
        }
    }
}

/// A row of the tracks table. The track's ISRCs have a table of their own.
#[derive(Debug, PartialEq, Eq)]
pub struct TrackRow {
    pub id: EntityId,
    pub title: String,
    pub credit: String,
    pub artists: Vec<EntityId>,
    pub duration_ms: Option<u64>,
    pub mbid: Option<u128>,
}

/// What a [`TrackRow`] says.
#[verifier::ext_equal]
pub struct TrackEntry {
    pub id: EntityId,
    pub title: Seq<char>,
    pub credit: Seq<char>,
    pub artists: Seq<EntityId>,
    pub duration_ms: Option<u64>,
    pub mbid: Option<u128>,
}

impl View for TrackRow {
    type V = TrackEntry;

    open spec fn view(&self) -> TrackEntry {
        TrackEntry {
            id: self.id,
            title: self.title@,
            credit: self.credit@,
            artists: self.artists@,
            duration_ms: self.duration_ms,
            mbid: self.mbid,
        }
    }
}

impl Clone for TrackRow {
    fn clone(&self) -> (copy: Self)
        ensures
            copy@ == self@,
    {
        TrackRow {
            id: self.id,
            title: self.title.clone(),
            credit: self.credit.clone(),
            artists: clone_ids(&self.artists),
            duration_ms: self.duration_ms,
            mbid: self.mbid,
        }
    }
}

/// A track carries an ISRC.
#[derive(Debug, PartialEq, Eq)]
pub struct IsrcRow {
    pub track: EntityId,
    pub isrc: String,
}

/// What an [`IsrcRow`] says.
pub struct IsrcEntry {
    pub track: EntityId,
    pub isrc: Seq<char>,
}

impl View for IsrcRow {
    type V = IsrcEntry;

    open spec fn view(&self) -> IsrcEntry {
        IsrcEntry { track: self.track, isrc: self.isrc@ }
    }
}

impl Clone for IsrcRow {
    fn clone(&self) -> (copy: Self)
        ensures
            copy@ == self@,
    {
        IsrcRow {
            track: self.track,
            isrc: self.isrc.clone(),
        }
    }
}

/// A track sits on an album, at a disc and position.
#[derive(Debug, Clone, Copy, PartialEq, Eq, Structural)]
pub struct Slot {
    pub album: EntityId,
    pub disc: u32,
    pub position: u32,
    pub track: EntityId,
}

/// A service's key names an entity of a kind.
#[derive(Debug, PartialEq, Eq)]
pub struct BindingRow {
    pub kind: EntityKind,
    pub service: Service,
    pub key: String,
    pub entity: EntityId,
    pub provenance: Provenance,
    pub confidence: Confidence,
    /// Milliseconds since the Unix epoch.
    pub created_at: i64,
}

/// What a [`BindingRow`] says.
pub struct BindingEntry {
    pub kind: EntityKind,
    pub service: Service,
    pub key: Seq<char>,
    pub entity: EntityId,
    pub provenance: Provenance,
    pub confidence: Confidence,
    pub created_at: i64,
}

impl View for BindingRow {
    type V = BindingEntry;

    open spec fn view(&self) -> BindingEntry {
        BindingEntry {
            kind: self.kind,
            service: self.service,
            key: self.key@,
            entity: self.entity,
            provenance: self.provenance,
            confidence: self.confidence,
            created_at: self.created_at,
        }
    }
}

impl Clone for BindingRow {
    fn clone(&self) -> (copy: Self)
        ensures
            copy@ == self@,
    {
        BindingRow {
            kind: self.kind,
            service: self.service,
            key: self.key.clone(),
            entity: self.entity,
            provenance: self.provenance,
            confidence: self.confidence,
            created_at: self.created_at,
        }
    }
}

/// An entity is in the user's library.
#[derive(Debug, Clone, Copy, PartialEq, Eq, Structural)]
pub struct SavedRow {
    pub entity: EntityId,
    pub kind: EntityKind,
    /// Milliseconds since the Unix epoch.
    pub saved_at: i64,
}

/// A row of the playlists table.
#[derive(Debug, PartialEq, Eq)]
pub struct PlaylistRow {
    pub id: EntityId,
    pub name: String,
    /// Milliseconds since the Unix epoch.
    pub created_at: i64,
    pub updated_at: i64,
    pub tracks: Vec<EntityId>,
}

/// What a [`PlaylistRow`] says.
#[verifier::ext_equal]
pub struct PlaylistEntry {
    pub id: EntityId,
    pub name: Seq<char>,
    pub created_at: i64,
    pub updated_at: i64,
    pub tracks: Seq<EntityId>,
}

impl View for PlaylistRow {
    type V = PlaylistEntry;

    open spec fn view(&self) -> PlaylistEntry {
        PlaylistEntry {
            id: self.id,
            name: self.name@,
            created_at: self.created_at,
            updated_at: self.updated_at,
            tracks: self.tracks@,
        }
    }
}

impl Clone for PlaylistRow {
    fn clone(&self) -> (copy: Self)
        ensures
            copy@ == self@,
    {
        PlaylistRow {
            id: self.id,
            name: self.name.clone(),
            created_at: self.created_at,
            updated_at: self.updated_at,
            tracks: clone_ids(&self.tracks),
        }
    }
}

/// The library's tables.
#[derive(Debug, PartialEq, Eq)]
pub struct Store {
    pub artists: Vec<ArtistRow>,
    pub albums: Vec<AlbumRow>,
    pub tracks: Vec<TrackRow>,
    pub isrcs: Vec<IsrcRow>,
    pub slots: Vec<Slot>,
    pub bindings: Vec<BindingRow>,
    pub saved: Vec<SavedRow>,
    pub playlists: Vec<PlaylistRow>,
}

/// What a [`Store`] holds.
#[verifier::ext_equal]
pub struct StoreModel {
    pub artists: Seq<ArtistEntry>,
    pub albums: Seq<AlbumEntry>,
    pub tracks: Seq<TrackEntry>,
    pub isrcs: Seq<IsrcEntry>,
    pub slots: Seq<Slot>,
    pub bindings: Seq<BindingEntry>,
    pub saved: Seq<SavedRow>,
    pub playlists: Seq<PlaylistEntry>,
}

pub open spec fn artist_entries(rows: Seq<ArtistRow>) -> Seq<ArtistEntry> {
    rows.map_values(|r: ArtistRow| r@)
}

pub open spec fn album_entries(rows: Seq<AlbumRow>) -> Seq<AlbumEntry> {
    rows.map_values(|r: AlbumRow| r@)
}

pub open spec fn track_entries(rows: Seq<TrackRow>) -> Seq<TrackEntry> {
    rows.map_values(|r: TrackRow| r@)
}

pub open spec fn isrc_entries(rows: Seq<IsrcRow>) -> Seq<IsrcEntry> {
    rows.map_values(|r: IsrcRow| r@)
}

pub open spec fn binding_entries(rows: Seq<BindingRow>) -> Seq<BindingEntry> {
    rows.map_values(|r: BindingRow| r@)
}

pub open spec fn playlist_entries(rows: Seq<PlaylistRow>) -> Seq<PlaylistEntry> {
    rows.map_values(|r: PlaylistRow| r@)
}

impl View for Store {
    type V = StoreModel;

    open spec fn view(&self) -> StoreModel {
        StoreModel {
            artists: artist_entries(self.artists@),
            albums: album_entries(self.albums@),
            tracks: track_entries(self.tracks@),
            isrcs: isrc_entries(self.isrcs@),
            slots: self.slots@,
            bindings: binding_entries(self.bindings@),
            saved: self.saved@,
            playlists: playlist_entries(self.playlists@),
        }
    }
}

// --- what rows are looked up by ---

pub open spec fn artist_is(id: EntityId) -> spec_fn(ArtistEntry) -> bool {
    |r: ArtistEntry| r.id == id
}

pub open spec fn album_is(id: EntityId) -> spec_fn(AlbumEntry) -> bool {
    |r: AlbumEntry| r.id == id
}

pub open spec fn track_is(id: EntityId) -> spec_fn(TrackEntry) -> bool {
    |r: TrackEntry| r.id == id
}

pub open spec fn playlist_is(id: EntityId) -> spec_fn(PlaylistEntry) -> bool {
    |r: PlaylistEntry| r.id == id
}

pub open spec fn artist_has_mbid(mbid: u128) -> spec_fn(ArtistEntry) -> bool {
    |r: ArtistEntry| r.artist.mbid == Some(mbid)
}

pub open spec fn album_has_mbid(mbid: u128) -> spec_fn(AlbumEntry) -> bool {
    |r: AlbumEntry| r.album.mbid == Some(mbid)
}

pub open spec fn track_has_mbid(mbid: u128) -> spec_fn(TrackEntry) -> bool {
    |r: TrackEntry| r.mbid == Some(mbid)
}

pub open spec fn binding_is(
    kind: EntityKind,
    service: Service,
    key: Seq<char>,
) -> spec_fn(BindingEntry) -> bool {
    |r: BindingEntry| r.kind == kind && r.service == service && r.key == key
}

pub open spec fn saved_is(id: EntityId) -> spec_fn(SavedRow) -> bool {
    |r: SavedRow| r.entity == id
}

impl StoreModel {
    /// Where the artist `id` is.
    pub open spec fn artist_at(self, id: EntityId) -> Option<int> {
        first_at(self.artists, artist_is(id))
    }

    pub open spec fn album_at(self, id: EntityId) -> Option<int> {
        first_at(self.albums, album_is(id))
    }

    pub open spec fn track_at(self, id: EntityId) -> Option<int> {
        first_at(self.tracks, track_is(id))
    }

    pub open spec fn playlist_at(self, id: EntityId) -> Option<int> {
        first_at(self.playlists, playlist_is(id))
    }

    pub open spec fn saved_at(self, id: EntityId) -> Option<int> {
        first_at(self.saved, saved_is(id))
    }

    /// Which kind of entity `id` is, if it is one.
    pub open spec fn kind_of(self, id: EntityId) -> Option<EntityKind> {
        if self.track_at(id) is Some {
            Some(EntityKind::Track)
        } else if self.album_at(id) is Some {
            Some(EntityKind::Album)
        } else if self.artist_at(id) is Some {
            Some(EntityKind::Artist)
        } else if self.playlist_at(id) is Some {
            Some(EntityKind::Playlist)
        } else {
            None
        }
    }

    /// No entity has `id`.
    pub open spec fn unused(self, id: EntityId) -> bool {
        self.kind_of(id) is None
    }

    /// Every one of `ids` is an artist.
    pub open spec fn are_artists(self, ids: Seq<EntityId>) -> bool {
        forall|k: int| 0 <= k < ids.len() ==> self.artist_at(#[trigger] ids[k]) is Some
    }

    /// Every one of `ids` is a track.
    pub open spec fn are_tracks(self, ids: Seq<EntityId>) -> bool {
        forall|k: int| 0 <= k < ids.len() ==> self.track_at(#[trigger] ids[k]) is Some
    }
}

/// The entity an id could not be found as.
pub open spec fn not_found(what: Seq<char>, id: EntityId) -> ErrorView {
    ErrorView::NotFound(what + uuid_text(id.0))
}

/// `what` and the id that names no such thing.
pub fn no_such(what: &str, id: EntityId) -> (e: Error)
    ensures
        e@ == not_found(what@, id),
{
    let shown = id.text();
    Error::NotFound(concat(what, shown.as_str()))
}

/// A second row would have the same `column`.
pub open spec fn taken(column: Seq<char>) -> ErrorView {
    ErrorView::Library("UNIQUE constraint failed: "@ + column)
}

pub fn already_taken(column: &str) -> (e: Error)
    ensures
        e@ == taken(column@),
{
    Error::Library(concat("UNIQUE constraint failed: ", column))
}

/// A row would name an entity that does not exist.
pub open spec fn dangling() -> ErrorView {
    ErrorView::Library("FOREIGN KEY constraint failed"@)
}

pub fn names_nothing() -> (e: Error)
    ensures
        e@ == dangling(),
{
    Error::Library("FOREIGN KEY constraint failed".to_owned())
}

impl Store {
    /// An empty library.
    pub fn open_in_memory() -> (store: Store)
        ensures
            store@ == (StoreModel {
                artists: Seq::empty(),
                albums: Seq::empty(),
                tracks: Seq::empty(),
                isrcs: Seq::empty(),
                slots: Seq::empty(),
                bindings: Seq::empty(),
                saved: Seq::empty(),
                playlists: Seq::empty(),
            }),
    {
        let store = Store {
            artists: Vec::new(),
            albums: Vec::new(),
            tracks: Vec::new(),
            isrcs: Vec::new(),
            slots: Vec::new(),
            bindings: Vec::new(),
            saved: Vec::new(),
            playlists: Vec::new(),
        };
        assert(store@.artists =~= Seq::empty());
        assert(store@.albums =~= Seq::empty());
        assert(store@.tracks =~= Seq::empty());
        assert(store@.isrcs =~= Seq::empty());
        assert(store@.bindings =~= Seq::empty());
        assert(store@.playlists =~= Seq::empty());
        store
    }

    /// A copy of the tables.
    pub fn copy(&self) -> (copy: Store)
        ensures
            copy@ == self@,
    {
        let copy = Store {
            artists: self.artists.clone(),
            albums: self.albums.clone(),
            tracks: self.tracks.clone(),
            isrcs: self.isrcs.clone(),
            slots: self.slots.clone(),
            bindings: self.bindings.clone(),
            saved: self.saved.clone(),
            playlists: self.playlists.clone(),
        };
        assert(copy@.artists =~= self@.artists) by {
            assert forall|i: int| 0 <= i < self.artists@.len() implies copy.artists@[i]@
                == self.artists@[i]@ by {
                assert(cloned::<ArtistRow>(self.artists@[i], copy.artists@[i]));
            }
        }
        assert(copy@.albums =~= self@.albums) by {
            assert forall|i: int| 0 <= i < self.albums@.len() implies copy.albums@[i]@
                == self.albums@[i]@ by {
                assert(cloned::<AlbumRow>(self.albums@[i], copy.albums@[i]));
            }
        }
        assert(copy@.tracks =~= self@.tracks) by {
            assert forall|i: int| 0 <= i < self.tracks@.len() implies copy.tracks@[i]@
                == self.tracks@[i]@ by {
                assert(cloned::<TrackRow>(self.tracks@[i], copy.tracks@[i]));
            }
        }
        assert(copy@.isrcs =~= self@.isrcs) by {
            assert forall|i: int| 0 <= i < self.isrcs@.len() implies copy.isrcs@[i]@
                == self.isrcs@[i]@ by {
                assert(cloned::<IsrcRow>(self.isrcs@[i], copy.isrcs@[i]));
            }
        }
        assert(copy@.bindings =~= self@.bindings) by {
            assert forall|i: int| 0 <= i < self.bindings@.len() implies copy.bindings@[i]@
                == self.bindings@[i]@ by {
                assert(cloned::<BindingRow>(self.bindings@[i], copy.bindings@[i]));
            }
        }
        assert(copy@.playlists =~= self@.playlists) by {
            assert forall|i: int| 0 <= i < self.playlists@.len() implies copy.playlists@[i]@
                == self.playlists@[i]@ by {
                assert(cloned::<PlaylistRow>(self.playlists@[i], copy.playlists@[i]));
            }
        }
        assert(copy@.slots =~= self@.slots) by {
            assert forall|i: int| 0 <= i < self.slots@.len() implies copy.slots@[i] == self.slots@[i] by {
                assert(cloned::<Slot>(self.slots@[i], copy.slots@[i]));
            }
        }
        assert(copy@.saved =~= self@.saved) by {
            assert forall|i: int| 0 <= i < self.saved@.len() implies copy.saved@[i] == self.saved@[i] by {
                assert(cloned::<SavedRow>(self.saved@[i], copy.saved@[i]));
            }
        }
        copy
    }

    // --- finding rows ---

    /// Where the artist `id` is.
    pub fn find_artist(&self, id: EntityId) -> (at: Option<usize>)
        ensures
            match at {
                Some(i) => self@.artist_at(id) == Some(i as int) && i < self.artists@.len(),
                None => self@.artist_at(id) is None,
            },
    {
        let ghost p = artist_is(id);
        let mut i: usize = 0;
        while i < self.artists.len()
            invariant
                i <= self.artists.len(),
                p == artist_is(id),
                forall|j: int| 0 <= j < i ==> !p(#[trigger] self@.artists[j]),
            decreases self.artists.len() - i,
        {
            assert(self@.artists[i as int] == self.artists@[i as int]@);
            if self.artists[i].id.0 == id.0 {
                proof {
                    found_first(self@.artists, p, i as int);
                }
                return Some(i);
            }
            i = i + 1;
        }
        proof {
            found_none(self@.artists, p);
        }
        None
    }

    /// Where the album `id` is.
    pub fn find_album(&self, id: EntityId) -> (at: Option<usize>)
        ensures
            match at {
                Some(i) => self@.album_at(id) == Some(i as int) && i < self.albums@.len(),
                None => self@.album_at(id) is None,
            },
    {
        let ghost p = album_is(id);
        let mut i: usize = 0;
        while i < self.albums.len()
            invariant
                i <= self.albums.len(),
                p == album_is(id),
                forall|j: int| 0 <= j < i ==> !p(#[trigger] self@.albums[j]),
            decreases self.albums.len() - i,
        {
            assert(self@.albums[i as int] == self.albums@[i as int]@);
            if self.albums[i].id.0 == id.0 {
                proof {
                    found_first(self@.albums, p, i as int);
                }
                return Some(i);
            }
            i = i + 1;
        }
        proof {
            found_none(self@.albums, p);
        }
        None
    }

    /// Where the track `id` is.
    pub fn find_track(&self, id: EntityId) -> (at: Option<usize>)
        ensures
            match at {
                Some(i) => self@.track_at(id) == Some(i as int) && i < self.tracks@.len(),
                None => self@.track_at(id) is None,
            },
    {
        let ghost p = track_is(id);
        let mut i: usize = 0;
        while i < self.tracks.len()
            invariant
                i <= self.tracks.len(),
                p == track_is(id),
                forall|j: int| 0 <= j < i ==> !p(#[trigger] self@.tracks[j]),
            decreases self.tracks.len() - i,
        {
            assert(self@.tracks[i as int] == self.tracks@[i as int]@);
            if self.tracks[i].id.0 == id.0 {
                proof {
                    found_first(self@.tracks, p, i as int);
                }
                return Some(i);
            }
            i = i + 1;
        }
        proof {
            found_none(self@.tracks, p);
        }
        None
    }

    /// Where the playlist `id` is.
    pub fn find_playlist(&self, id: EntityId) -> (at: Option<usize>)
        ensures
            match at {
                Some(i) => self@.playlist_at(id) == Some(i as int) && i < self.playlists@.len(),
                None => self@.playlist_at(id) is None,
            },
    {
        let ghost p = playlist_is(id);
        let mut i: usize = 0;
        while i < self.playlists.len()
            invariant
                i <= self.playlists.len(),
                p == playlist_is(id),
                forall|j: int| 0 <= j < i ==> !p(#[trigger] self@.playlists[j]),
            decreases self.playlists.len() - i,
        {
            assert(self@.playlists[i as int] == self.playlists@[i as int]@);
            if self.playlists[i].id.0 == id.0 {
                proof {
                    found_first(self@.playlists, p, i as int);
                }
                return Some(i);
            }
            i = i + 1;
        }
        proof {
            found_none(self@.playlists, p);
        }
        None
    }

    /// Where the saved row of `id` is.
    pub fn find_saved(&self, id: EntityId) -> (at: Option<usize>)
        ensures
            match at {
                Some(i) => self@.saved_at(id) == Some(i as int) && i < self.saved@.len(),
                None => self@.saved_at(id) is None,
            },
    {
        let ghost p = saved_is(id);
        let mut i: usize = 0;
        while i < self.saved.len()
            invariant
                i <= self.saved.len(),
                p == saved_is(id),
                forall|j: int| 0 <= j < i ==> !p(#[trigger] self@.saved[j]),
            decreases self.saved.len() - i,
        {
            if self.saved[i].entity.0 == id.0 {
                proof {
                    found_first(self@.saved, p, i as int);
                }
                return Some(i);
            }
            i = i + 1;
        }
        proof {
            found_none(self@.saved, p);
        }
        None
    }

    /// Which kind of entity `id` is, if it is one.
    pub fn kind_of(&self, id: EntityId) -> (kind: Option<EntityKind>)
        ensures
            kind == self@.kind_of(id),
    {
        if self.find_track(id).is_some() {
            Some(EntityKind::Track)
        } else if self.find_album(id).is_some() {
            Some(EntityKind::Album)
        } else if self.find_artist(id).is_some() {
            Some(EntityKind::Artist)
        } else if self.find_playlist(id).is_some() {
            Some(EntityKind::Playlist)
        } else {
            None
        }
    }

    /// Whether every one of `ids` is an artist.
    pub fn all_artists(&self, ids: &Vec<EntityId>) -> (r: bool)
        ensures
            r == self@.are_artists(ids@),
    {
        let mut i: usize = 0;
        while i < ids.len()
            invariant
                i <= ids.len(),
                forall|k: int| 0 <= k < i ==> self@.artist_at(#[trigger] ids@[k]) is Some,
            decreases ids.len() - i,
        {
            if self.find_artist(ids[i]).is_none() {
                assert(self@.artist_at(ids@[i as int]) is None);
                return false;
            }
            i = i + 1;
        }
        true
    }

    /// Whether every one of `ids` is a track.
    pub fn all_tracks(&self, ids: &Vec<EntityId>) -> (r: bool)
        ensures
            r == self@.are_tracks(ids@),
    {
        let mut i: usize = 0;
        while i < ids.len()
            invariant
                i <= ids.len(),
                forall|k: int| 0 <= k < i ==> self@.track_at(#[trigger] ids@[k]) is Some,
            decreases ids.len() - i,
        {
            if self.find_track(ids[i]).is_none() {
                assert(self@.track_at(ids@[i as int]) is None);
                return false;
            }
            i = i + 1;
        }
        true
    }
}

// --- entities ---

/// The duration as the tables hold it: one that a signed count can hold, or none.
pub open spec fn kept_duration(duration_ms: Option<u64>) -> Option<u64> {
    match duration_ms {
        Some(ms) => if ms <= i64::MAX {
            Some(ms)
        } else {
            None
        },
        None => None,
    }
}

pub open spec fn isrc_is(track: EntityId, isrc: Seq<char>) -> spec_fn(IsrcEntry) -> bool {
    |r: IsrcEntry| r.track == track && r.isrc == isrc
}

pub open spec fn isrc_of(track: EntityId) -> spec_fn(IsrcEntry) -> bool {
    |r: IsrcEntry| r.track == track
}

pub open spec fn carries(isrc: Seq<char>) -> spec_fn(IsrcEntry) -> bool {
    |r: IsrcEntry| r.isrc == isrc
}

/// `rows` after `track` is said to carry each of `isrcs`; what it carries already is not added
/// again.
pub open spec fn with_isrcs(
    rows: Seq<IsrcEntry>,
    track: EntityId,
    isrcs: Seq<Seq<char>>,
) -> Seq<IsrcEntry>
    decreases isrcs.len(),
{
    if isrcs.len() == 0 {
        rows
    } else {
        let before = with_isrcs(rows, track, isrcs.drop_last());
        if any(before, isrc_is(track, isrcs.last())) {
            before
        } else {
            before.push(IsrcEntry { track, isrc: isrcs.last() })
        }
    }
}

/// A track as a row.
pub open spec fn track_entry(id: EntityId, track: TrackModel) -> TrackEntry {
    TrackEntry {
        id,
        title: track.title,
        credit: track.credit,
        artists: track.artists,
        duration_ms: kept_duration(track.duration_ms),
        mbid: track.mbid,
    }
}

pub open spec fn barcode_is(barcode: Seq<char>) -> spec_fn(AlbumEntry) -> bool {
    |r: AlbumEntry| r.album.barcode == Some(barcode)
}

pub open spec fn slot_of(album: EntityId) -> spec_fn(Slot) -> bool {
    |s: Slot| s.album == album
}

pub open spec fn slot_is(album: EntityId, disc: u32, position: u32) -> spec_fn(Slot) -> bool {
    |s: Slot| s.album == album && s.disc == disc && s.position == position
}

/// An entry of a tracklist as a row.
pub open spec fn slot_entry(album: EntityId, entry: AlbumTrack) -> Slot {
    Slot { album, disc: entry.disc, position: entry.position, track: entry.track }
}

/// Two entries of a tracklist share a slot.
pub open spec fn same_slot(a: AlbumTrack, b: AlbumTrack) -> bool {
    a.disc == b.disc && a.position == b.position
}

impl StoreModel {
    /// Another row than `except` has the track id `mbid`.
    pub open spec fn track_mbid_taken(self, mbid: Option<u128>, except: Option<int>) -> bool {
        mbid is Some && exists|i: int|
            0 <= i < self.tracks.len() && Some(i) != except && (#[trigger] self.tracks[i]).mbid
                == mbid
    }

    /// Another row than `except` has the album id `mbid`.
    pub open spec fn album_mbid_taken(self, mbid: Option<u128>, except: Option<int>) -> bool {
        mbid is Some && exists|i: int|
            0 <= i < self.albums.len() && Some(i) != except
                && (#[trigger] self.albums[i]).album.mbid == mbid
    }

    /// Some artist has the id `mbid`.
    pub open spec fn artist_mbid_taken(self, mbid: Option<u128>) -> bool {
        mbid is Some && any(self.artists, artist_has_mbid(mbid->0))
    }

    /// Why `artist` cannot be added as `id`, if it cannot.
    pub open spec fn artist_refusal(self, id: EntityId, artist: ArtistModel) -> Option<ErrorView> {
        if !self.unused(id) {
            Some(taken("artists.id"@))
        } else if self.artist_mbid_taken(artist.mbid) {
            Some(taken("artists.mbid"@))
        } else {
            None
        }
    }

    /// The tables with `artist` added as `id`.
    pub open spec fn with_artist(self, id: EntityId, artist: ArtistModel) -> StoreModel {
        StoreModel { artists: self.artists.push(ArtistEntry { id, artist }), ..self }
    }

    /// What is known about the artist `id`.
    pub open spec fn artist(self, id: EntityId) -> Option<ArtistModel> {
        match self.artist_at(id) {
            Some(i) => Some(self.artists[i].artist),
            None => None,
        }
    }

    /// Why `track` cannot be added as `id`, if it cannot.
    pub open spec fn track_refusal(self, id: EntityId, track: TrackModel) -> Option<ErrorView> {
        if !self.unused(id) {
            Some(taken("tracks.id"@))
        } else if self.track_mbid_taken(track.mbid, None) {
            Some(taken("tracks.mbid"@))
        } else if !self.are_artists(track.artists) {
            Some(dangling())
        } else {
            None
        }
    }

    /// The tables with `track` added as `id`.
    pub open spec fn with_track(self, id: EntityId, track: TrackModel) -> StoreModel {
        StoreModel {
            tracks: self.tracks.push(track_entry(id, track)),
            isrcs: with_isrcs(self.isrcs, id, track.isrcs),
            ..self
        }
    }

    /// Why the track `id` cannot be replaced by `track`, if it cannot.
    pub open spec fn track_update_refusal(
        self,
        id: EntityId,
        track: TrackModel,
    ) -> Option<ErrorView> {
        if self.track_at(id) is None {
            Some(not_found("track "@, id))
        } else if self.track_mbid_taken(track.mbid, self.track_at(id)) {
            Some(taken("tracks.mbid"@))
        } else if !self.are_artists(track.artists) {
            Some(dangling())
        } else {
            None
        }
    }

    /// The tables with everything known about the track `id` replaced.
    pub open spec fn with_track_updated(self, id: EntityId, track: TrackModel) -> StoreModel {
        StoreModel {
            tracks: self.tracks.update(self.track_at(id)->0, track_entry(id, track)),
            isrcs: with_isrcs(without(self.isrcs, isrc_of(id)), id, track.isrcs),
            ..self
        }
    }

    /// The ISRCs the track `id` carries, in the order they were added.
    pub open spec fn isrcs_of(self, id: EntityId) -> Seq<Seq<char>> {
        places(self.isrcs, isrc_of(id), self.isrcs.len() as int).map_values(
            |i: int| self.isrcs[i].isrc,
        )
    }

    /// What is known about the track `id`.
    pub open spec fn track(self, id: EntityId) -> Option<TrackModel> {
        match self.track_at(id) {
            Some(i) => Some(
                TrackModel {
                    title: self.tracks[i].title,
                    credit: self.tracks[i].credit,
                    artists: self.tracks[i].artists,
                    duration_ms: self.tracks[i].duration_ms,
                    isrcs: self.isrcs_of(id),
                    mbid: self.tracks[i].mbid,
                },
            ),
            None => None,
        }
    }

    /// Every track carrying `isrc`, in the order they came to carry it.
    pub open spec fn tracks_with_isrc(self, isrc: Seq<char>) -> Seq<EntityId> {
        places(self.isrcs, carries(isrc), self.isrcs.len() as int).map_values(
            |i: int| self.isrcs[i].track,
        )
    }

    /// Why `album` cannot be added as `id`, if it cannot.
    pub open spec fn album_refusal(self, id: EntityId, album: AlbumModel) -> Option<ErrorView> {
        if !self.unused(id) {
            Some(taken("albums.id"@))
        } else if self.album_mbid_taken(album.mbid, None) {
            Some(taken("albums.mbid"@))
        } else if !self.are_artists(album.artists) {
            Some(dangling())
        } else {
            None
        }
    }

    /// The tables with `album` added as `id`.
    pub open spec fn with_album(self, id: EntityId, album: AlbumModel) -> StoreModel {
        StoreModel { albums: self.albums.push(AlbumEntry { id, album }), ..self }
    }

    /// Why the album `id` cannot be replaced by `album`, if it cannot.
    pub open spec fn album_update_refusal(
        self,
        id: EntityId,
        album: AlbumModel,
    ) -> Option<ErrorView> {
        if self.album_at(id) is None {
            Some(not_found("album "@, id))
        } else if self.album_mbid_taken(album.mbid, self.album_at(id)) {
            Some(taken("albums.mbid"@))
        } else if !self.are_artists(album.artists) {
            Some(dangling())
        } else {
            None
        }
    }

    /// The tables with everything known about the album `id` replaced (its tracklist aside).
    pub open spec fn with_album_updated(self, id: EntityId, album: AlbumModel) -> StoreModel {
        StoreModel {
            albums: self.albums.update(self.album_at(id)->0, AlbumEntry { id, album }),
            ..self
        }
    }

    /// What is known about the album `id`.
    pub open spec fn album(self, id: EntityId) -> Option<AlbumModel> {
        match self.album_at(id) {
            Some(i) => Some(self.albums[i].album),
            None => None,
        }
    }

    /// Every album with this barcode, in the order they were added.
    pub open spec fn albums_with_barcode(self, barcode: Seq<char>) -> Seq<EntityId> {
        places(self.albums, barcode_is(barcode), self.albums.len() as int).map_values(
            |i: int| self.albums[i].id,
        )
    }

    /// The entity of `kind` with this MusicBrainz id.
    pub open spec fn by_mbid(self, kind: EntityKind, mbid: u128) -> Option<EntityId> {
        match kind {
            EntityKind::Track => match first_at(self.tracks, track_has_mbid(mbid)) {
                Some(i) => Some(self.tracks[i].id),
                None => None,
            },
            EntityKind::Album => match first_at(self.albums, album_has_mbid(mbid)) {
                Some(i) => Some(self.albums[i].id),
                None => None,
            },
            EntityKind::Artist => match first_at(self.artists, artist_has_mbid(mbid)) {
                Some(i) => Some(self.artists[i].id),
                None => None,
            },
            EntityKind::Playlist => None,
        }
    }
}

/// The duration as the tables hold it.
pub fn millis(duration_ms: Option<u64>) -> (ms: Option<i64>)
    ensures
        match ms {
            Some(count) => 0 <= count && kept_duration(duration_ms) == Some(count as u64),
            None => kept_duration(duration_ms) is None,
        },
{
    match duration_ms {
        Some(ms) => if ms <= i64::MAX as u64 {
            Some(ms as i64)
        } else {
            None
        },
        None => None,
    }
}

/// A track as a row.
fn track_row(id: EntityId, track: &Track) -> (row: TrackRow)
    ensures
        row@ == track_entry(id, track@),
{
    TrackRow {
        id,
        title: track.title.clone(),
        credit: track.credit.clone(),
        artists: clone_ids(&track.artists),
        duration_ms: match millis(track.duration_ms) {
            Some(ms) => Some(ms as u64),
            None => None,
        },
        mbid: track.mbid,
    }
}

impl Store {
    /// Whether another row than `except` has the track id `mbid`.
    fn track_mbid_taken(&self, mbid: Option<u128>, except: Option<usize>) -> (r: bool)
        ensures
            r == self@.track_mbid_taken(
                mbid,
                match except {
                    Some(i) => Some(i as int),
                    None => None,
                },
            ),
    {
        if mbid.is_none() {
            return false;
        }
        let ghost skip = match except {
            Some(i) => Some(i as int),
            None => None,
        };
        let mut i: usize = 0;
        while i < self.tracks.len()
            invariant
                i <= self.tracks.len(),
                mbid is Some,
                skip == match except {
                    Some(i) => Some(i as int),
                    None => None,
                },
                forall|j: int|
                    0 <= j < i ==> Some(j) == skip || (#[trigger] self@.tracks[j]).mbid != mbid,
            decreases self.tracks.len() - i,
        {
            assert(self@.tracks[i as int].mbid == self.tracks@[i as int].mbid);
            let skipped: bool = match except {
                Some(e) => e == i,
                None => false,
            };
            if !skipped && same_mbid(self.tracks[i].mbid, mbid) {
                return true;
            }
            i = i + 1;
        }
        false
    }

    /// Whether another row than `except` has the album id `mbid`.
    fn album_mbid_taken(&self, mbid: Option<u128>, except: Option<usize>) -> (r: bool)
        ensures
            r == self@.album_mbid_taken(
                mbid,
                match except {
                    Some(i) => Some(i as int),
                    None => None,
                },
            ),
    {
        if mbid.is_none() {
            return false;
        }
        let ghost skip = match except {
            Some(i) => Some(i as int),
            None => None,
        };
        let mut i: usize = 0;
        while i < self.albums.len()
            invariant
                i <= self.albums.len(),
                mbid is Some,
                skip == match except {
                    Some(i) => Some(i as int),
                    None => None,
                },
                forall|j: int|
                    0 <= j < i ==> Some(j) == skip || (#[trigger] self@.albums[j]).album.mbid
                        != mbid,
            decreases self.albums.len() - i,
        {
            assert(self@.albums[i as int].album.mbid == self.albums@[i as int].album.mbid);
            let skipped: bool = match except {
                Some(e) => e == i,
                None => false,
            };
            if !skipped && same_mbid(self.albums[i].album.mbid, mbid) {
                return true;
            }
            i = i + 1;
        }
        false
    }

    /// The entity of `kind` with this MusicBrainz id.
    pub fn by_mbid(&self, kind: EntityKind, mbid: u128) -> (id: Option<EntityId>)
        ensures
            id == self@.by_mbid(kind, mbid),
    {
        match kind {
            EntityKind::Track => {
                let ghost p = track_has_mbid(mbid);
                let mut i: usize = 0;
                while i < self.tracks.len()
                    invariant
                        i <= self.tracks.len(),
                        kind == EntityKind::Track,
                        p == track_has_mbid(mbid),
                        forall|j: int| 0 <= j < i ==> !p(#[trigger] self@.tracks[j]),
                    decreases self.tracks.len() - i,
                {
                    assert(self@.tracks[i as int] == self.tracks@[i as int]@);
                    if same_mbid(self.tracks[i].mbid, Some(mbid)) {
                        proof {
                            found_first(self@.tracks, p, i as int);
                        }
                        return Some(self.tracks[i].id);
                    }
                    i = i + 1;
                }
                proof {
                    found_none(self@.tracks, p);
                }
                None
            },
            EntityKind::Album => {
                let ghost p = album_has_mbid(mbid);
                let mut i: usize = 0;
                while i < self.albums.len()
                    invariant
                        i <= self.albums.len(),
                        kind == EntityKind::Album,
                        p == album_has_mbid(mbid),
                        forall|j: int| 0 <= j < i ==> !p(#[trigger] self@.albums[j]),
                    decreases self.albums.len() - i,
                {
                    assert(self@.albums[i as int] == self.albums@[i as int]@);
                    if same_mbid(self.albums[i].album.mbid, Some(mbid)) {
                        proof {
                            found_first(self@.albums, p, i as int);
                        }
                        return Some(self.albums[i].id);
                    }
                    i = i + 1;
                }
                proof {
                    found_none(self@.albums, p);
                }
                None
            },
            EntityKind::Artist => self.artist_with_mbid(mbid),
            EntityKind::Playlist => None,
        }
    }

    fn artist_with_mbid(&self, mbid: u128) -> (id: Option<EntityId>)
        ensures
            id == self@.by_mbid(EntityKind::Artist, mbid),
            id is Some <==> self@.artist_mbid_taken(Some(mbid)),
    {
        let ghost p = artist_has_mbid(mbid);
        let mut i: usize = 0;
        while i < self.artists.len()
            invariant
                i <= self.artists.len(),
                p == artist_has_mbid(mbid),
                forall|j: int| 0 <= j < i ==> !p(#[trigger] self@.artists[j]),
            decreases self.artists.len() - i,
        {
            assert(self@.artists[i as int] == self.artists@[i as int]@);
            if same_mbid(self.artists[i].artist.mbid, Some(mbid)) {
                proof {
                    found_first(self@.artists, p, i as int);
                }
                return Some(self.artists[i].id);
            }
            i = i + 1;
        }
        proof {
            found_none(self@.artists, p);
        }
        None
    }

    // --- artists ---

    /// Add an artist under the identifier `id`.
    pub fn insert_artist(&mut self, id: EntityId, artist: &Artist) -> (done: Result<()>)
        ensures
            match done {
                Ok(_) => old(self)@.artist_refusal(id, artist@) is None && final(self)@
                    == old(self)@.with_artist(id, artist@),
                Err(e) => old(self)@.artist_refusal(id, artist@) == Some(e@) && final(self)@
                    == old(self)@,
            },
    {
        if self.kind_of(id).is_some() {
            return Err(already_taken("artists.id"));
        }
        if let Some(mbid) = artist.mbid {
            if self.artist_with_mbid(mbid).is_some() {
                return Err(already_taken("artists.mbid"));
            }
        }
        self.artists.push(ArtistRow { id, artist: artist.clone() });
        assert(self@.artists =~= old(self)@.artists.push(ArtistEntry { id, artist: artist@ }));
        Ok(())
    }

    /// Add an artist, returning its new id.
    pub fn add_artist(&mut self, artist: &Artist) -> (added: Result<EntityId>)
        ensures
            match added {
                Ok(id) => old(self)@.artist_refusal(id, artist@) is None && final(self)@
                    == old(self)@.with_artist(id, artist@),
                Err(e) => final(self)@ == old(self)@ && exists|id: EntityId| #[trigger]
                    old(self)@.artist_refusal(id, artist@) == Some(e@),
            },
            old(self)@.artist_mbid_taken(artist@.mbid) ==> added is Err,
    {
        let id = EntityId::new();
        match self.insert_artist(id, artist) {
            Ok(_) => Ok(id),
            Err(e) => Err(e),
        }
    }

    /// What is known about the artist `id`.
    pub fn artist(&self, id: EntityId) -> (artist: Option<Artist>)
        ensures
            match artist {
                Some(a) => self@.artist(id) == Some(a@),
                None => self@.artist(id) is None,
            },
    {
        match self.find_artist(id) {
            Some(i) => Some(self.artists[i].artist.clone()),
            None => None,
        }
    }

    // --- tracks ---

    /// Say that `track` carries each of `isrcs`.
    fn write_isrcs(&mut self, track: EntityId, isrcs: &Vec<String>)
        ensures
            final(self)@ == (StoreModel {
                isrcs: with_isrcs(old(self)@.isrcs, track, texts(isrcs@)),
                ..old(self)@
            }),
    {
        let ghost before = self@;
        let mut i: usize = 0;
        while i < isrcs.len()
            invariant
                i <= isrcs.len(),
                self@ == (StoreModel {
                    isrcs: with_isrcs(before.isrcs, track, texts(isrcs@.take(i as int))),
                    ..before
                }),
            decreases isrcs.len() - i,
        {
            let ghost upto = texts(isrcs@.take(i + 1));
            assert(upto.drop_last() =~= texts(isrcs@.take(i as int)));
            assert(upto.last() == isrcs@[i as int]@);
            if !self.carries(track, isrcs[i].as_str()) {
                let ghost rows = self@.isrcs;
                self.isrcs.push(IsrcRow { track, isrc: isrcs[i].clone() });
                assert(self@.isrcs =~= rows.push(
                    IsrcEntry { track, isrc: isrcs@[i as int]@ },
                ));
            }
            i = i + 1;
        }
        assert(isrcs@.take(i as int) =~= isrcs@);
    }

    /// Whether `track` carries `isrc`.
    pub fn carries(&self, track: EntityId, isrc: &str) -> (r: bool)
        ensures
            r == any(self@.isrcs, isrc_is(track, isrc@)),
    {
        let ghost p = isrc_is(track, isrc@);
        let mut i: usize = 0;
        while i < self.isrcs.len()
            invariant
                i <= self.isrcs.len(),
                p == isrc_is(track, isrc@),
                forall|j: int| 0 <= j < i ==> !p(#[trigger] self@.isrcs[j]),
            decreases self.isrcs.len() - i,
        {
            assert(self@.isrcs[i as int] == self.isrcs@[i as int]@);
            if self.isrcs[i].track.0 == track.0 && same(self.isrcs[i].isrc.as_str(), isrc) {
                assert(p(self@.isrcs[i as int]));
                return true;
            }
            i = i + 1;
        }
        proof {
            found_none(self@.isrcs, p);
        }
        false
    }

    /// Forget every ISRC of `track`.
    fn clear_isrcs(&mut self, track: EntityId)
        ensures
            final(self)@ == (StoreModel {
                isrcs: without(old(self)@.isrcs, isrc_of(track)),
                ..old(self)@
            }),
    {
        let ghost before = self@;
        let ghost rows = self@.isrcs;
        let ghost p = isrc_of(track);
        let ghost mut k: int = 0;
        let mut i: usize = 0;
        assert(without(rows.take(0), p) + rows.skip(0) =~= rows);
        while i < self.isrcs.len()
            invariant
                p == isrc_of(track),
                0 <= k <= rows.len(),
                i == without(rows.take(k), p).len(),
                self@.isrcs == without(rows.take(k), p) + rows.skip(k),
                self@ == (StoreModel { isrcs: self@.isrcs, ..before }),
                i <= self.isrcs.len(),
            decreases rows.len() - k,
        {
            assert(self@.isrcs.len() == self.isrcs@.len());
            assert(k < rows.len());
            assert(self@.isrcs[i as int] == rows[k]);
            assert(self.isrcs@[i as int]@ == rows[k]);
            assert(rows.take(k + 1).drop_last() =~= rows.take(k));
            assert(rows.take(k + 1).last() == rows[k]);
            if self.isrcs[i].track.0 == track.0 {
                let ghost all = self@.isrcs;
                let _gone = self.isrcs.remove(i);
                assert(self@.isrcs =~= all.remove(i as int));
                assert(self@.isrcs =~= without(rows.take(k + 1), p) + rows.skip(k + 1));
            } else {
                assert(self@.isrcs =~= without(rows.take(k + 1), p) + rows.skip(k + 1));
                i = i + 1;
            }
            proof {
                k = k + 1;
            }
        }
        assert(self@.isrcs.len() == self.isrcs@.len());
        assert(k == rows.len());
        assert(rows.take(k) =~= rows);
        assert(self@.isrcs =~= without(rows, p));
    }

    /// Add a track (a recording) under the identifier `id`.
    pub fn insert_track(&mut self, id: EntityId, track: &Track) -> (done: Result<()>)
        ensures
            match done {
                Ok(_) => old(self)@.track_refusal(id, track@) is None && final(self)@
                    == old(self)@.with_track(id, track@),
                Err(e) => old(self)@.track_refusal(id, track@) == Some(e@) && final(self)@
                    == old(self)@,
            },
    {
        if self.kind_of(id).is_some() {
            return Err(already_taken("tracks.id"));
        }
        if self.track_mbid_taken(track.mbid, None) {
            return Err(already_taken("tracks.mbid"));
        }
        if !self.all_artists(&track.artists) {
            return Err(names_nothing());
        }
        self.tracks.push(track_row(id, track));
        assert(self@.tracks =~= old(self)@.tracks.push(track_entry(id, track@)));
        self.write_isrcs(id, &track.isrcs);
        Ok(())
    }

    /// Add a track (a recording), returning its new id.
    pub fn add_track(&mut self, track: &Track) -> (added: Result<EntityId>)
        ensures
            match added {
                Ok(id) => old(self)@.track_refusal(id, track@) is None && final(self)@
                    == old(self)@.with_track(id, track@),
                Err(e) => final(self)@ == old(self)@ && exists|id: EntityId| #[trigger]
                    old(self)@.track_refusal(id, track@) == Some(e@),
            },
            old(self)@.track_mbid_taken(track@.mbid, None) || !old(self)@.are_artists(
                track@.artists,
            ) ==> added is Err,
    {
        let id = EntityId::new();
        match self.insert_track(id, track) {
            Ok(_) => Ok(id),
            Err(e) => Err(e),
        }
    }

    /// Replace everything known about the track `id`.
    pub fn update_track(&mut self, id: EntityId, track: &Track) -> (done: Result<()>)
        ensures
            match done {
                Ok(_) => old(self)@.track_update_refusal(id, track@) is None && final(self)@
                    == old(self)@.with_track_updated(id, track@),
                Err(e) => old(self)@.track_update_refusal(id, track@) == Some(e@) && final(self)@
                    == old(self)@,
            },
    {
        let at: usize = match self.find_track(id) {
            Some(at) => at,
            None => {
                return Err(no_such("track ", id));
            },
        };
        if self.track_mbid_taken(track.mbid, Some(at)) {
            return Err(already_taken("tracks.mbid"));
        }
        if !self.all_artists(&track.artists) {
            return Err(names_nothing());
        }
        let ghost before = self@;
        self.tracks.set(at, track_row(id, track));
        assert(self@.tracks =~= before.tracks.update(at as int, track_entry(id, track@)));
        self.clear_isrcs(id);
        self.write_isrcs(id, &track.isrcs);
        Ok(())
    }

    /// The ISRCs the track `id` carries.
    fn isrcs_of(&self, id: EntityId) -> (isrcs: Vec<String>)
        ensures
            texts(isrcs@) == self@.isrcs_of(id),
    {
        let ghost p = isrc_of(id);
        let ghost pick = |i: int| self@.isrcs[i].isrc;
        let mut out: Vec<String> = Vec::new();
        let mut i: usize = 0;
        assert(texts(out@) =~= places(self@.isrcs, p, 0).map_values(pick));
        while i < self.isrcs.len()
            invariant
                i <= self.isrcs.len(),
                p == isrc_of(id),
                pick == (|i: int| self@.isrcs[i].isrc),
                texts(out@) == places(self@.isrcs, p, i as int).map_values(pick),
            decreases self.isrcs.len() - i,
        {
            assert(self@.isrcs[i as int] == self.isrcs@[i as int]@);
            if self.isrcs[i].track.0 == id.0 {
                let ghost before = texts(out@);
                out.push(self.isrcs[i].isrc.clone());
                assert(texts(out@) =~= before.push(self@.isrcs[i as int].isrc));
                assert(places(self@.isrcs, p, i + 1).map_values(pick) =~= places(
                    self@.isrcs,
                    p,
                    i as int,
                ).map_values(pick).push(pick(i as int)));
            }
            i = i + 1;
        }
        out
    }

    /// What is known about the track `id`.
    pub fn track(&self, id: EntityId) -> (track: Option<Track>)
        ensures
            match track {
                Some(t) => self@.track(id) == Some(t@),
                None => self@.track(id) is None,
            },
    {
        match self.find_track(id) {
            Some(i) => Some(
                Track {
                    title: self.tracks[i].title.clone(),
                    credit: self.tracks[i].credit.clone(),
                    artists: clone_ids(&self.tracks[i].artists),
                    duration_ms: self.tracks[i].duration_ms,
                    isrcs: self.isrcs_of(id),
                    mbid: self.tracks[i].mbid,
                },
            ),
            None => None,
        }
    }

    /// Every track carrying `isrc`.
    pub fn tracks_with_isrc(&self, isrc: &str) -> (ids: Vec<EntityId>)
        ensures
            ids@ == self@.tracks_with_isrc(isrc@),
    {
        let ghost p = carries(isrc@);
        let ghost pick = |i: int| self@.isrcs[i].track;
        let mut out: Vec<EntityId> = Vec::new();
        let mut i: usize = 0;
        assert(out@ =~= places(self@.isrcs, p, 0).map_values(pick));
        while i < self.isrcs.len()
            invariant
                i <= self.isrcs.len(),
                p == carries(isrc@),
                pick == (|i: int| self@.isrcs[i].track),
                out@ == places(self@.isrcs, p, i as int).map_values(pick),
            decreases self.isrcs.len() - i,
        {
            assert(self@.isrcs[i as int] == self.isrcs@[i as int]@);
            if same(self.isrcs[i].isrc.as_str(), isrc) {
                out.push(self.isrcs[i].track);
                assert(places(self@.isrcs, p, i + 1).map_values(pick) =~= places(
                    self@.isrcs,
                    p,
                    i as int,
                ).map_values(pick).push(pick(i as int)));
            }
            i = i + 1;
        }
        out
    }

    // --- albums ---

    /// Add an album (a release) under the identifier `id`.
    pub fn insert_album(&mut self, id: EntityId, album: &Album) -> (done: Result<()>)
        ensures
            match done {
                Ok(_) => old(self)@.album_refusal(id, album@) is None && final(self)@
                    == old(self)@.with_album(id, album@),
                Err(e) => old(self)@.album_refusal(id, album@) == Some(e@) && final(self)@
                    == old(self)@,
            },
    {
        if self.kind_of(id).is_some() {
            return Err(already_taken("albums.id"));
        }
        if self.album_mbid_taken(album.mbid, None) {
            return Err(already_taken("albums.mbid"));
        }
        if !self.all_artists(&album.artists) {
            return Err(names_nothing());
        }
        self.albums.push(AlbumRow { id, album: album.clone() });
        assert(self@.albums =~= old(self)@.albums.push(AlbumEntry { id, album: album@ }));
        Ok(())
    }

    /// Add an album (a release), returning its new id.
    pub fn add_album(&mut self, album: &Album) -> (added: Result<EntityId>)
        ensures
            match added {
                Ok(id) => old(self)@.album_refusal(id, album@) is None && final(self)@
                    == old(self)@.with_album(id, album@),
                Err(e) => final(self)@ == old(self)@ && exists|id: EntityId| #[trigger]
                    old(self)@.album_refusal(id, album@) == Some(e@),
            },
            old(self)@.album_mbid_taken(album@.mbid, None) || !old(self)@.are_artists(
                album@.artists,
            ) ==> added is Err,
    {
        let id = EntityId::new();
        match self.insert_album(id, album) {
            Ok(_) => Ok(id),
            Err(e) => Err(e),
        }
    }

    /// Replace everything known about the album `id` (its tracklist aside).
    pub fn update_album(&mut self, id: EntityId, album: &Album) -> (done: Result<()>)
        ensures
            match done {
                Ok(_) => old(self)@.album_update_refusal(id, album@) is None && final(self)@
                    == old(self)@.with_album_updated(id, album@),
                Err(e) => old(self)@.album_update_refusal(id, album@) == Some(e@) && final(self)@
                    == old(self)@,
            },
    {
        let at: usize = match self.find_album(id) {
            Some(at) => at,
            None => {
                return Err(no_such("album ", id));
            },
        };
        if self.album_mbid_taken(album.mbid, Some(at)) {
            return Err(already_taken("albums.mbid"));
        }
        if !self.all_artists(&album.artists) {
            return Err(names_nothing());
        }
        let ghost before = self@;
        self.albums.set(at, AlbumRow { id, album: album.clone() });
        assert(self@.albums =~= before.albums.update(
            at as int,
            AlbumEntry { id, album: album@ },
        ));
        Ok(())
    }

    /// What is known about the album `id`.
    pub fn album(&self, id: EntityId) -> (album: Option<Album>)
        ensures
            match album {
                Some(a) => self@.album(id) == Some(a@),
                None => self@.album(id) is None,
            },
    {
        match self.find_album(id) {
            Some(i) => Some(self.albums[i].album.clone()),
            None => None,
        }
    }

    /// Every album with this barcode (editions are distinct releases, but a barcode can be reused
    /// across territories).
    pub fn albums_with_barcode(&self, barcode: &str) -> (ids: Vec<EntityId>)
        ensures
            ids@ == self@.albums_with_barcode(barcode@),
    {
        let ghost p = barcode_is(barcode@);
        let ghost pick = |i: int| self@.albums[i].id;
        let mut out: Vec<EntityId> = Vec::new();
        let mut i: usize = 0;
        assert(out@ =~= places(self@.albums, p, 0).map_values(pick));
        while i < self.albums.len()
            invariant
                i <= self.albums.len(),
                p == barcode_is(barcode@),
                pick == (|i: int| self@.albums[i].id),
                out@ == places(self@.albums, p, i as int).map_values(pick),
            decreases self.albums.len() - i,
        {
            assert(self@.albums[i as int] == self.albums@[i as int]@);
            let matches: bool = match &self.albums[i].album.barcode {
                Some(b) => same(b.as_str(), barcode),
                None => false,
            };
            if matches {
                out.push(self.albums[i].id);
                assert(places(self@.albums, p, i + 1).map_values(pick) =~= places(
                    self@.albums,
                    p,
                    i as int,
                ).map_values(pick).push(pick(i as int)));
            }
            i = i + 1;
        }
        out
    }
}

/// Whether two MusicBrainz ids that may be missing are the same.
pub fn same_mbid(a: Option<u128>, b: Option<u128>) -> (r: bool)
    ensures
        r == (a == b),
{
    match (a, b) {
        (Some(x), Some(y)) => x == y,
        (None, None) => true,
        _ => false,
    }
}

/// A new entity is taken in where its id and its MusicBrainz id are new and the artists it credits
/// are known, and refused otherwise.
pub proof fn new_entities_are_taken_in(
    model: StoreModel,
    id: EntityId,
    artist: ArtistModel,
    album: AlbumModel,
    track: TrackModel,
)
    ensures
        model.unused(id) && artist.mbid is None ==> model.artist_refusal(id, artist) is None,
        !model.unused(id) ==> model.artist_refusal(id, artist) is Some && model.album_refusal(
            id,
            album,
        ) is Some && model.track_refusal(id, track) is Some,
        model.unused(id) && album.mbid is None && (forall|k: int|
            0 <= k < album.artists.len() ==> model.artist_at(#[trigger] album.artists[k]) is Some)
            ==> model.album_refusal(id, album) is None,
        model.unused(id) && track.mbid is None && (forall|k: int|
            0 <= k < track.artists.len() ==> model.artist_at(#[trigger] track.artists[k]) is Some)
            ==> model.track_refusal(id, track) is None,
        (exists|k: int|
            0 <= k < track.artists.len() && model.artist_at(#[trigger] track.artists[k]) is None)
            ==> model.track_refusal(id, track) is Some,
        (exists|k: int|
            0 <= k < album.artists.len() && model.artist_at(#[trigger] album.artists[k]) is None)
            ==> model.album_refusal(id, album) is Some,
{
}

/// An entity is found by its MusicBrainz id, as the kind it is.
pub proof fn an_entity_is_found_by_its_mbid(model: StoreModel, mbid: u128, i: int)
    requires
        0 <= i,
    ensures
        i < model.tracks.len() && model.tracks[i].mbid == Some(mbid) && (forall|k: int|
            0 <= k < i ==> (#[trigger] model.tracks[k]).mbid != Some(mbid)) ==> model.by_mbid(
            EntityKind::Track,
            mbid,
        ) == Some(model.tracks[i].id),
        i < model.albums.len() && model.albums[i].album.mbid == Some(mbid) && (forall|k: int|
            0 <= k < i ==> (#[trigger] model.albums[k]).album.mbid != Some(mbid))
            ==> model.by_mbid(EntityKind::Album, mbid) == Some(model.albums[i].id),
        i < model.artists.len() && model.artists[i].artist.mbid == Some(mbid) && (forall|k: int|
            0 <= k < i ==> (#[trigger] model.artists[k]).artist.mbid != Some(mbid))
            ==> model.by_mbid(EntityKind::Artist, mbid) == Some(model.artists[i].id),
        model.by_mbid(EntityKind::Playlist, mbid) is None,
{
    if i < model.tracks.len() && model.tracks[i].mbid == Some(mbid) && (forall|k: int|
        0 <= k < i ==> (#[trigger] model.tracks[k]).mbid != Some(mbid)) {
        found_first(model.tracks, track_has_mbid(mbid), i);
    }
    if i < model.albums.len() && model.albums[i].album.mbid == Some(mbid) && (forall|k: int|
        0 <= k < i ==> (#[trigger] model.albums[k]).album.mbid != Some(mbid)) {
        found_first(model.albums, album_has_mbid(mbid), i);
    }
    if i < model.artists.len() && model.artists[i].artist.mbid == Some(mbid) && (forall|k: int|
        0 <= k < i ==> (#[trigger] model.artists[k]).artist.mbid != Some(mbid)) {
        found_first(model.artists, artist_has_mbid(mbid), i);
    }
}

/// What is under an id is what was put there, and its kind is the table it stands in.
pub proof fn an_id_says_what_kind_it_is(model: StoreModel, id: EntityId)
    ensures
        model.track_at(id) is Some ==> model.kind_of(id) == Some(EntityKind::Track)
            && model.tracks[model.track_at(id)->0].id == id,
        model.track_at(id) is None && model.album_at(id) is Some ==> model.kind_of(id) == Some(
            EntityKind::Album,
        ) && model.albums[model.album_at(id)->0].id == id,
        model.track_at(id) is None && model.album_at(id) is None && model.artist_at(id) is Some
            ==> model.kind_of(id) == Some(EntityKind::Artist) && model.artists[model.artist_at(
            id,
        )->0].id == id,
        model.kind_of(id) is None <==> model.track_at(id) is None && model.album_at(id) is None
            && model.artist_at(id) is None && model.playlist_at(id) is None,
{
    first_at_matches(model.tracks, track_is(id));
    first_at_matches(model.albums, album_is(id));
    first_at_matches(model.artists, artist_is(id));
}

} // verus!
