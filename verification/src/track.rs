//! What the player plays, what a service says about it, and the physical description of a
//! resolved stream.

use vstd::prelude::*;

use crate::id::{clone_sources, opt_source, sources_view, EntityId, SourceRef, SourceView};
use crate::text::{clone_opt, clone_texts, opt_text, texts};

verus! {

#[derive(Debug, PartialEq, Eq)]
/// Display metadata for a track.
pub struct TrackMeta {
    pub title: String,
    pub artists: Vec<String>,
    pub album: Option<String>,
    pub duration_ms: Option<u64>,
    pub artwork_url: Option<String>,
}

/// What a [`TrackMeta`] says.
#[verifier::ext_equal]
pub struct MetaView {
    pub title: Seq<char>,
    pub artists: Seq<Seq<char>>,
    pub album: Option<Seq<char>>,
    pub duration_ms: Option<u64>,
    pub artwork_url: Option<Seq<char>>,
}

impl View for TrackMeta {
    type V = MetaView;

    open spec fn view(&self) -> MetaView {
        MetaView {
            title: self.title@,
            artists: texts(self.artists@),
            album: opt_text(self.album),
            duration_ms: self.duration_ms,
            artwork_url: opt_text(self.artwork_url),
        }
    }
}

impl Clone for TrackMeta {
    fn clone(&self) -> (copy: Self)
        ensures
            copy@ == self@,
    {
        TrackMeta {
            title: self.title.clone(),
            artists: clone_texts(&self.artists),
            album: clone_opt(&self.album),
            duration_ms: self.duration_ms,
            artwork_url: clone_opt(&self.artwork_url),
        }
    }
}

impl Default for TrackMeta {
    fn default() -> (meta: Self)
        ensures
            meta@ == (MetaView {
                title: Seq::empty(),
                artists: Seq::empty(),
                album: None,
                duration_ms: None,
                artwork_url: None,
            }),
    {
        let meta = TrackMeta {
            title: String::new(),
            artists: Vec::new(),
            album: None,
            duration_ms: None,
            artwork_url: None,
        };
        assert(texts(meta.artists@) =~= Seq::empty());
        meta
    }
}

/// An artist as a service credits it.
#[derive(Debug, PartialEq, Eq)]
pub struct SourceArtist {
    /// The service's own id for the artist, if it has one.
    pub source: Option<SourceRef>,
    pub name: String,
}

/// What a [`SourceArtist`] says.
pub struct SourceArtistView {
    pub source: Option<SourceView>,
    pub name: Seq<char>,
}

impl View for SourceArtist {
    type V = SourceArtistView;

    open spec fn view(&self) -> SourceArtistView {
        SourceArtistView { source: opt_source(self.source), name: self.name@ }
    }
}

impl Default for SourceArtist {
    fn default() -> (artist: Self)
        ensures
            artist@ == (SourceArtistView { source: None, name: Seq::empty() }),
    {
        SourceArtist { source: None, name: String::new() }
    }
}

/// What several credits say.
pub open spec fn credits_view(all: Seq<SourceArtist>) -> Seq<SourceArtistView> {
    all.map_values(|a: SourceArtist| a@)
}

/// A release as a service lists it.
#[derive(Debug, PartialEq, Eq)]
pub struct SourceAlbum {
    /// The service's own id for the album, if it has one.
    pub source: Option<SourceRef>,
    pub title: String,
    pub artists: Vec<SourceArtist>,
    pub release_date: Option<String>,
    /// UPC/EAN.
    pub barcode: Option<String>,
    pub artwork_url: Option<String>,
}

/// What a [`SourceAlbum`] says.
#[verifier::ext_equal]
pub struct SourceAlbumView {
    pub source: Option<SourceView>,
    pub title: Seq<char>,
    pub artists: Seq<SourceArtistView>,
    pub release_date: Option<Seq<char>>,
    pub barcode: Option<Seq<char>>,
    pub artwork_url: Option<Seq<char>>,
}

impl View for SourceAlbum {
    type V = SourceAlbumView;

    open spec fn view(&self) -> SourceAlbumView {
        SourceAlbumView {
            source: opt_source(self.source),
            title: self.title@,
            artists: credits_view(self.artists@),
            release_date: opt_text(self.release_date),
            barcode: opt_text(self.barcode),
            artwork_url: opt_text(self.artwork_url),
        }
    }
}

impl Default for SourceAlbum {
    fn default() -> (album: Self)
        ensures
            album@ == (SourceAlbumView {
                source: None,
                title: Seq::empty(),
                artists: Seq::empty(),
                release_date: None,
                barcode: None,
                artwork_url: None,
            }),
    {
        let album = SourceAlbum {
            source: None,
            title: String::new(),
            artists: Vec::new(),
            release_date: None,
            barcode: None,
            artwork_url: None,
        };
        assert(credits_view(album.artists@) =~= Seq::empty());
        album
    }
}

/// What a service says about one of its tracks: enough for the library to find, or create, the
/// entity it is. Everything but the title is best effort.
#[derive(Debug, PartialEq, Eq)]
pub struct SourceTrack {
    /// The binding this describes.
    pub source: SourceRef,
    pub title: String,
    /// The credited artists, in order.
    pub artists: Vec<SourceArtist>,
    /// The release this binding is on.
    pub album: Option<SourceAlbum>,
    /// Disc and position on `album`, counted from 1.
    pub disc: Option<u32>,
    pub position: Option<u32>,
    pub duration_ms: Option<u64>,
    /// The recording's ISRC: the key that finds the same recording on another service.
    pub isrc: Option<String>,
}

/// What a [`SourceTrack`] says.
#[verifier::ext_equal]
pub struct SourceTrackView {
    pub source: SourceView,
    pub title: Seq<char>,
    pub artists: Seq<SourceArtistView>,
    pub album: Option<SourceAlbumView>,
    pub disc: Option<u32>,
    pub position: Option<u32>,
    pub duration_ms: Option<u64>,
    pub isrc: Option<Seq<char>>,
}

pub open spec fn opt_album(album: Option<SourceAlbum>) -> Option<SourceAlbumView> {
    match album {
        Some(a) => Some(a@),
        None => None,
    }
}

impl View for SourceTrack {
    type V = SourceTrackView;

    open spec fn view(&self) -> SourceTrackView {
        SourceTrackView {
            source: self.source@,
            title: self.title@,
            artists: credits_view(self.artists@),
            album: opt_album(self.album),
            disc: self.disc,
            position: self.position,
            duration_ms: self.duration_ms,
            isrc: opt_text(self.isrc),
        }
    }
}

impl SourceTrackView {
    /// The display metadata this implies.
    pub open spec fn meta(self) -> MetaView {
        MetaView {
            title: self.title,
            artists: self.artists.map_values(|a: SourceArtistView| a.name),
            album: match self.album {
                Some(album) => Some(album.title),
                None => None,
            },
            duration_ms: self.duration_ms,
            artwork_url: match self.album {
                Some(album) => album.artwork_url,
                None => None,
            },
        }
    }
}

/// The names of `all`, in order.
pub fn names_of(all: &Vec<SourceArtist>) -> (names: Vec<String>)
    ensures
        texts(names@) == credits_view(all@).map_values(|a: SourceArtistView| a.name),
{
    let mut names: Vec<String> = Vec::new();
    let mut i: usize = 0;
    while i < all.len()
        invariant
            i <= all.len(),
            names@.len() == i,
            forall|j: int| 0 <= j < i ==> (#[trigger] names@[j])@ == all@[j].name@,
        decreases all.len() - i,
    {
        names.push(all[i].name.clone());
        i = i + 1;
    }
    assert(texts(names@) =~= credits_view(all@).map_values(|a: SourceArtistView| a.name));
    names
}

impl SourceTrack {
    /// The display metadata this implies.
    pub fn meta(&self) -> (meta: TrackMeta)
        ensures
            meta@ == self@.meta(),
    {
        let (album, artwork_url) = match &self.album {
            Some(a) => (Some(a.title.clone()), clone_opt(&a.artwork_url)),
            None => (None, None),
        };
        TrackMeta {
            title: self.title.clone(),
            artists: names_of(&self.artists),
            album,
            duration_ms: self.duration_ms,
            artwork_url,
        }
    }
}

/// What the player is told to play: an entity, its display metadata, and the source bindings it
/// may resolve.
#[derive(Debug, PartialEq, Eq)]
pub struct TrackRef {
    pub id: EntityId,
    pub meta: TrackMeta,
    pub sources: Vec<SourceRef>,
}

/// What a [`TrackRef`] says.
#[verifier::ext_equal]
pub struct TrackRefView {
    pub id: EntityId,
    pub meta: MetaView,
    pub sources: Seq<SourceView>,
}

impl View for TrackRef {
    type V = TrackRefView;

    open spec fn view(&self) -> TrackRefView {
        TrackRefView { id: self.id, meta: self.meta@, sources: sources_view(self.sources@) }
    }
}

impl Clone for TrackRef {
    fn clone(&self) -> (copy: Self)
        ensures
            copy@ == self@,
    {
        TrackRef {
            id: self.id,
            meta: self.meta.clone(),
            sources: clone_sources(&self.sources),
        }
    }
}

/// What several tracks say.
pub open spec fn tracks_view(all: Seq<TrackRef>) -> Seq<TrackRefView> {
    all.map_values(|t: TrackRef| t@)
}

/// What a track that may be missing says.
pub open spec fn opt_track(track: Option<TrackRef>) -> Option<TrackRefView> {
    match track {
        Some(t) => Some(t@),
        None => None,
    }
}

/// A copy of `all`, track by track.
pub fn clone_tracks(all: &Vec<TrackRef>) -> (copy: Vec<TrackRef>)
    ensures
        tracks_view(copy@) == tracks_view(all@),
{
    let copy = all.clone();
    assert(tracks_view(copy@) =~= tracks_view(all@)) by {
        assert forall|i: int| 0 <= i < all@.len() implies copy@[i]@ == all@[i]@ by {
            assert(cloned::<TrackRef>(all@[i], copy@[i]));
        }
    }
    copy
}

/// The codecs a stream may carry.
#[derive(Debug, Clone, Copy, PartialEq, Eq, Structural)]
pub enum Codec {
    Flac,
    Aac,
    Alac,
    Vorbis,
    Mp3,
    Pcm,
    Other,
}

impl Codec {
    /// The file extension that tells the demuxer what container to expect, where one helps:
    /// FLAC may be bare, and AAC and ALAC arrive in MP4.
    pub fn extension_hint(self) -> (hint: Option<&'static str>)
        ensures
            match self {
                Codec::Flac => hint is Some && hint->0@ == "flac"@,
                Codec::Aac | Codec::Alac => hint is Some && hint->0@ == "m4a"@,
                _ => hint is None,
            },
    {
        match self {
            Codec::Flac => Some("flac"),
            Codec::Aac | Codec::Alac => Some("m4a"),
            _ => None,
        }
    }
}

/// Physical description of a decoded stream.
#[derive(Debug, Clone, Copy, PartialEq, Eq, Structural)]
pub struct StreamInfo {
    pub codec: Codec,
    pub sample_rate: u32,
    pub bit_depth: Option<u8>,
    pub channels: u16,
}

/// What is said of a track a service describes is what the service says: its title, the names of
/// those it credits in order, its album's title and artwork, and its length.
pub proof fn a_described_track_is_said_as_described(described: SourceTrackView)
    ensures
        ({
            let meta = described.meta();
            &&& meta.title == described.title
            &&& meta.duration_ms == described.duration_ms
            &&& meta.artists.len() == described.artists.len()
            &&& forall|i: int|
                0 <= i < described.artists.len() ==> #[trigger] meta.artists[i]
                    == described.artists[i].name
            &&& described.album is Some ==> meta.album == Some(described.album->0.title)
                && meta.artwork_url == described.album->0.artwork_url
            &&& described.album is None ==> meta.album is None && meta.artwork_url is None
        }),
{
}

} // verus!
