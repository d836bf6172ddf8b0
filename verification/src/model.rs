//! The library's entities: what the daemon itself knows about music, independent of any service.
//!
//! A [`Track`] is a *recording*: the audio itself. An [`Album`] is a *release*, with its own
//! tracklist. An [`Artist`] is credited, in order, on tracks and albums. Every entity has an
//! [`EntityId`] from one id space, so a binding or a saved row names an entity without saying
//! which table it is in.

use vstd::prelude::*;

use crate::id::{EntityId, Service, SourceRef, SourceView};
use crate::text::{clone_opt, opt_text, same, texts};

verus! {

/// Which kind of entity an id names.
#[derive(Debug, Clone, Copy, PartialEq, Eq, Hash, Structural)]
pub enum EntityKind {
    Track,
    Album,
    Artist,
    /// The user's own ordered list of tracks.
    Playlist,
}

impl Default for EntityKind {
    fn default() -> (kind: Self)
        ensures
            kind == EntityKind::Track,
    {
        EntityKind::Track
    }
}

impl EntityKind {
    /// The name of the kind.
    pub open spec fn name(self) -> Seq<char> {
        match self {
            EntityKind::Track => "track"@,
            EntityKind::Album => "album"@,
            EntityKind::Artist => "artist"@,
            EntityKind::Playlist => "playlist"@,
        }
    }

    pub fn as_str(self) -> (name: &'static str)
        ensures
            name@ == self.name(),
    {
        match self {
            EntityKind::Track => "track",
            EntityKind::Album => "album",
            EntityKind::Artist => "artist",
            EntityKind::Playlist => "playlist",
        }
    }

    /// The kind that `s` names, if it names one.
    pub fn parse(s: &str) -> (kind: Option<EntityKind>)
        ensures
            match kind {
                Some(k) => k.name() == s@,
                None => forall|k: EntityKind| #[trigger] k.name() != s@,
            },
    {
        if same(s, "track") {
            Some(EntityKind::Track)
        } else if same(s, "album") {
            Some(EntityKind::Album)
        } else if same(s, "artist") {
            Some(EntityKind::Artist)
        } else if same(s, "playlist") {
            Some(EntityKind::Playlist)
        } else {
            None
        }
    }
}

/// No two kinds share a name, so a kind read back from its name is the same kind.
pub proof fn kind_names_are_distinct(a: EntityKind, b: EntityKind)
    requires
        a.name() == b.name(),
    ensures
        a == b,
{
    reveal_strlit("track");
    reveal_strlit("album");
    reveal_strlit("artist");
    reveal_strlit("playlist");
    assert("track"@.len() == 5 && "album"@.len() == 5 && "artist"@.len() == 6 && "playlist"@.len()
        == 8);
    assert("track"@[0] == 't' && "album"@[0] == 'a');
}

/// Something a client asks for by reference: a library entity, something on a service by the
/// service's own id, or a service's personal mix, which plays as its tracks but is not itself an
/// entity.
#[derive(Debug, PartialEq, Eq)]
pub enum ItemRef {
    Entity { entity: EntityId },
    Mix { service: Service, mix: String },
    Service { service: Service, id: String, kind: EntityKind },
}

impl Clone for ItemRef {
    fn clone(&self) -> (copy: Self)
        ensures
            copy == *self,
    {
        match self {
            ItemRef::Entity { entity } => ItemRef::Entity { entity: *entity },
            ItemRef::Mix { service, mix } => ItemRef::Mix { service: *service, mix: mix.clone() },
            ItemRef::Service { service, id, kind } => ItemRef::Service {
                service: *service,
                id: id.clone(),
                kind: *kind,
            },
        }
    }
}

/// A performer or group.
#[derive(Debug, PartialEq, Eq)]
pub struct Artist {
    pub name: String,
    /// How the artist files, when that differs from the name.
    pub sort_name: Option<String>,
    /// The MusicBrainz artist id.
    pub mbid: Option<u128>,
}

/// What an [`Artist`] says.
pub struct ArtistModel {
    pub name: Seq<char>,
    pub sort_name: Option<Seq<char>>,
    pub mbid: Option<u128>,
}

impl View for Artist {
    type V = ArtistModel;

    open spec fn view(&self) -> ArtistModel {
        ArtistModel { name: self.name@, sort_name: opt_text(self.sort_name), mbid: self.mbid }
    }
}

impl Clone for Artist {
    fn clone(&self) -> (copy: Self)
        ensures
            copy@ == self@,
    {
        Artist {
            name: self.name.clone(),
            sort_name: clone_opt(&self.sort_name),
            mbid: self.mbid,
        }
    }
}

/// A copy of a list of ids.
pub fn clone_ids(ids: &Vec<EntityId>) -> (copy: Vec<EntityId>)
    ensures
        copy@ == ids@,
{
    let mut copy: Vec<EntityId> = Vec::new();
    let mut i: usize = 0;
    while i < ids.len()
        invariant
            i <= ids.len(),
            copy@ == ids@.take(i as int),
        decreases ids.len() - i,
    {
        copy.push(ids[i]);
        assert(ids@.take(i + 1) =~= ids@.take(i as int).push(ids@[i as int]));
        i = i + 1;
    }
    assert(ids@.take(i as int) =~= ids@);
    copy
}

/// Whether two lists of ids are the same.
pub fn same_ids(a: &Vec<EntityId>, b: &Vec<EntityId>) -> (r: bool)
    ensures
        r == (a@ == b@),
{
    if a.len() != b.len() {
        return false;
    }
    let mut i: usize = 0;
    while i < a.len()
        invariant
            i <= a.len(),
            a@.len() == b@.len(),
            forall|j: int| 0 <= j < i ==> a@[j] == b@[j],
        decreases a.len() - i,
    {
        if a[i].0 != b[i].0 {
            return false;
        }
        i = i + 1;
    }
    assert(a@ =~= b@);
    true
}

/// A release: one edition of an album.
#[derive(Debug, PartialEq, Eq)]
pub struct Album {
    pub title: String,
    /// The artist credit as displayed.
    pub credit: String,
    /// The credited artists, in order.
    pub artists: Vec<EntityId>,
    /// As precise as known: `1973`, `1973-03`, or `1973-03-01`.
    pub release_date: Option<String>,
    /// UPC/EAN: the one identifier the streaming services share for a release.
    pub barcode: Option<String>,
    /// The MusicBrainz release id (this edition).
    pub mbid: Option<u128>,
    /// The MusicBrainz release-group id (every edition of the album).
    pub group_mbid: Option<u128>,
    pub artwork_url: Option<String>,
}

/// What an [`Album`] says.
#[verifier::ext_equal]
pub struct AlbumModel {
    pub title: Seq<char>,
    pub credit: Seq<char>,
    pub artists: Seq<EntityId>,
    pub release_date: Option<Seq<char>>,
    pub barcode: Option<Seq<char>>,
    pub mbid: Option<u128>,
    pub group_mbid: Option<u128>,
    pub artwork_url: Option<Seq<char>>,
}

impl View for Album {
    type V = AlbumModel;

    open spec fn view(&self) -> AlbumModel {
        AlbumModel {
            title: self.title@,
            credit: self.credit@,
            artists: self.artists@,
            release_date: opt_text(self.release_date),
            barcode: opt_text(self.barcode),
            mbid: self.mbid,
            group_mbid: self.group_mbid,
            artwork_url: opt_text(self.artwork_url),
        }
    }
}

impl Clone for Album {
    fn clone(&self) -> (copy: Self)
        ensures
            copy@ == self@,
    {
        Album {
            title: self.title.clone(),
            credit: self.credit.clone(),
            artists: clone_ids(&self.artists),
            release_date: clone_opt(&self.release_date),
            barcode: clone_opt(&self.barcode),
            mbid: self.mbid,
            group_mbid: self.group_mbid,
            artwork_url: clone_opt(&self.artwork_url),
        }
    }
}

/// A recording.
#[derive(Debug, PartialEq, Eq)]
pub struct Track {
    pub title: String,
    /// The artist credit as displayed.
    pub credit: String,
    /// The credited artists, in order.
    pub artists: Vec<EntityId>,
    pub duration_ms: Option<u64>,
    /// A recording can carry several ISRCs, and the join key across services is any of them.
    pub isrcs: Vec<String>,
    /// The MusicBrainz recording id.
    pub mbid: Option<u128>,
}

/// What a [`Track`] says.
#[verifier::ext_equal]
pub struct TrackModel {
    pub title: Seq<char>,
    pub credit: Seq<char>,
    pub artists: Seq<EntityId>,
    pub duration_ms: Option<u64>,
    pub isrcs: Seq<Seq<char>>,
    pub mbid: Option<u128>,
}

impl View for Track {
    type V = TrackModel;

    open spec fn view(&self) -> TrackModel {
        TrackModel {
            title: self.title@,
            credit: self.credit@,
            artists: self.artists@,
            duration_ms: self.duration_ms,
            isrcs: texts(self.isrcs@),
            mbid: self.mbid,
        }
    }
}

/// A playlist's own details (its tracks are listed separately).
#[derive(Debug, PartialEq, Eq)]
pub struct Playlist {
    pub name: String,
    /// Milliseconds since the Unix epoch.
    pub created_at: i64,
    pub updated_at: i64,
}

/// Where a track sits on an album.
#[derive(Debug, Clone, Copy, PartialEq, Eq, Structural)]
pub struct AlbumTrack {
    pub disc: u32,
    pub position: u32,
    pub track: EntityId,
}

/// How a binding was established, from most to least certain.
#[derive(Debug, Clone, Copy, PartialEq, Eq, PartialOrd, Ord, Structural)]
pub enum Provenance {
    /// A person said so.
    Manual,
    /// The entity was created from this binding: it is what the binding describes.
    Direct,
    /// Matched on a shared MusicBrainz id.
    Mbid,
    /// Matched on a shared ISRC (tracks) or barcode (albums).
    Isrc,
    /// Matched on title, artist and duration.
    Fuzzy,
}

impl Provenance {
    /// How far from certain: the smaller, the more certain.
    pub open spec fn doubt(self) -> int {
        match self {
            Provenance::Manual => 0,
            Provenance::Direct => 1,
            Provenance::Mbid => 2,
            Provenance::Isrc => 3,
            Provenance::Fuzzy => 4,
        }
    }

    pub fn rank(self) -> (rank: u8)
        ensures
            rank == self.doubt(),
    {
        match self {
            Provenance::Manual => 0,
            Provenance::Direct => 1,
            Provenance::Mbid => 2,
            Provenance::Isrc => 3,
            Provenance::Fuzzy => 4,
        }
    }

    /// The name of the provenance.
    pub open spec fn name(self) -> Seq<char> {
        match self {
            Provenance::Manual => "manual"@,
            Provenance::Direct => "direct"@,
            Provenance::Mbid => "mbid"@,
            Provenance::Isrc => "isrc"@,
            Provenance::Fuzzy => "fuzzy"@,
        }
    }

    pub fn as_str(self) -> (name: &'static str)
        ensures
            name@ == self.name(),
    {
        match self {
            Provenance::Manual => "manual",
            Provenance::Direct => "direct",
            Provenance::Mbid => "mbid",
            Provenance::Isrc => "isrc",
            Provenance::Fuzzy => "fuzzy",
        }
    }

    /// The provenance that `s` names, if it names one.
    pub open spec fn named(s: Seq<char>) -> Option<Provenance> {
        if s == "manual"@ {
            Some(Provenance::Manual)
        } else if s == "direct"@ {
            Some(Provenance::Direct)
        } else if s == "mbid"@ {
            Some(Provenance::Mbid)
        } else if s == "isrc"@ {
            Some(Provenance::Isrc)
        } else if s == "fuzzy"@ {
            Some(Provenance::Fuzzy)
        } else {
            None
        }
    }

    /// The provenance that `s` names, if it names one.
    pub fn parse(s: &str) -> (provenance: Option<Provenance>)
        ensures
            provenance == Self::named(s@),
            match provenance {
                Some(p) => p.name() == s@,
                None => forall|p: Provenance| #[trigger] p.name() != s@,
            },
    {
        if same(s, "manual") {
            Some(Provenance::Manual)
        } else if same(s, "direct") {
            Some(Provenance::Direct)
        } else if same(s, "mbid") {
            Some(Provenance::Mbid)
        } else if same(s, "isrc") {
            Some(Provenance::Isrc)
        } else if same(s, "fuzzy") {
            Some(Provenance::Fuzzy)
        } else {
            None
        }
    }
}

/// No two provenances share a name, so one read back from its name is the same one.
pub proof fn provenance_names_are_distinct(a: Provenance, b: Provenance)
    requires
        a.name() == b.name(),
    ensures
        a == b,
{
    reveal_strlit("manual");
    reveal_strlit("direct");
    reveal_strlit("mbid");
    reveal_strlit("isrc");
    reveal_strlit("fuzzy");
    assert("manual"@.len() == 6 && "direct"@.len() == 6 && "mbid"@.len() == 4 && "isrc"@.len() == 4
        && "fuzzy"@.len() == 5);
    assert("manual"@[0] == 'm' && "direct"@[0] == 'd' && "mbid"@[0] == 'm' && "isrc"@[0] == 'i');
}

/// Full confidence.
pub const CERTAIN: u32 = 0x3f80_0000;

/// How close a match is, from none to full: the bits of a single-precision number between 0.0 and
/// 1.0, which order as the number does.
#[derive(Debug, Clone, Copy, PartialEq, Eq, Structural)]
pub struct Confidence {
    pub bits: u32,
}

impl Confidence {
    pub fn certain() -> (c: Confidence)
        ensures
            c.bits == CERTAIN,
    {
        Confidence { bits: CERTAIN }
    }
}

/// An entity's pointer into one service, with how much to trust it.
#[derive(Debug, PartialEq, Eq)]
pub struct Binding {
    pub source: SourceRef,
    pub provenance: Provenance,
    /// Direct, manual and id-based matches are certain; fuzzy matches say how close.
    pub confidence: Confidence,
}

/// What a [`Binding`] says.
pub struct BindingModel {
    pub source: SourceView,
    pub provenance: Provenance,
    pub confidence: Confidence,
}

impl View for Binding {
    type V = BindingModel;

    open spec fn view(&self) -> BindingModel {
        BindingModel {
            source: self.source@,
            provenance: self.provenance,
            confidence: self.confidence,
        }
    }
}

impl Binding {
    /// A binding the entity was created from.
    pub fn direct(source: SourceRef) -> (binding: Binding)
        ensures
            binding@ == (BindingModel {
                source: source@,
                provenance: Provenance::Direct,
                confidence: (Confidence { bits: CERTAIN }),
            }),
    {
        Binding { source, provenance: Provenance::Direct, confidence: Confidence::certain() }
    }
}

} // verus!
