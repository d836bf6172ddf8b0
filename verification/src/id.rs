//! Identity: the daemon's own handle for an entity, the services it federates, and how a track
//! binds to a pointer on each of them.

use vstd::arithmetic::power::pow;
use vstd::prelude::*;
use vstd::string::*;

use crate::text::same;

verus! {

/// A stable, service-agnostic handle for a library entity: a UUID as a number, most significant
/// byte first.
#[derive(Debug, Clone, Copy, PartialEq, Eq, Hash, Structural)]
pub struct EntityId(pub u128);

/// The lower-case hexadecimal digit that stands for `d`.
pub open spec fn hex_digit(d: int) -> char {
    if d < 10 {
        (48 + d) as char
    } else {
        (87 + d) as char
    }
}

/// Where the hyphens of a written UUID stand.
pub open spec fn is_hyphen_place(i: int) -> bool {
    i == 8 || i == 13 || i == 18 || i == 23
}

/// How many hexadecimal digits come before place `i` of a written UUID.
pub open spec fn digits_before(i: int) -> int {
    if i <= 8 {
        i
    } else if i <= 13 {
        i - 1
    } else if i <= 18 {
        i - 2
    } else if i <= 23 {
        i - 3
    } else {
        i - 4
    }
}

/// A UUID as it is written: 32 lower-case hexadecimal digits in groups of 8, 4, 4, 4 and 12.
pub open spec fn uuid_text(n: u128) -> Seq<char> {
    Seq::new(
        36,
        |i: int|
            if is_hyphen_place(i) {
                '-'
            } else {
                hex_digit(n as int / pow(16, (31 - digits_before(i)) as nat) % 16)
            },
    )
}

impl EntityId {
    /// `uuid::Uuid::new_v4`: a random identifier. What is claimed of it is only that it is marked
    /// as a random (version 4) UUID of the RFC variant.
    #[verifier::external_body]
    pub fn new() -> (id: EntityId)
        ensures
            id.0 as int / pow(2, 76) % 16 == 4,
            id.0 as int / pow(2, 62) % 4 == 2,
    {
        EntityId(uuid::Uuid::new_v4().as_u128())
    }

    /// `uuid::Uuid`'s text: the claim is that it is the lower-case hyphenated form.
    #[verifier::external_body]
    pub fn text(&self) -> (text: String)
        ensures
            text@ == uuid_text(self.0),
    {
        uuid::Uuid::from_u128(self.0).to_string()
    }
}

/// An upstream a source binding can point at. The local filesystem is modelled as a service, so
/// "bring your own files" is a first-class source.
#[derive(Debug, Clone, Copy, PartialEq, Eq, Hash, Structural)]
pub enum Service {
    Local,
    Tidal,
    Spotify,
}

impl Service {
    /// The stable wire name, used in JSON and in messages so both agree.
    pub open spec fn name(self) -> Seq<char> {
        match self {
            Service::Local => "local"@,
            Service::Tidal => "tidal"@,
            Service::Spotify => "spotify"@,
        }
    }

    pub fn as_str(&self) -> (name: &'static str)
        ensures
            name@ == self.name(),
    {
        match self {
            Service::Local => "local",
            Service::Tidal => "tidal",
            Service::Spotify => "spotify",
        }
    }

    /// The service whose wire name is `name`.
    pub open spec fn named(name: Seq<char>) -> Option<Service> {
        if name == "local"@ {
            Some(Service::Local)
        } else if name == "tidal"@ {
            Some(Service::Tidal)
        } else if name == "spotify"@ {
            Some(Service::Spotify)
        } else {
            None
        }
    }

    /// The service whose wire name is `name`.
    pub fn parse(name: &str) -> (service: Option<Service>)
        ensures
            service == Self::named(name@),
            match service {
                Some(s) => s.name() == name@,
                None => forall|s: Service| #[trigger] s.name() != name@,
            },
    {
        if same(name, "local") {
            Some(Service::Local)
        } else if same(name, "tidal") {
            Some(Service::Tidal)
        } else if same(name, "spotify") {
            Some(Service::Spotify)
        } else {
            None
        }
    }
}

impl Default for EntityId {
    /// A new random identifier.
    fn default() -> (id: Self)
        ensures
            id.0 as int / pow(2, 76) % 16 == 4,
            id.0 as int / pow(2, 62) % 4 == 2,
    {
        EntityId::new()
    }
}

/// No two services share a wire name.
pub proof fn service_names_are_distinct(a: Service, b: Service)
    requires
        a.name() == b.name(),
    ensures
        a == b,
{
    reveal_strlit("local");
    reveal_strlit("tidal");
    reveal_strlit("spotify");
    assert("local"@[0] == 'l' && "tidal"@[0] == 't' && "spotify"@[0] == 's');
}

/// Where a local file is.
#[derive(Debug, PartialEq, Eq)]
pub enum LocalPath {
    /// A path that is text.
    Text(String),
    /// A path that is not UTF-8, and how it is shown.
    Opaque(String),
}

#[derive(Debug, PartialEq, Eq)]
/// A concrete, resolvable pointer to one track, album, artist or playlist on one source.
pub enum SourceRef {
    Local { path: LocalPath },
    Tidal { id: String },
    Spotify { id: String },
}

/// What a [`SourceRef`] says, as characters.
pub enum SourceView {
    LocalText(Seq<char>),
    LocalOpaque(Seq<char>),
    Tidal(Seq<char>),
    Spotify(Seq<char>),
}

impl SourceView {
    pub open spec fn service(self) -> Service {
        match self {
            SourceView::LocalText(_) => Service::Local,
            SourceView::LocalOpaque(_) => Service::Local,
            SourceView::Tidal(_) => Service::Tidal,
            SourceView::Spotify(_) => Service::Spotify,
        }
    }
}

impl View for SourceRef {
    type V = SourceView;

    open spec fn view(&self) -> SourceView {
        match self {
            SourceRef::Local { path: LocalPath::Text(p) } => SourceView::LocalText(p@),
            SourceRef::Local { path: LocalPath::Opaque(p) } => SourceView::LocalOpaque(p@),
            SourceRef::Tidal { id } => SourceView::Tidal(id@),
            SourceRef::Spotify { id } => SourceView::Spotify(id@),
        }
    }
}

impl Clone for SourceRef {
    fn clone(&self) -> (copy: Self)
        ensures
            copy == *self,
    {
        match self {
            SourceRef::Local { path: LocalPath::Text(p) } => SourceRef::Local {
                path: LocalPath::Text(p.clone()),
            },
            SourceRef::Local { path: LocalPath::Opaque(p) } => SourceRef::Local {
                path: LocalPath::Opaque(p.clone()),
            },
            SourceRef::Tidal { id } => SourceRef::Tidal { id: id.clone() },
            SourceRef::Spotify { id } => SourceRef::Spotify { id: id.clone() },
        }
    }
}

impl SourceRef {
    pub fn service(&self) -> (service: Service)
        ensures
            service == self@.service(),
    {
        match self {
            SourceRef::Local { .. } => Service::Local,
            SourceRef::Tidal { .. } => Service::Tidal,
            SourceRef::Spotify { .. } => Service::Spotify,
        }
    }

    /// Whether two pointers are the same one.
    pub fn same_as(&self, other: &SourceRef) -> (r: bool)
        ensures
            r == (self@ == other@),
    {
        match (self, other) {
            (
                SourceRef::Local { path: LocalPath::Text(a) },
                SourceRef::Local { path: LocalPath::Text(b) },
            ) => *a == *b,
            (
                SourceRef::Local { path: LocalPath::Opaque(a) },
                SourceRef::Local { path: LocalPath::Opaque(b) },
            ) => *a == *b,
            (SourceRef::Tidal { id: a }, SourceRef::Tidal { id: b }) => *a == *b,
            (SourceRef::Spotify { id: a }, SourceRef::Spotify { id: b }) => *a == *b,
            _ => false,
        }
    }

    /// The binding `id` names on `service`; a local file has no id to name it by.
    pub fn by_id(service: Service, id: &str) -> (source: Option<SourceRef>)
        ensures
            match service {
                Service::Local => source is None,
                Service::Tidal => source is Some && source->0@ == SourceView::Tidal(id@),
                Service::Spotify => source is Some && source->0@ == SourceView::Spotify(id@),
            },
    {
        match service {
            Service::Local => None,
            Service::Tidal => Some(SourceRef::Tidal { id: id.to_owned() }),
            Service::Spotify => Some(SourceRef::Spotify { id: id.to_owned() }),
        }
    }
}

/// What several pointers say.
pub open spec fn sources_view(all: Seq<SourceRef>) -> Seq<SourceView> {
    all.map_values(|s: SourceRef| s@)
}

/// What a pointer that may be missing says.
pub open spec fn opt_source(source: Option<SourceRef>) -> Option<SourceView> {
    match source {
        Some(s) => Some(s@),
        None => None,
    }
}

/// A copy of `all`, pointer by pointer.
pub fn clone_sources(all: &Vec<SourceRef>) -> (copy: Vec<SourceRef>)
    ensures
        copy@ == all@,
{
    let copy = all.clone();
    assert(copy@ =~= all@) by {
        assert forall|i: int| 0 <= i < all@.len() implies copy@[i] == all@[i] by {
            assert(cloned::<SourceRef>(all@[i], copy@[i]));
        }
    }
    copy
}

/// A copy of a pointer that may be missing.
pub fn clone_opt_source(source: &Option<SourceRef>) -> (copy: Option<SourceRef>)
    ensures
        copy == *source,
{
    match source {
        Some(s) => Some(s.clone()),
        None => None,
    }
}

/// The streaming quality ladder, ascending.
#[derive(Debug, Clone, Copy, PartialEq, Eq, Structural)]
pub enum Quality {
    /// Lossy, low bitrate.
    Low,
    /// Lossy, high bitrate.
    High,
    /// CD-quality FLAC.
    Lossless,
    /// Hi-res FLAC.
    HiRes,
}

impl Quality {
    /// The stable wire name.
    pub open spec fn name(self) -> Seq<char> {
        match self {
            Quality::Low => "low"@,
            Quality::High => "high"@,
            Quality::Lossless => "lossless"@,
            Quality::HiRes => "hi_res"@,
        }
    }

    pub fn as_str(self) -> (name: &'static str)
        ensures
            name@ == self.name(),
    {
        match self {
            Quality::Low => "low",
            Quality::High => "high",
            Quality::Lossless => "lossless",
            Quality::HiRes => "hi_res",
        }
    }
}

} // verus!
