//! What each client operation asks of the daemon.

use vstd::prelude::*;
use vstd::string::*;

use crate::command::{Command, Repeat};
use crate::id::{EntityId, Service, SourceRef, SourceView};
use crate::model::{EntityKind, ItemRef};
use crate::player::QueueSnapshot;
use crate::protocol::{ClientMessage, QueueAt, ReplyData, ServerMessage};
use crate::settings::Settings;
use crate::sink::SinkId;
use crate::text::concat;
use crate::time::Duration;
use crate::track::TrackRef;

verus! {

/// Results of each kind a search returns when the client doesn't say.
pub const SEARCH_LIMIT: usize = 10;

/// Entries per page of the saved library when the client doesn't say.
pub const LIBRARY_PAGE: usize = 50;

/// What the daemon was started with.
#[derive(Debug, PartialEq, Eq)]
pub struct Available {
    pub settings: bool,
    pub library: bool,
    /// The services with a session to log in to.
    pub sessions: Vec<Service>,
}

/// Why a request is refused before anything is asked.
#[derive(Debug, Clone, Copy, PartialEq, Eq, Structural)]
pub enum Refusal {
    NoSettings,
    NoLibrary,
    /// Tracks on the service are not named by id.
    NoTrackId(Service),
    NoSession(Service),
}

impl Refusal {
    pub open spec fn text(self) -> Seq<char> {
        match self {
            Refusal::NoSettings => "settings are unavailable"@,
            Refusal::NoLibrary => "the library is unavailable"@,
            Refusal::NoTrackId(service) => "a "@ + service.name()
                + " track has no id to name it by"@,
            Refusal::NoSession(service) => "no session registered for "@ + service.name(),
        }
    }

    /// The refusal as clients read it.
    pub fn message(self) -> (text: String)
        ensures
            text@ == self.text(),
    {
        match self {
            Refusal::NoSettings => "settings are unavailable".to_owned(),
            Refusal::NoLibrary => "the library is unavailable".to_owned(),
            Refusal::NoTrackId(service) => {
                let mut text = concat("a ", service.as_str());
                text.append(" track has no id to name it by");
                text
            },
            Refusal::NoSession(service) => concat("no session registered for ", service.as_str()),
        }
    }
}

/// What is asked of a service session.
#[derive(Debug, Clone, Copy, PartialEq, Eq, Structural)]
pub enum SessionCall {
    Begin,
    Poll,
    Account,
}

/// What is asked of the library.
#[derive(Debug, PartialEq, Eq)]
#[allow(inconsistent_fields)]
pub enum LibraryCall {
    Search { service: Service, query: String, limit: usize },
    Album(ItemRef),
    Artist(ItemRef),
    Radio(ItemRef),
    Similar(ItemRef),
    Mixes(Service),
    Mix { service: Service, mix: String },
    Import(Service),
    Save(ItemRef),
    Unsave(ItemRef),
    Page { kind: EntityKind, query: Option<String>, limit: usize, offset: usize },
    Playlist(EntityId),
    PlaylistCreate { name: String, items: Vec<ItemRef> },
    PlaylistRename { playlist: EntityId, name: String },
    PlaylistDelete(EntityId),
    PlaylistAdd { playlist: EntityId, items: Vec<ItemRef>, at: Option<usize> },
    PlaylistRemove { playlist: EntityId, index: usize },
    PlaylistMove { playlist: EntityId, from: usize, to: usize },
}

/// What a client operation asks of the daemon.
#[derive(Debug, PartialEq, Eq)]
pub enum Plan {
    /// Give the player a command; the reply says whether it took it.
    Command(Command),
    /// Draw random numbers and give the player the command to shuffle by them.
    Shuffle,
    /// Resolve the track through the library, and load it (or append it).
    Track { binding: SourceRef, append: bool },
    /// Resolve what the items name through the library, and queue it.
    Tracks { items: Vec<ItemRef>, at: QueueAt, start: usize },
    /// Answer with the selectable outputs.
    Sinks,
    /// Answer with the queue.
    Queue,
    /// Answer with the settings.
    Settings,
    /// Replace the settings.
    Store(Settings),
    /// Ask the library.
    Library(LibraryCall),
    /// Ask the service's session.
    Session { service: Service, call: SessionCall },
    /// Answer that it can't be done.
    Refuse(Refusal),
}

/// Tidal, unless the client says.
pub open spec fn or_tidal(service: Option<Service>) -> Service {
    match service {
        Some(service) => service,
        None => Service::Tidal,
    }
}

pub open spec fn or_default(limit: Option<usize>, default: usize) -> usize {
    match limit {
        Some(limit) => limit,
        None => default,
    }
}

/// A call to the library, if there is one.
pub open spec fn library_plan(given: Available, call: LibraryCall) -> Plan {
    if given.library {
        Plan::Library(call)
    } else {
        Plan::Refuse(Refusal::NoLibrary)
    }
}

/// A call to the session of a service, if there is one.
pub open spec fn session_plan(
    given: Available,
    service: Option<Service>,
    call: SessionCall,
) -> Plan {
    if given.sessions@.contains(or_tidal(service)) {
        Plan::Session { service: or_tidal(service), call }
    } else {
        Plan::Refuse(Refusal::NoSession(or_tidal(service)))
    }
}

/// Whether `plan` resolves the track `id` names on `service` and loads it (or appends it).
pub open spec fn plays_track(
    plan: Plan,
    given: Available,
    service: Service,
    id: Seq<char>,
    append: bool,
) -> bool {
    match service {
        Service::Local => plan == Plan::Refuse(Refusal::NoTrackId(service)),
        _ => if !given.library {
            plan == Plan::Refuse(Refusal::NoLibrary)
        } else {
            &&& plan is Track
            &&& plan->append == append
            &&& plan->binding@ == match service {
                Service::Tidal => SourceView::Tidal(id),
                _ => SourceView::Spotify(id),
            }
        },
    }
}

/// Whether `plan` is what `message` asks of a daemon that has what `given` says.
pub open spec fn asks(message: ClientMessage, given: Available, plan: Plan) -> bool {
    match message {
        ClientMessage::Play => plan == Plan::Command(Command::Play),
        ClientMessage::Pause => plan == Plan::Command(Command::Pause),
        ClientMessage::Stop => plan == Plan::Command(Command::Stop),
        ClientMessage::Seek { position_ms } => plan == Plan::Command(
            Command::Seek(
                Duration { nanos: (position_ms * crate::time::NANOS_PER_MILLI) as u128 },
            ),
        ),
        ClientMessage::SetVolume { volume } => plan == Plan::Command(Command::SetVolume(volume)),
        ClientMessage::SetMuted { muted } => plan == Plan::Command(Command::SetMuted(muted)),
        ClientMessage::SelectSink { sink } => plan == Plan::Command(
            Command::SelectSink(SinkId(sink)),
        ),
        ClientMessage::ListSinks => plan == Plan::Sinks,
        ClientMessage::Queue => plan == Plan::Queue,
        ClientMessage::Settings => plan == if given.settings {
            Plan::Settings
        } else {
            Plan::Refuse(Refusal::NoSettings)
        },
        ClientMessage::SetSettings { settings } => plan == if given.settings {
            Plan::Store(settings)
        } else {
            Plan::Refuse(Refusal::NoSettings)
        },
        ClientMessage::PlayTrack { service, track_id } => plays_track(
            plan,
            given,
            service,
            track_id@,
            false,
        ),
        ClientMessage::Enqueue { service, track_id } => plays_track(
            plan,
            given,
            service,
            track_id@,
            true,
        ),
        ClientMessage::Next => plan == Plan::Command(Command::Next),
        ClientMessage::Previous => plan == Plan::Command(Command::Previous),
        ClientMessage::Clear => plan == Plan::Command(Command::Clear),
        ClientMessage::QueueAdd { items, at, start } => plan == if given.library {
            Plan::Tracks { items, at, start }
        } else {
            Plan::Refuse(Refusal::NoLibrary)
        },
        ClientMessage::Search { query, service, limit } => plan == library_plan(
            given,
            LibraryCall::Search {
                service: or_tidal(service),
                query,
                limit: or_default(limit, SEARCH_LIMIT),
            },
        ),
        ClientMessage::Album { item } => plan == library_plan(given, LibraryCall::Album(item)),
        ClientMessage::Artist { item } => plan == library_plan(given, LibraryCall::Artist(item)),
        ClientMessage::Radio { item } => plan == library_plan(given, LibraryCall::Radio(item)),
        ClientMessage::Similar { item } => plan == library_plan(given, LibraryCall::Similar(item)),
        ClientMessage::Mixes { service } => plan == library_plan(
            given,
            LibraryCall::Mixes(or_tidal(service)),
        ),
        ClientMessage::Mix { service, mix } => plan == library_plan(
            given,
            LibraryCall::Mix { service: or_tidal(service), mix },
        ),
        ClientMessage::Save { item } => plan == library_plan(given, LibraryCall::Save(item)),
        ClientMessage::Unsave { item } => plan == library_plan(given, LibraryCall::Unsave(item)),
        ClientMessage::Library { kind, query, limit, offset } => plan == library_plan(
            given,
            LibraryCall::Page { kind, query, limit: or_default(limit, LIBRARY_PAGE), offset },
        ),
        ClientMessage::Import { service } => plan == library_plan(
            given,
            LibraryCall::Import(or_tidal(service)),
        ),
        ClientMessage::Playlist { playlist } => plan == library_plan(
            given,
            LibraryCall::Playlist(playlist),
        ),
        ClientMessage::PlaylistCreate { name, items } => plan == library_plan(
            given,
            LibraryCall::PlaylistCreate { name, items },
        ),
        ClientMessage::PlaylistRename { playlist, name } => plan == library_plan(
            given,
            LibraryCall::PlaylistRename { playlist, name },
        ),
        ClientMessage::PlaylistDelete { playlist } => plan == library_plan(
            given,
            LibraryCall::PlaylistDelete(playlist),
        ),
        ClientMessage::PlaylistAdd { playlist, items, at } => plan == library_plan(
            given,
            LibraryCall::PlaylistAdd { playlist, items, at },
        ),
        ClientMessage::PlaylistRemove { playlist, index } => plan == library_plan(
            given,
            LibraryCall::PlaylistRemove { playlist, index },
        ),
        ClientMessage::PlaylistMove { playlist, from, to } => plan == library_plan(
            given,
            LibraryCall::PlaylistMove { playlist, from, to },
        ),
        ClientMessage::Jump { index } => plan == Plan::Command(Command::Jump(index)),
        ClientMessage::Remove { index } => plan == Plan::Command(Command::Remove(index)),
        ClientMessage::Move { from, to } => plan == Plan::Command(Command::Move { from, to }),
        ClientMessage::Shuffle => plan == Plan::Shuffle,
        ClientMessage::Repeat { mode } => plan == Plan::Command(Command::SetRepeat(mode)),
        ClientMessage::LoginBegin { service } => plan == session_plan(
            given,
            service,
            SessionCall::Begin,
        ),
        ClientMessage::LoginPoll { service } => plan == session_plan(
            given,
            service,
            SessionCall::Poll,
        ),
        ClientMessage::Account { service } => plan == session_plan(
            given,
            service,
            SessionCall::Account,
        ),
    }
}

impl Available {
    fn ask_library(&self, call: LibraryCall) -> (plan: Plan)
        ensures
            plan == library_plan(*self, call),
    {
        if self.library {
            Plan::Library(call)
        } else {
            Plan::Refuse(Refusal::NoLibrary)
        }
    }

    fn ask_session(&self, service: Option<Service>, call: SessionCall) -> (plan: Plan)
        ensures
            plan == session_plan(*self, service, call),
    {
        let target = tidal_unless(service);
        let mut i: usize = 0;
        while i < self.sessions.len()
            invariant
                i <= self.sessions@.len(),
                target == or_tidal(service),
                forall|k: int| 0 <= k < i ==> self.sessions@[k] != target,
            decreases self.sessions.len() - i,
        {
            if self.sessions[i] == target {
                assert(self.sessions@[i as int] == target);
                return Plan::Session { service: target, call };
            }
            i = i + 1;
        }
        Plan::Refuse(Refusal::NoSession(target))
    }

    fn ask_track(&self, service: Service, track_id: &str, append: bool) -> (plan: Plan)
        ensures
            plays_track(plan, *self, service, track_id@, append),
    {
        match SourceRef::by_id(service, track_id) {
            None => Plan::Refuse(Refusal::NoTrackId(service)),
            Some(binding) => if self.library {
                Plan::Track { binding, append }
            } else {
                Plan::Refuse(Refusal::NoLibrary)
            },
        }
    }
}

fn tidal_unless(service: Option<Service>) -> (r: Service)
    ensures
        r == or_tidal(service),
{
    match service {
        Some(service) => service,
        None => Service::Tidal,
    }
}

fn default_unless(limit: Option<usize>, default: usize) -> (r: usize)
    ensures
        r == or_default(limit, default),
{
    match limit {
        Some(limit) => limit,
        None => default,
    }
}

/// What one client operation asks of a daemon that has what `given` says.
pub fn dispatch(message: ClientMessage, given: &Available) -> (plan: Plan)
    ensures
        asks(message, *given, plan),
{
    match message {
        ClientMessage::Play => Plan::Command(Command::Play),
        ClientMessage::Pause => Plan::Command(Command::Pause),
        ClientMessage::Stop => Plan::Command(Command::Stop),
        ClientMessage::Seek { position_ms } => Plan::Command(
            Command::Seek(Duration::from_millis(position_ms)),
        ),
        ClientMessage::SetVolume { volume } => Plan::Command(Command::SetVolume(volume)),
        ClientMessage::SetMuted { muted } => Plan::Command(Command::SetMuted(muted)),
        ClientMessage::SelectSink { sink } => Plan::Command(Command::SelectSink(SinkId(sink))),
        ClientMessage::ListSinks => Plan::Sinks,
        ClientMessage::Queue => Plan::Queue,
        ClientMessage::Settings => if given.settings {
            Plan::Settings
        } else {
            Plan::Refuse(Refusal::NoSettings)
        },
        ClientMessage::SetSettings { settings } => if given.settings {
            Plan::Store(settings)
        } else {
            Plan::Refuse(Refusal::NoSettings)
        },
        ClientMessage::PlayTrack { service, track_id } => given.ask_track(
            service,
            track_id.as_str(),
            false,
        ),
        ClientMessage::Enqueue { service, track_id } => given.ask_track(
            service,
            track_id.as_str(),
            true,
        ),
        ClientMessage::Next => Plan::Command(Command::Next),
        ClientMessage::Previous => Plan::Command(Command::Previous),
        ClientMessage::Clear => Plan::Command(Command::Clear),
        ClientMessage::QueueAdd { items, at, start } => if given.library {
            Plan::Tracks { items, at, start }
        } else {
            Plan::Refuse(Refusal::NoLibrary)
        },
        ClientMessage::Search { query, service, limit } => given.ask_library(
            LibraryCall::Search {
                service: tidal_unless(service),
                query,
                limit: default_unless(limit, SEARCH_LIMIT),
            },
        ),
        ClientMessage::Album { item } => given.ask_library(LibraryCall::Album(item)),
        ClientMessage::Artist { item } => given.ask_library(LibraryCall::Artist(item)),
        ClientMessage::Radio { item } => given.ask_library(LibraryCall::Radio(item)),
        ClientMessage::Similar { item } => given.ask_library(LibraryCall::Similar(item)),
        ClientMessage::Mixes { service } => given.ask_library(
            LibraryCall::Mixes(tidal_unless(service)),
        ),
        ClientMessage::Mix { service, mix } => given.ask_library(
            LibraryCall::Mix { service: tidal_unless(service), mix },
        ),
        ClientMessage::Save { item } => given.ask_library(LibraryCall::Save(item)),
        ClientMessage::Unsave { item } => given.ask_library(LibraryCall::Unsave(item)),
        ClientMessage::Library { kind, query, limit, offset } => given.ask_library(
            LibraryCall::Page { kind, query, limit: default_unless(limit, LIBRARY_PAGE), offset },
        ),
        ClientMessage::Import { service } => given.ask_library(
            LibraryCall::Import(tidal_unless(service)),
        ),
        ClientMessage::Playlist { playlist } => given.ask_library(LibraryCall::Playlist(playlist)),
        ClientMessage::PlaylistCreate { name, items } => given.ask_library(
            LibraryCall::PlaylistCreate { name, items },
        ),
        ClientMessage::PlaylistRename { playlist, name } => given.ask_library(
            LibraryCall::PlaylistRename { playlist, name },
        ),
        ClientMessage::PlaylistDelete { playlist } => given.ask_library(
            LibraryCall::PlaylistDelete(playlist),
        ),
        ClientMessage::PlaylistAdd { playlist, items, at } => given.ask_library(
            LibraryCall::PlaylistAdd { playlist, items, at },
        ),
        ClientMessage::PlaylistRemove { playlist, index } => given.ask_library(
            LibraryCall::PlaylistRemove { playlist, index },
        ),
        ClientMessage::PlaylistMove { playlist, from, to } => given.ask_library(
            LibraryCall::PlaylistMove { playlist, from, to },
        ),
        ClientMessage::Jump { index } => Plan::Command(Command::Jump(index)),
        ClientMessage::Remove { index } => Plan::Command(Command::Remove(index)),
        ClientMessage::Move { from, to } => Plan::Command(Command::Move { from, to }),
        ClientMessage::Shuffle => Plan::Shuffle,
        ClientMessage::Repeat { mode } => Plan::Command(Command::SetRepeat(mode)),
        ClientMessage::LoginBegin { service } => given.ask_session(service, SessionCall::Begin),
        ClientMessage::LoginPoll { service } => given.ask_session(service, SessionCall::Poll),
        ClientMessage::Account { service } => given.ask_session(service, SessionCall::Account),
    }
}

/// The command that queues `tracks` where a client asked for them.
pub fn queue_command(tracks: Vec<TrackRef>, at: QueueAt, start: usize) -> (command: Command)
    ensures
        command == match at {
            QueueAt::End => Command::EnqueueMany(tracks),
            QueueAt::Next => Command::PlayNext(tracks),
            QueueAt::Now => Command::Replace { tracks, start },
        },
{
    match at {
        QueueAt::End => Command::EnqueueMany(tracks),
        QueueAt::Next => Command::PlayNext(tracks),
        QueueAt::Now => Command::Replace { tracks, start },
    }
}

/// The command that plays a track a client named, now or after the rest.
pub fn track_command(track: TrackRef, append: bool) -> (command: Command)
    ensures
        command == if append {
            Command::Enqueue(track)
        } else {
            Command::Load(track)
        },
{
    if append {
        Command::Enqueue(track)
    } else {
        Command::Load(track)
    }
}

/// The reply to a request for the queue.
pub fn queue_reply(id: Option<u64>, queue: QueueSnapshot) -> (message: ServerMessage)
    ensures
        message == (ServerMessage::Reply {
            id,
            ok: true,
            result: Some(
                ReplyData::Queue {
                    revision: queue.revision,
                    index: queue.index,
                    tracks: queue.tracks,
                },
            ),
            error: None,
        }),
{
    ServerMessage::ok(
        id,
        ReplyData::Queue { revision: queue.revision, index: queue.index, tracks: queue.tracks },
    )
}

/// The reply to a request that was refused.
pub fn refuse(id: Option<u64>, refusal: Refusal) -> (message: ServerMessage)
    ensures
        message.fails(id, refusal.text()),
{
    ServerMessage::err(id, refusal.message())
}

/// A daemon without a library refuses exactly what needs one; everything about the player still
/// works.
pub proof fn without_a_library_the_player_still_obeys(
    message: ClientMessage,
    given: Available,
    plan: Plan,
    bare: Plan,
)
    requires
        given.library,
        asks(message, given, plan),
        asks(message, (Available { library: false, ..given }), bare),
    ensures
        plan is Command || plan is Shuffle || plan is Sinks || plan is Queue ==> bare == plan,
        plan is Library || plan is Tracks || plan is Track ==> bare == Plan::Refuse(
            Refusal::NoLibrary,
        ),
{
}

/// What the player is told is what the client asked of it, with or without a library.
pub proof fn the_player_is_told_what_was_asked(
    message: ClientMessage,
    given: Available,
    plan: Plan,
)
    requires
        asks(message, given, plan),
    ensures
        message is Play ==> plan == Plan::Command(Command::Play),
        message is Pause ==> plan == Plan::Command(Command::Pause),
        message is Stop ==> plan == Plan::Command(Command::Stop),
        message is Next ==> plan == Plan::Command(Command::Next),
        message is Previous ==> plan == Plan::Command(Command::Previous),
        message is Clear ==> plan == Plan::Command(Command::Clear),
        message is Shuffle ==> plan is Shuffle,
        message is ListSinks ==> plan is Sinks,
        message is Queue ==> plan is Queue,
        message matches ClientMessage::Seek { position_ms } ==> (plan matches Plan::Command(
            Command::Seek(to),
        ) && to.nanos == position_ms * 1_000_000),
        message matches ClientMessage::SetVolume { volume } ==> plan == Plan::Command(
            Command::SetVolume(volume),
        ),
        message matches ClientMessage::SetMuted { muted } ==> plan == Plan::Command(
            Command::SetMuted(muted),
        ),
        message matches ClientMessage::SelectSink { sink } ==> plan == Plan::Command(
            Command::SelectSink(SinkId(sink)),
        ),
        message matches ClientMessage::Jump { index } ==> plan == Plan::Command(
            Command::Jump(index),
        ),
        message matches ClientMessage::Remove { index } ==> plan == Plan::Command(
            Command::Remove(index),
        ),
        message matches ClientMessage::Move { from, to } ==> plan == Plan::Command(
            Command::Move { from, to },
        ),
        message matches ClientMessage::Repeat { mode } ==> plan == Plan::Command(
            Command::SetRepeat(mode),
        ),
{
}

/// What the library is asked is what the client asked, of Tidal where it names no service, for ten
/// results or fifty entries where it names no number.
pub proof fn the_library_is_asked_what_was_asked(
    message: ClientMessage,
    given: Available,
    plan: Plan,
)
    requires
        given.library,
        asks(message, given, plan),
    ensures
        message matches ClientMessage::Search { query, service, limit } ==> plan == Plan::Library(
            LibraryCall::Search {
                service: if service is Some {
                    service->0
                } else {
                    Service::Tidal
                },
                query,
                limit: if limit is Some {
                    limit->0
                } else {
                    10
                },
            },
        ),
        message matches ClientMessage::Library { kind, query, limit, offset } ==> plan
            == Plan::Library(
            LibraryCall::Page {
                kind,
                query,
                limit: if limit is Some {
                    limit->0
                } else {
                    50
                },
                offset,
            },
        ),
        message matches ClientMessage::QueueAdd { items, at, start } ==> plan == (Plan::Tracks {
            items,
            at,
            start,
        }),
        message matches ClientMessage::PlayTrack { service: Service::Tidal, track_id } ==> (
        plan matches Plan::Track { binding, append } && !append && binding@ == SourceView::Tidal(
            track_id@,
        )),
        message matches ClientMessage::Enqueue { service: Service::Tidal, track_id } ==> (
        plan matches Plan::Track { binding, append } && append && binding@ == SourceView::Tidal(
            track_id@,
        )),
        message matches ClientMessage::PlayTrack { service: Service::Spotify, track_id } ==> (
        plan matches Plan::Track { binding, append } && !append && binding@ == SourceView::Spotify(
            track_id@,
        )),
        message matches ClientMessage::Enqueue { service: Service::Spotify, track_id } ==> (
        plan matches Plan::Track { binding, append } && append && binding@ == SourceView::Spotify(
            track_id@,
        )),
        message matches ClientMessage::Album { item } ==> plan == Plan::Library(
            LibraryCall::Album(item),
        ),
        message matches ClientMessage::Artist { item } ==> plan == Plan::Library(
            LibraryCall::Artist(item),
        ),
        message matches ClientMessage::Radio { item } ==> plan == Plan::Library(
            LibraryCall::Radio(item),
        ),
        message matches ClientMessage::Similar { item } ==> plan == Plan::Library(
            LibraryCall::Similar(item),
        ),
        message matches ClientMessage::Save { item } ==> plan == Plan::Library(
            LibraryCall::Save(item),
        ),
        message matches ClientMessage::Unsave { item } ==> plan == Plan::Library(
            LibraryCall::Unsave(item),
        ),
        message matches ClientMessage::Import { service } ==> plan == Plan::Library(
            LibraryCall::Import(
                if service is Some {
                    service->0
                } else {
                    Service::Tidal
                },
            ),
        ),
        message matches ClientMessage::Playlist { playlist } ==> plan == Plan::Library(
            LibraryCall::Playlist(playlist),
        ),
        message matches ClientMessage::PlaylistCreate { name, items } ==> plan == Plan::Library(
            LibraryCall::PlaylistCreate { name, items },
        ),
        message matches ClientMessage::PlaylistRename { playlist, name } ==> plan == Plan::Library(
            LibraryCall::PlaylistRename { playlist, name },
        ),
        message matches ClientMessage::PlaylistDelete { playlist } ==> plan == Plan::Library(
            LibraryCall::PlaylistDelete(playlist),
        ),
        message matches ClientMessage::PlaylistAdd { playlist, items, at } ==> plan
            == Plan::Library(LibraryCall::PlaylistAdd { playlist, items, at }),
        message matches ClientMessage::PlaylistRemove { playlist, index } ==> plan == Plan::Library(
            LibraryCall::PlaylistRemove { playlist, index },
        ),
        message matches ClientMessage::PlaylistMove { playlist, from, to } ==> plan
            == Plan::Library(LibraryCall::PlaylistMove { playlist, from, to }),
{
}

/// A service is logged in to only where there is a session for it; otherwise the client is told so.
pub proof fn sessions_are_asked_where_there_are_any(
    given: Available,
    service: Service,
    begun: Plan,
    polled: Plan,
    account: Plan,
)
    requires
        asks(ClientMessage::LoginBegin { service: Some(service) }, given, begun),
        asks(ClientMessage::LoginPoll { service: Some(service) }, given, polled),
        asks(ClientMessage::Account { service: Some(service) }, given, account),
    ensures
        given.sessions@.contains(service) ==> begun == (Plan::Session {
            service,
            call: SessionCall::Begin,
        }) && polled == (Plan::Session { service, call: SessionCall::Poll }) && account == (
        Plan::Session { service, call: SessionCall::Account }),
        !given.sessions@.contains(service) ==> begun == Plan::Refuse(Refusal::NoSession(service))
            && polled == begun && account == begun,
{
}

} // verus!
