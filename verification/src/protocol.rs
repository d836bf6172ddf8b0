//! What clients say to the daemon and what it says back, one message per frame.
//!
//! On connect the daemon says hello and sends the full snapshot; it sends another on every change,
//! and one reply to each request, carrying the request's own `id` if it had one.

use vstd::prelude::*;

use crate::command::{Repeat, Volume};
use crate::error::Result;
use crate::id::{EntityId, Service};
use crate::model::{EntityKind, ItemRef};
use crate::player::PlayerSnapshot;
use crate::session::{Account, DeviceCode, LoginStatus};
use crate::settings::Settings;
use crate::sink::SinkInfo;
use crate::track::TrackRef;
use crate::view::{
    AlbumDetail, ArtistDetail, ArtistView, ImportReport, LibraryPage, MixView, PlaylistDetail,
    SearchView, TrackView,
};

verus! {

/// The protocol version announced in the greeting. Moves on a breaking change.
pub const PROTOCOL_VERSION: u32 = 1;

/// Where a queue addition puts its tracks.
#[derive(Debug, Clone, Copy, PartialEq, Eq, Structural)]
pub enum QueueAt {
    /// After everything already queued.
    End,
    /// Right after the current entry.
    Next,
    /// Instead of the queue, starting now.
    Now,
}

impl Default for QueueAt {
    fn default() -> (at: Self)
        ensures
            at == QueueAt::End,
    {
        QueueAt::End
    }
}

/// The operations a client can invoke.
#[derive(Debug, PartialEq, Eq)]
#[allow(inconsistent_fields)]
pub enum ClientMessage {
    Play,
    Pause,
    Stop,
    Seek { position_ms: u64 },
    SetVolume { volume: Volume },
    SetMuted { muted: bool },
    SelectSink { sink: String },
    /// List the selectable outputs.
    ListSinks,
    /// The queue's contents. Its position and revision ride on every snapshot.
    Queue,
    /// The current settings.
    Settings,
    /// Replace the settings whole.
    SetSettings { settings: Settings },
    /// Play a track named by service and track id, replacing the queue.
    PlayTrack { service: Service, track_id: String },
    /// Append a track to the queue.
    Enqueue { service: Service, track_id: String },
    Next,
    Previous,
    /// Clear the queue and stop.
    Clear,
    /// Add what `items` name to the queue: at the end, right after the current entry, or in place
    /// of the whole queue, starting at the `start`th of the new tracks.
    QueueAdd { items: Vec<ItemRef>, at: QueueAt, start: usize },
    /// Search a service's catalog for tracks, albums and artists.
    Search { query: String, service: Option<Service>, limit: Option<usize> },
    /// An album and its tracklist.
    Album { item: ItemRef },
    /// An artist, their releases, and their top tracks.
    Artist { item: ItemRef },
    /// Tracks like a track or an artist.
    Radio { item: ItemRef },
    /// Artists like an artist.
    Similar { item: ItemRef },
    /// The mixes a service made for the user.
    Mixes { service: Option<Service> },
    /// A mix's tracks.
    Mix { service: Option<Service>, mix: String },
    /// Put what `item` names in the library.
    Save { item: ItemRef },
    /// Take what `item` names out of the library.
    Unsave { item: ItemRef },
    /// A page of the saved library of one kind, newest first, filtered if asked.
    Library { kind: EntityKind, query: Option<String>, limit: Option<usize>, offset: usize },
    /// Bring the user's favorites and playlists in from a service.
    Import { service: Option<Service> },
    /// A playlist and its tracks.
    Playlist { playlist: EntityId },
    /// A new playlist holding `items`.
    PlaylistCreate { name: String, items: Vec<ItemRef> },
    PlaylistRename { playlist: EntityId, name: String },
    PlaylistDelete { playlist: EntityId },
    /// Add `items` to a playlist at position `at` (the end if there is none).
    PlaylistAdd { playlist: EntityId, items: Vec<ItemRef>, at: Option<usize> },
    PlaylistRemove { playlist: EntityId, index: usize },
    PlaylistMove { playlist: EntityId, from: usize, to: usize },
    /// Start the queue entry at `index`.
    Jump { index: usize },
    /// Remove the queue entry at `index`.
    Remove { index: usize },
    /// Move the queue entry at `from` so it sits at `to`.
    Move { from: usize, to: usize },
    /// Shuffle what comes after the current entry.
    Shuffle,
    /// Set what follows the end of a track.
    Repeat { mode: Repeat },
    /// Begin a device-code login.
    LoginBegin { service: Option<Service> },
    /// Poll the outstanding login once.
    LoginPoll { service: Option<Service> },
    /// Who the service says the user is.
    Account { service: Option<Service> },
}

/// A client frame: an optional correlation `id` and the operation itself.
#[derive(Debug, PartialEq, Eq)]
pub struct ClientEnvelope {
    pub id: Option<u64>,
    pub message: ClientMessage,
}

/// The payload of a successful reply.
#[derive(Debug, PartialEq, Eq)]
#[allow(inconsistent_fields)]
pub enum ReplyData {
    /// A command was accepted.
    Ack,
    DeviceCode(DeviceCode),
    Login { status: LoginStatus },
    Account(Account),
    /// The selectable outputs, local first.
    Sinks { sinks: Vec<SinkInfo> },
    Settings { settings: Settings },
    Search(SearchView),
    Album(AlbumDetail),
    Artist(ArtistDetail),
    Tracks { tracks: Vec<TrackView> },
    Artists { artists: Vec<ArtistView> },
    Mixes { mixes: Vec<MixView> },
    Playlist(PlaylistDetail),
    Imported(ImportReport),
    Library(LibraryPage),
    /// The queue's entries, the current index, and the revision they are as of.
    Queue { revision: u64, index: usize, tracks: Vec<TrackRef> },
}

/// A server frame.
#[derive(Debug, PartialEq, Eq)]
pub enum ServerMessage {
    /// Sent once on connect.
    Hello { protocol: u32 },
    /// The full authoritative snapshot.
    Snapshot { snapshot: PlayerSnapshot },
    /// The response to one client request.
    Reply {
        /// The request's `id`, if it carried one.
        id: Option<u64>,
        ok: bool,
        result: Option<ReplyData>,
        error: Option<String>,
    },
}

impl ServerMessage {
    /// Whether this is a failed reply to the request `id`, saying `why`.
    pub open spec fn fails(self, id: Option<u64>, why: Seq<char>) -> bool {
        match self {
            ServerMessage::Reply { id: to, ok, result, error } => to == id && !ok && result is None
                && error is Some && error->0@ == why,
            _ => false,
        }
    }

    /// The greeting.
    pub fn hello() -> (message: Self)
        ensures
            message == (ServerMessage::Hello { protocol: PROTOCOL_VERSION }),
    {
        ServerMessage::Hello { protocol: PROTOCOL_VERSION }
    }

    /// A successful reply carrying data.
    pub fn ok(id: Option<u64>, result: ReplyData) -> (message: Self)
        ensures
            message == (ServerMessage::Reply { id, ok: true, result: Some(result), error: None }),
    {
        ServerMessage::Reply { id, ok: true, result: Some(result), error: None }
    }

    /// A successful reply with nothing to say.
    pub fn ack(id: Option<u64>) -> (message: Self)
        ensures
            message == (ServerMessage::Reply {
                id,
                ok: true,
                result: Some(ReplyData::Ack),
                error: None,
            }),
    {
        ServerMessage::Reply { id, ok: true, result: Some(ReplyData::Ack), error: None }
    }

    /// A failed reply.
    pub fn err(id: Option<u64>, why: String) -> (message: Self)
        ensures
            message.fails(id, why@),
    {
        ServerMessage::Reply { id, ok: false, result: None, error: Some(why) }
    }

    /// The reply to a request, given what it came to.
    pub fn reply(id: Option<u64>, outcome: Result<ReplyData>) -> (message: Self)
        ensures
            match outcome {
                Ok(data) => message == (ServerMessage::Reply {
                    id,
                    ok: true,
                    result: Some(data),
                    error: None,
                }),
                Err(e) => message.fails(id, e@.message()),
            },
    {
        match outcome {
            Ok(data) => ServerMessage::ok(id, data),
            Err(e) => ServerMessage::err(id, e.message()),
        }
    }

    /// The reply to a command, given what it came to.
    pub fn reply_to_command(id: Option<u64>, outcome: Result<()>) -> (message: Self)
        ensures
            match outcome {
                Ok(_) => message == (ServerMessage::Reply {
                    id,
                    ok: true,
                    result: Some(ReplyData::Ack),
                    error: None,
                }),
                Err(e) => message.fails(id, e@.message()),
            },
    {
        match outcome {
            Ok(_) => ServerMessage::ack(id),
            Err(e) => ServerMessage::err(id, e.message()),
        }
    }

    /// The reply to a frame that could not be read, given why.
    pub fn bad_request(why: &str) -> (message: Self)
        ensures
            message.fails(None, "bad request: "@ + why@),
    {
        ServerMessage::err(None, crate::text::concat("bad request: ", why))
    }
}

} // verus!
