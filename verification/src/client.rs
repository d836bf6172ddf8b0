//! The line-oriented client: what each typed line asks for.
//!
//! One command per line, so the same client serves a person at a terminal and a script driving the
//! daemon through a pipe. Nothing here sends anything: a line and what the client has seen so far
//! come to what to ask.

use vstd::arithmetic::power2::{lemma_pow2_pos, lemma_pow2_strictly_increases, pow2};
use vstd::prelude::*;
use vstd::string::*;

use crate::amount::{
    amount, parse_seek, parse_volume, read_amount, size_of, sought, typed_volume, Amount, Reading,
};
use crate::binary::{in_steps, DOUBLE_DIGITS, DOUBLE_PLACES};
use crate::command::{Repeat, Volume};
use crate::id::Service;
use crate::line::{
    after_prefix, is_char, is_space, is_text, lists_view, only_digits, position, read_whole,
    rsplit_at_char, rsplit_once, split_at_char, split_at_space, split_once, split_words,
    strip_prefix, trim, trimmed, typed_position, whole, words,
};
use crate::model::EntityKind;
use crate::protocol::QueueAt;
use crate::settings::OutputMode;
use crate::text::{all_digits, chars_of, concat, opt_text, string_of};
use crate::time::{span_of, Duration};

verus! {

/// Something a line names.
#[derive(Debug, PartialEq, Eq)]
pub enum Item {
    /// A library entity, by its id.
    Entity(String),
    /// Something on a service, by the service's own id. Without a kind it is a track.
    OnService { service: Service, id: String, kind: Option<EntityKind> },
    /// A service's personal mix. It may say what it was asked for as, though a mix is no entity.
    Mix { service: Service, mix: String, kind: Option<EntityKind> },
}

/// What an [`Item`] says.
pub enum ItemView {
    Entity(Seq<char>),
    OnService { service: Service, id: Seq<char>, kind: Option<EntityKind> },
    Mix { service: Service, mix: Seq<char>, kind: Option<EntityKind> },
}

impl View for Item {
    type V = ItemView;

    open spec fn view(&self) -> ItemView {
        match self {
            Item::Entity(id) => ItemView::Entity(id@),
            Item::OnService { service, id, kind } => ItemView::OnService {
                service: *service,
                id: id@,
                kind: *kind,
            },
            Item::Mix { service, mix, kind } => ItemView::Mix {
                service: *service,
                mix: mix@,
                kind: *kind,
            },
        }
    }
}

impl Clone for Item {
    fn clone(&self) -> (copy: Self)
        ensures
            copy == *self,
    {
        match self {
            Item::Entity(id) => Item::Entity(id.clone()),
            Item::OnService { service, id, kind } => Item::OnService {
                service: *service,
                id: id.clone(),
                kind: *kind,
            },
            Item::Mix { service, mix, kind } => Item::Mix {
                service: *service,
                mix: mix.clone(),
                kind: *kind,
            },
        }
    }
}

pub open spec fn items_view(all: Seq<Item>) -> Seq<ItemView> {
    all.map_values(|i: Item| i@)
}

/// What the client has seen so far.
#[derive(Debug, PartialEq, Eq)]
pub struct Desk {
    /// The items of the last numbered listing, which `#n` names.
    pub listing: Vec<Item>,
    /// The track playing now.
    pub playing: Option<String>,
    pub position_ms: u64,
    pub volume: Volume,
    /// The playlist the `pl` verbs act on: its id and name.
    pub playlist: Option<(String, String)>,
}

/// What a [`Desk`] says.
pub struct DeskView {
    pub listing: Seq<ItemView>,
    pub playing: Option<Seq<char>>,
    pub position_ms: u64,
    pub volume: Volume,
    /// The chosen playlist's id and name.
    pub playlist: Option<(Seq<char>, Seq<char>)>,
}

impl View for Desk {
    type V = DeskView;

    open spec fn view(&self) -> DeskView {
        DeskView {
            listing: items_view(self.listing@),
            playing: opt_text(self.playing),
            position_ms: self.position_ms,
            volume: self.volume,
            playlist: match self.playlist {
                Some((id, name)) => Some((id@, name@)),
                None => None,
            },
        }
    }
}

/// The verb a line starts with.
#[derive(Debug, Clone, Copy, PartialEq, Eq, Structural)]
pub enum Verb {
    Nothing,
    Quit,
    Help,
    Play,
    Add,
    PlayNext,
    Jump,
    Remove,
    Move,
    Search,
    Album,
    Artist,
    PlayFrom,
    Radio,
    Similar,
    Mixes,
    Mix,
    Autoplay,
    SpotifyApp,
    Save,
    Unsave,
    Library,
    Playlist,
    Services,
    Connect,
    Disconnect,
    Import,
    Shuffle,
    Repeat,
    Pause,
    Stop,
    Next,
    Previous,
    Clear,
    Mute,
    Unmute,
    Seek,
    Volume,
    Sinks,
    Queue,
    Settings,
    Mode,
    Sink,
    Status,
    Sleep,
    Other,
}

/// The verb `s` is.
pub open spec fn verb_of(s: Seq<char>) -> Verb {
    if s == ""@ || s == "#"@ {
        Verb::Nothing
    } else if s == "quit"@ || s == "exit"@ || s == "q"@ {
        Verb::Quit
    } else if s == "help"@ || s == "?"@ {
        Verb::Help
    } else if s == "play"@ {
        Verb::Play
    } else if s == "add"@ || s == "enqueue"@ {
        Verb::Add
    } else if s == "playnext"@ || s == "next-up"@ {
        Verb::PlayNext
    } else if s == "jump"@ {
        Verb::Jump
    } else if s == "rm"@ || s == "remove"@ {
        Verb::Remove
    } else if s == "mv"@ || s == "move"@ {
        Verb::Move
    } else if s == "search"@ || s == "find"@ {
        Verb::Search
    } else if s == "album"@ {
        Verb::Album
    } else if s == "artist"@ {
        Verb::Artist
    } else if s == "playfrom"@ {
        Verb::PlayFrom
    } else if s == "radio"@ {
        Verb::Radio
    } else if s == "similar"@ {
        Verb::Similar
    } else if s == "mixes"@ {
        Verb::Mixes
    } else if s == "mix"@ {
        Verb::Mix
    } else if s == "autoplay"@ {
        Verb::Autoplay
    } else if s == "spotify-app"@ {
        Verb::SpotifyApp
    } else if s == "save"@ {
        Verb::Save
    } else if s == "unsave"@ {
        Verb::Unsave
    } else if s == "library"@ || s == "lib"@ {
        Verb::Library
    } else if s == "pl"@ || s == "playlist"@ {
        Verb::Playlist
    } else if s == "services"@ {
        Verb::Services
    } else if s == "connect"@ {
        Verb::Connect
    } else if s == "disconnect"@ {
        Verb::Disconnect
    } else if s == "import"@ {
        Verb::Import
    } else {
        later_verb_of(s)
    }
}

/// The verb `s` is, if none of the others.
pub open spec fn later_verb_of(s: Seq<char>) -> Verb {
    if s == "shuffle"@ {
        Verb::Shuffle
    } else if s == "repeat"@ {
        Verb::Repeat
    } else if s == "pause"@ {
        Verb::Pause
    } else if s == "stop"@ {
        Verb::Stop
    } else if s == "next"@ {
        Verb::Next
    } else if s == "prev"@ || s == "previous"@ {
        Verb::Previous
    } else if s == "clear"@ {
        Verb::Clear
    } else if s == "mute"@ {
        Verb::Mute
    } else if s == "unmute"@ {
        Verb::Unmute
    } else if s == "seek"@ {
        Verb::Seek
    } else if s == "vol"@ || s == "volume"@ {
        Verb::Volume
    } else if s == "sinks"@ {
        Verb::Sinks
    } else if s == "queue"@ {
        Verb::Queue
    } else if s == "settings"@ {
        Verb::Settings
    } else if s == "mode"@ {
        Verb::Mode
    } else if s == "sink"@ {
        Verb::Sink
    } else if s == "status"@ {
        Verb::Status
    } else if s == "sleep"@ || s == "watch"@ {
        Verb::Sleep
    } else {
        Verb::Other
    }
}

fn read_verb(s: &Vec<char>) -> (verb: Verb)
    ensures
        verb == verb_of(s@),
{
    if is_text(s, "") || is_text(s, "#") {
        Verb::Nothing
    } else if is_text(s, "quit") || is_text(s, "exit") || is_text(s, "q") {
        Verb::Quit
    } else if is_text(s, "help") || is_text(s, "?") {
        Verb::Help
    } else if is_text(s, "play") {
        Verb::Play
    } else if is_text(s, "add") || is_text(s, "enqueue") {
        Verb::Add
    } else if is_text(s, "playnext") || is_text(s, "next-up") {
        Verb::PlayNext
    } else if is_text(s, "jump") {
        Verb::Jump
    } else if is_text(s, "rm") || is_text(s, "remove") {
        Verb::Remove
    } else if is_text(s, "mv") || is_text(s, "move") {
        Verb::Move
    } else if is_text(s, "search") || is_text(s, "find") {
        Verb::Search
    } else if is_text(s, "album") {
        Verb::Album
    } else if is_text(s, "artist") {
        Verb::Artist
    } else if is_text(s, "playfrom") {
        Verb::PlayFrom
    } else if is_text(s, "radio") {
        Verb::Radio
    } else if is_text(s, "similar") {
        Verb::Similar
    } else if is_text(s, "mixes") {
        Verb::Mixes
    } else if is_text(s, "mix") {
        Verb::Mix
    } else if is_text(s, "autoplay") {
        Verb::Autoplay
    } else if is_text(s, "spotify-app") {
        Verb::SpotifyApp
    } else if is_text(s, "save") {
        Verb::Save
    } else if is_text(s, "unsave") {
        Verb::Unsave
    } else if is_text(s, "library") || is_text(s, "lib") {
        Verb::Library
    } else if is_text(s, "pl") || is_text(s, "playlist") {
        Verb::Playlist
    } else if is_text(s, "services") {
        Verb::Services
    } else if is_text(s, "connect") {
        Verb::Connect
    } else if is_text(s, "disconnect") {
        Verb::Disconnect
    } else if is_text(s, "import") {
        Verb::Import
    } else {
        read_later_verb(s)
    }
}

fn read_later_verb(s: &Vec<char>) -> (verb: Verb)
    ensures
        verb == later_verb_of(s@),
{
    if is_text(s, "shuffle") {
        Verb::Shuffle
    } else if is_text(s, "repeat") {
        Verb::Repeat
    } else if is_text(s, "pause") {
        Verb::Pause
    } else if is_text(s, "stop") {
        Verb::Stop
    } else if is_text(s, "next") {
        Verb::Next
    } else if is_text(s, "prev") || is_text(s, "previous") {
        Verb::Previous
    } else if is_text(s, "clear") {
        Verb::Clear
    } else if is_text(s, "mute") {
        Verb::Mute
    } else if is_text(s, "unmute") {
        Verb::Unmute
    } else if is_text(s, "seek") {
        Verb::Seek
    } else if is_text(s, "vol") || is_text(s, "volume") {
        Verb::Volume
    } else if is_text(s, "sinks") {
        Verb::Sinks
    } else if is_text(s, "queue") {
        Verb::Queue
    } else if is_text(s, "settings") {
        Verb::Settings
    } else if is_text(s, "mode") {
        Verb::Mode
    } else if is_text(s, "sink") {
        Verb::Sink
    } else if is_text(s, "status") {
        Verb::Status
    } else if is_text(s, "sleep") || is_text(s, "watch") {
        Verb::Sleep
    } else {
        Verb::Other
    }
}

/// Sent without waiting for an answer.
#[derive(Debug, Clone, Copy, PartialEq, Eq, Structural)]
pub enum Transport {
    Play,
    Pause,
    Stop,
    Next,
    Previous,
    Clear,
    Muted(bool),
    Seek(u64),
    Volume(Volume),
}

/// Asked, and the answer waited for.
#[derive(Debug, Clone, Copy, PartialEq, Eq, Structural)]
pub enum Ask {
    Jump(usize),
    Remove(usize),
    Move { from: usize, to: usize },
    /// Queue the whole last listing, starting at an entry.
    PlayFrom(usize),
    Mixes,
    Autoplay(bool),
    Services,
    Shuffle,
    Repeat(Repeat),
    Sinks,
    Queue,
    Settings,
}

/// What is asked about an item.
#[derive(Debug, Clone, Copy, PartialEq, Eq, Structural)]
pub enum About {
    Album,
    Artist,
    Radio,
    Similar,
    Save,
    Unsave,
}

/// What is asked with a text.
#[derive(Debug, Clone, Copy, PartialEq, Eq, Structural)]
pub enum With {
    Search,
    SpotifyApp,
    Connect,
    Disconnect,
    Sink,
    /// Bring things in from a service; Tidal if none is named.
    Import,
}

/// What a `pl` line asks for.
#[derive(Debug, PartialEq, Eq)]
pub enum PlaylistAsk {
    /// List the playlists whose names contain the text, or all of them.
    List(String),
    New(String),
    FromQueue(String),
    Use(String),
    /// Something about the chosen playlist, named by its id.
    Chosen { playlist: String, what: ChosenAsk },
}

/// What a `pl` line asks of the chosen playlist.
#[derive(Debug, PartialEq, Eq)]
pub enum ChosenAsk {
    Show,
    Play,
    Add(Vec<Item>),
    Remove(usize),
    Move { from: usize, to: usize },
    Rename(String),
    Delete,
}

/// What a line asks for.
#[derive(Debug, PartialEq, Eq)]
#[allow(inconsistent_fields)]
pub enum Typed {
    Nothing,
    Quit,
    Help,
    Status,
    /// Tell the user.
    Say(String),
    Transport(Transport),
    Ask(Ask),
    Queue { items: Vec<Item>, at: QueueAt },
    About { what: About, item: Item },
    Mix { service: Service, mix: String },
    With { what: With, text: String },
    /// Finish a browser login with the URL it landed on.
    Finish { method: String, redirect: String },
    Library { kind: EntityKind, query: String },
    Mode { output: String, mode: OutputMode },
    /// Go on watching for so long.
    Sleep(Duration),
    Playlist(PlaylistAsk),
}

/// What a [`PlaylistAsk`] says.
pub enum PlaylistAskView {
    List(Seq<char>),
    New(Seq<char>),
    FromQueue(Seq<char>),
    Use(Seq<char>),
    Chosen { playlist: Seq<char>, what: ChosenAskView },
}

/// What a [`ChosenAsk`] says.
pub enum ChosenAskView {
    Show,
    Play,
    Add(Seq<ItemView>),
    Remove(int),
    Move { from: int, to: int },
    Rename(Seq<char>),
    Delete,
}

impl View for ChosenAsk {
    type V = ChosenAskView;

    open spec fn view(&self) -> ChosenAskView {
        match self {
            ChosenAsk::Show => ChosenAskView::Show,
            ChosenAsk::Play => ChosenAskView::Play,
            ChosenAsk::Add(items) => ChosenAskView::Add(items_view(items@)),
            ChosenAsk::Remove(i) => ChosenAskView::Remove(*i as int),
            ChosenAsk::Move { from, to } => ChosenAskView::Move {
                from: *from as int,
                to: *to as int,
            },
            ChosenAsk::Rename(s) => ChosenAskView::Rename(s@),
            ChosenAsk::Delete => ChosenAskView::Delete,
        }
    }
}

impl View for PlaylistAsk {
    type V = PlaylistAskView;

    open spec fn view(&self) -> PlaylistAskView {
        match self {
            PlaylistAsk::List(s) => PlaylistAskView::List(s@),
            PlaylistAsk::New(s) => PlaylistAskView::New(s@),
            PlaylistAsk::FromQueue(s) => PlaylistAskView::FromQueue(s@),
            PlaylistAsk::Use(s) => PlaylistAskView::Use(s@),
            PlaylistAsk::Chosen { playlist, what } => PlaylistAskView::Chosen {
                playlist: playlist@,
                what: what@,
            },
        }
    }
}

/// What a [`Typed`] says.
#[allow(inconsistent_fields)]
pub enum TypedView {
    Nothing,
    Quit,
    Help,
    Status,
    Say(Seq<char>),
    Transport(Transport),
    Ask(Ask),
    Queue { items: Seq<ItemView>, at: QueueAt },
    About { what: About, item: ItemView },
    Mix { service: Service, mix: Seq<char> },
    With { what: With, text: Seq<char> },
    Finish { method: Seq<char>, redirect: Seq<char> },
    Library { kind: EntityKind, query: Seq<char> },
    Mode { output: Seq<char>, mode: OutputMode },
    Sleep(Duration),
    Playlist(PlaylistAskView),
}

impl View for Typed {
    type V = TypedView;

    open spec fn view(&self) -> TypedView {
        match self {
            Typed::Nothing => TypedView::Nothing,
            Typed::Quit => TypedView::Quit,
            Typed::Help => TypedView::Help,
            Typed::Status => TypedView::Status,
            Typed::Say(s) => TypedView::Say(s@),
            Typed::Transport(t) => TypedView::Transport(*t),
            Typed::Ask(a) => TypedView::Ask(*a),
            Typed::Queue { items, at } => TypedView::Queue { items: items_view(items@), at: *at },
            Typed::About { what, item } => TypedView::About { what: *what, item: item@ },
            Typed::Mix { service, mix } => TypedView::Mix { service: *service, mix: mix@ },
            Typed::With { what, text } => TypedView::With { what: *what, text: text@ },
            Typed::Finish { method, redirect } => TypedView::Finish {
                method: method@,
                redirect: redirect@,
            },
            Typed::Library { kind, query } => TypedView::Library { kind: *kind, query: query@ },
            Typed::Mode { output, mode } => TypedView::Mode { output: output@, mode: *mode },
            Typed::Sleep(d) => TypedView::Sleep(*d),
            Typed::Playlist(ask) => TypedView::Playlist(ask@),
        }
    }
}

/// How many bytes `c` takes in UTF-8.
pub open spec fn char_bytes(c: char) -> int {
    if (c as u32) < 0x80 {
        1
    } else if (c as u32) < 0x800 {
        2
    } else if (c as u32) < 0x10000 {
        3
    } else {
        4
    }
}

/// How many bytes `s` takes in UTF-8.
pub open spec fn text_bytes(s: Seq<char>) -> int
    decreases s.len(),
{
    if s.len() == 0 {
        0
    } else {
        text_bytes(s.drop_last()) + char_bytes(s.last())
    }
}

/// How many of `s` are `c`.
pub open spec fn count_of(s: Seq<char>, c: char) -> int
    decreases s.len(),
{
    if s.len() == 0 {
        0
    } else {
        count_of(s.drop_last(), c) + if s.last() == c {
            1int
        } else {
            0int
        }
    }
}

/// Whether `s` has the look of a library id.
pub open spec fn looks_like_id(s: Seq<char>) -> bool {
    text_bytes(s) == 36 && count_of(s, '-') == 4
}

/// What a word names: `#3` the third entry of the last listing, `album:<id>` a Tidal album, a
/// library id the entity, digits a Tidal track. An empty word names nothing.
pub open spec fn named_item(word: Seq<char>, listing: Seq<ItemView>) -> Option<ItemView> {
    match after_prefix(word, "#"@) {
        Some(n) => match whole(n) {
            Some(n) => if 1 <= n <= listing.len() {
                Some(listing[n - 1])
            } else {
                None
            },
            None => None,
        },
        None => match after_prefix(word, "album:"@) {
            Some(id) => Some(
                ItemView::OnService { service: Service::Tidal, id, kind: Some(EntityKind::Album) },
            ),
            None => if looks_like_id(word) {
                Some(ItemView::Entity(word))
            } else if word.len() > 0 && all_digits(word) {
                Some(ItemView::OnService { service: Service::Tidal, id: word, kind: None })
            } else {
                None
            },
        },
    }
}

/// What the first `n` of several words name, if each names something.
pub open spec fn named_items(
    all: Seq<Seq<char>>,
    listing: Seq<ItemView>,
    n: int,
) -> Option<Seq<ItemView>>
    decreases n,
{
    if n <= 0 {
        Some(Seq::empty())
    } else {
        match (named_items(all, listing, n - 1), named_item(all[n - 1], listing)) {
            (Some(before), Some(item)) => Some(before.push(item)),
            _ => None,
        }
    }
}

/// What the words of `s` name, if there are any and each names something.
pub open spec fn items_in(s: Seq<char>, listing: Seq<ItemView>) -> Option<Seq<ItemView>> {
    let all = words(s);
    match named_items(all, listing, all.len() as int) {
        Some(items) => if items.len() > 0 {
            Some(items)
        } else {
            None
        },
        None => None,
    }
}

/// Something on a service where something of `kind` is asked for names one of those, not a track.
pub open spec fn of_kind(item: ItemView, kind: EntityKind) -> ItemView {
    match item {
        ItemView::OnService { service, id, kind: _ } => ItemView::OnService {
            service,
            id,
            kind: Some(kind),
        },
        ItemView::Mix { service, mix, kind: _ } => ItemView::Mix { service, mix, kind: Some(kind) },
        ItemView::Entity(id) => ItemView::Entity(id),
    }
}

/// The track playing now, or what `rest` names.
pub open spec fn item_or_playing(desk: DeskView, rest: Seq<char>) -> Option<ItemView> {
    if rest.len() == 0 {
        match desk.playing {
            Some(id) => Some(ItemView::Entity(id)),
            None => None,
        }
    } else {
        named_item(rest, desk.listing)
    }
}

/// A line split into its verb and the rest.
pub open spec fn verb_and_rest(line: Seq<char>) -> (Seq<char>, Seq<char>) {
    match split_once(trimmed(line), is_space()) {
        Some((verb, rest)) => (verb, trimmed(rest)),
        None => (trimmed(line), Seq::empty()),
    }
}

/// `s` split at the first space, with nothing after it where there is none.
pub open spec fn first_and_rest(s: Seq<char>) -> (Seq<char>, Seq<char>) {
    match split_once(s, is_char(' ')) {
        Some((first, rest)) => (first, rest),
        None => (s, Seq::empty()),
    }
}

/// Two positions, as indexes.
pub open spec fn two_positions(s: Seq<char>) -> Option<(int, int)> {
    match split_once(s, is_char(' ')) {
        Some((a, b)) => match (typed_position(a), typed_position(b)) {
            (Some(from), Some(to)) => Some((from, to)),
            _ => None,
        },
        None => None,
    }
}

/// What to queue, where, or how to say it.
pub open spec fn queued(desk: DeskView, rest: Seq<char>, at: QueueAt) -> TypedView {
    match items_in(rest, desk.listing) {
        Some(items) => TypedView::Queue { items, at },
        None => TypedView::Say(queue_usage()),
    }
}

pub open spec fn queue_usage() -> Seq<char> {
    "usage: play|add|playnext <item>...  (a Tidal track id, album:<id>, a canon id, or #n from the last listing)"@
}

/// Something asked about an item, or how to say it.
pub open spec fn about(what: About, item: Option<ItemView>, usage: Seq<char>) -> TypedView {
    match item {
        Some(item) => TypedView::About { what, item },
        None => TypedView::Say(usage),
    }
}

/// Which saved things to list, and the words to look for among them.
pub open spec fn library_words(rest: Seq<char>) -> (EntityKind, Seq<char>) {
    let (first, query) = first_and_rest(rest);
    if first == "tracks"@ || first == "track"@ || first == ""@ {
        (EntityKind::Track, trimmed(query))
    } else if first == "albums"@ || first == "album"@ {
        (EntityKind::Album, trimmed(query))
    } else if first == "artists"@ || first == "artist"@ {
        (EntityKind::Artist, trimmed(query))
    } else {
        (EntityKind::Track, trimmed(rest))
    }
}

/// What a `pl` line asks for.
pub open spec fn playlist_typed(desk: DeskView, line: Seq<char>) -> TypedView {
    let (verb, after) = first_and_rest(line);
    let rest = trimmed(after);
    if verb == ""@ || verb == "list"@ || verb == "ls"@ {
        TypedView::Playlist(PlaylistAskView::List(rest))
    } else if verb == "new"@ && rest.len() > 0 {
        TypedView::Playlist(PlaylistAskView::New(rest))
    } else if verb == "fromqueue"@ && rest.len() > 0 {
        TypedView::Playlist(PlaylistAskView::FromQueue(rest))
    } else if verb == "use"@ {
        match named_item(rest, desk.listing) {
            Some(ItemView::Entity(id)) => TypedView::Playlist(PlaylistAskView::Use(id)),
            _ => TypedView::Say("usage: pl use <#n | playlist id>  (`pl` lists them)"@),
        }
    } else {
        match desk.playlist {
            None => TypedView::Say("no playlist chosen: `pl new <name>` or `pl use #n` first"@),
            Some((id, _)) => match chosen_playlist_typed(desk, verb, rest) {
                Ok(what) => TypedView::Playlist(PlaylistAskView::Chosen { playlist: id, what }),
                Err(usage) => TypedView::Say(usage),
            },
        }
    }
}

/// What a `pl` line asks of the chosen playlist, or how to say it.
pub open spec fn chosen_playlist_typed(
    desk: DeskView,
    verb: Seq<char>,
    rest: Seq<char>,
) -> std::result::Result<ChosenAskView, Seq<char>> {
    if verb == "show"@ {
        Ok(ChosenAskView::Show)
    } else if verb == "play"@ {
        Ok(ChosenAskView::Play)
    } else if verb == "add"@ {
        match items_in(rest, desk.listing) {
            Some(items) => Ok(ChosenAskView::Add(items)),
            None => Err("usage: pl add <item>..."@),
        }
    } else if verb == "rm"@ {
        match typed_position(rest) {
            Some(index) => Ok(ChosenAskView::Remove(index)),
            None => Err("usage: pl rm <position>"@),
        }
    } else if verb == "mv"@ {
        match two_positions(rest) {
            Some((from, to)) => Ok(ChosenAskView::Move { from, to }),
            None => Err("usage: pl mv <from> <to>"@),
        }
    } else if verb == "rename"@ && rest.len() > 0 {
        Ok(ChosenAskView::Rename(rest))
    } else if verb == "delete"@ {
        Ok(ChosenAskView::Delete)
    } else {
        Err(playlist_usage())
    }
}

/// The id and name that an answer gives a playlist. An answer may leave out either.
pub open spec fn as_answered(id: Option<Seq<char>>, name: Option<Seq<char>>) -> (
    Seq<char>,
    Seq<char>,
) {
    (
        match id {
            Some(id) => id,
            None => Seq::empty(),
        },
        match name {
            Some(name) => name,
            None => "?"@,
        },
    )
}

/// The playlist chosen after `ask` was answered, where `chosen` was before. An ask that was
/// refused has no answer and changes nothing.
pub open spec fn choice_after(
    chosen: Option<(Seq<char>, Seq<char>)>,
    ask: PlaylistAskView,
    answer: Option<(Option<Seq<char>>, Option<Seq<char>>)>,
) -> Option<(Seq<char>, Seq<char>)> {
    match answer {
        None => chosen,
        Some((id, name)) => match ask {
            PlaylistAskView::List(_) => chosen,
            PlaylistAskView::New(_) => Some(as_answered(id, name)),
            PlaylistAskView::FromQueue(_) => Some(as_answered(id, name)),
            PlaylistAskView::Use(_) => Some(as_answered(id, name)),
            PlaylistAskView::Chosen { playlist, what } => match what {
                ChosenAskView::Rename(name) => Some((playlist, name)),
                ChosenAskView::Delete => None,
                _ => chosen,
            },
        },
    }
}

pub open spec fn playlist_usage() -> Seq<char> {
    "usage: pl [list [words]] | new <name> | fromqueue <name> | use <#n> | show | play | add <item>... | rm N | mv A B | rename <name> | delete"@
}

pub open spec fn unknown(verb: Seq<char>) -> TypedView {
    TypedView::Say("unknown command: "@ + verb + " (try `help`)"@)
}

/// How long to go on watching: a number of seconds that can be counted.
pub open spec fn watch_for(rest: Seq<char>) -> Option<Duration> {
    match amount(rest) {
        Some(Amount::Finite { negative, digits, exponent }) => {
            let secs = size_of(digits, exponent, DOUBLE_DIGITS, DOUBLE_PLACES);
            if (negative && secs > 0) || secs >= in_steps(pow2(64), DOUBLE_PLACES) {
                None
            } else {
                Some(Duration { nanos: span_of(secs) as u128 })
            }
        },
        _ => None,
    }
}

/// What a line asks for.
pub open spec fn line_asks(desk: DeskView, line: Seq<char>) -> TypedView {
    run_verb(desk, verb_and_rest(line).0, verb_and_rest(line).1)
}

/// What a verb and what follows it ask for.
pub open spec fn run_verb(desk: DeskView, verb: Seq<char>, rest: Seq<char>) -> TypedView {
    match verb_of(verb) {
        Verb::Nothing => TypedView::Nothing,
        Verb::Quit => TypedView::Quit,
        Verb::Help => TypedView::Help,
        Verb::Status => TypedView::Status,
        Verb::Play => if rest.len() == 0 {
            TypedView::Transport(Transport::Play)
        } else {
            queued(desk, rest, QueueAt::Now)
        },
        Verb::Add => queued(desk, rest, QueueAt::End),
        Verb::PlayNext => queued(desk, rest, QueueAt::Next),
        Verb::Jump => match typed_position(rest) {
            Some(index) => TypedView::Ask(Ask::Jump(index as usize)),
            None => TypedView::Say("usage: jump <queue position>"@),
        },
        Verb::Remove => match typed_position(rest) {
            Some(index) => TypedView::Ask(Ask::Remove(index as usize)),
            None => TypedView::Say("usage: rm <queue position>"@),
        },
        Verb::Move => match two_positions(rest) {
            Some((from, to)) => TypedView::Ask(Ask::Move { from: from as usize, to: to as usize }),
            None => TypedView::Say("usage: mv <from position> <to position>"@),
        },
        Verb::Search => if rest.len() == 0 {
            TypedView::Say("usage: search <words>"@)
        } else {
            TypedView::With { what: With::Search, text: rest }
        },
        Verb::Album => about(
            About::Album,
            match named_item(rest, desk.listing) {
                Some(item) => Some(of_kind(item, EntityKind::Album)),
                None => None,
            },
            "usage: album <#n | canon id | tidal id>"@,
        ),
        Verb::Artist => about(
            About::Artist,
            match named_item(rest, desk.listing) {
                Some(item) => Some(of_kind(item, EntityKind::Artist)),
                None => None,
            },
            "usage: artist <#n | canon id | tidal id>"@,
        ),
        Verb::PlayFrom => match after_prefix(rest, "#"@) {
            Some(n) => match whole(n) {
                Some(n) => if 1 <= n <= desk.listing.len() {
                    TypedView::Ask(Ask::PlayFrom((n - 1) as usize))
                } else {
                    TypedView::Say(play_from_usage())
                },
                None => TypedView::Say(play_from_usage()),
            },
            None => TypedView::Say(play_from_usage()),
        },
        Verb::Radio => about(
            About::Radio,
            item_or_playing(desk, rest),
            "usage: radio [item]  (no item: the current track)"@,
        ),
        Verb::Similar => about(
            About::Similar,
            match named_item(rest, desk.listing) {
                Some(item) => Some(of_kind(item, EntityKind::Artist)),
                None => None,
            },
            "usage: similar <artist item>"@,
        ),
        Verb::Mixes => TypedView::Ask(Ask::Mixes),
        Verb::Mix => match named_item(rest, desk.listing) {
            Some(ItemView::Mix { service, mix, .. }) => TypedView::Mix { service, mix },
            _ => TypedView::Say("usage: mix #n  (`mixes` lists them)"@),
        },
        Verb::Autoplay => if rest == "on"@ {
            TypedView::Ask(Ask::Autoplay(true))
        } else if rest == "off"@ {
            TypedView::Ask(Ask::Autoplay(false))
        } else {
            TypedView::Say("usage: autoplay on|off"@)
        },
        Verb::SpotifyApp => if rest.len() == 0 {
            TypedView::Say("usage: spotify-app <client-id>"@)
        } else {
            TypedView::With { what: With::SpotifyApp, text: rest }
        },
        Verb::Save => about(
            About::Save,
            item_or_playing(desk, rest),
            "usage: save [item]  (no item: the current track)"@,
        ),
        Verb::Unsave => about(
            About::Unsave,
            item_or_playing(desk, rest),
            "usage: unsave [item]  (no item: the current track)"@,
        ),
        Verb::Library => TypedView::Library {
            kind: library_words(rest).0,
            query: library_words(rest).1,
        },
        Verb::Playlist => playlist_typed(desk, rest),
        Verb::Services => TypedView::Ask(Ask::Services),
        Verb::Connect => match split_once(rest, is_char(' ')) {
            Some((method, redirect)) => TypedView::Finish { method, redirect: trimmed(redirect) },
            None => if rest.len() > 0 {
                TypedView::With { what: With::Connect, text: rest }
            } else {
                TypedView::Say(
                    "usage: connect <method> [redirect-url]  (`services` lists methods)"@,
                )
            },
        },
        Verb::Disconnect => if rest.len() > 0 {
            TypedView::With { what: With::Disconnect, text: rest }
        } else {
            unknown(verb)
        },
        Verb::Import => TypedView::With { what: With::Import, text: rest },
        _ => later_typed(desk, verb, rest),
    }
}

pub open spec fn play_from_usage() -> Seq<char> {
    "usage: playfrom #n  (plays the whole last listing from entry n)"@
}

/// What a line asks for, with one of the other verbs.
pub open spec fn later_typed(desk: DeskView, verb: Seq<char>, rest: Seq<char>) -> TypedView {
    match verb_of(verb) {
        Verb::Shuffle => TypedView::Ask(Ask::Shuffle),
        Verb::Repeat => if rest == "off"@ {
            TypedView::Ask(Ask::Repeat(Repeat::Off))
        } else if rest == "all"@ {
            TypedView::Ask(Ask::Repeat(Repeat::All))
        } else if rest == "one"@ {
            TypedView::Ask(Ask::Repeat(Repeat::One))
        } else {
            TypedView::Say("usage: repeat off|all|one"@)
        },
        Verb::Pause => TypedView::Transport(Transport::Pause),
        Verb::Stop => TypedView::Transport(Transport::Stop),
        Verb::Next => TypedView::Transport(Transport::Next),
        Verb::Previous => TypedView::Transport(Transport::Previous),
        Verb::Clear => TypedView::Transport(Transport::Clear),
        Verb::Mute => TypedView::Transport(Transport::Muted(true)),
        Verb::Unmute => TypedView::Transport(Transport::Muted(false)),
        Verb::Seek => match sought(rest, desk.position_ms) {
            Some(ms) => TypedView::Transport(Transport::Seek(ms)),
            None => TypedView::Say("usage: seek <secs | m:ss | +secs | -secs>"@),
        },
        Verb::Volume => match typed_volume(rest, desk.volume) {
            Some(volume) => TypedView::Transport(Transport::Volume(volume)),
            None => TypedView::Say("usage: vol <0-100 | +n | -n>"@),
        },
        Verb::Sinks => TypedView::Ask(Ask::Sinks),
        Verb::Queue => TypedView::Ask(Ask::Queue),
        Verb::Settings => TypedView::Ask(Ask::Settings),
        Verb::Mode => match rsplit_once(rest, ' ') {
            Some((output, mode)) => if mode == "flow"@ {
                TypedView::Mode { output: trimmed(output), mode: OutputMode::Flow }
            } else if mode == "standard"@ {
                TypedView::Mode { output: trimmed(output), mode: OutputMode::Standard }
            } else {
                TypedView::Say("usage: mode <output> flow|standard"@)
            },
            None => TypedView::Say("usage: mode <output> flow|standard"@),
        },
        Verb::Sink => if rest.len() == 0 {
            TypedView::Say("usage: sink <name[@cast|@dlna] | id>"@)
        } else {
            TypedView::With { what: With::Sink, text: rest }
        },
        Verb::Sleep => match watch_for(rest) {
            Some(d) => TypedView::Sleep(d),
            None => TypedView::Say("usage: sleep <secs>"@),
        },
        _ => unknown(verb),
    }
}

fn say(text: &str) -> (typed: Typed)
    ensures
        typed@ == TypedView::Say(text@),
{
    Typed::Say(text.to_owned())
}

fn say_unknown(verb: &Vec<char>) -> (typed: Typed)
    ensures
        typed@ == unknown(verb@),
{
    let mut text = concat("unknown command: ", string_of(verb).as_str());
    text.append(" (try `help`)");
    Typed::Say(text)
}

/// Whether `s` has the look of a library id.
fn id_like(s: &Vec<char>) -> (r: bool)
    ensures
        r == looks_like_id(s@),
{
    let mut bytes: u128 = 0;
    let mut hyphens: u128 = 0;
    let mut i: usize = 0;
    while i < s.len()
        invariant
            i <= s@.len(),
            bytes == text_bytes(s@.take(i as int)),
            hyphens == count_of(s@.take(i as int), '-'),
            bytes <= 4 * i,
            hyphens <= i,
        decreases s.len() - i,
    {
        assert(s@.take(i + 1).drop_last() =~= s@.take(i as int));
        let c = s[i];
        let code: u32 = c as u32;
        let size: u128 = if code < 0x80 {
            1
        } else if code < 0x800 {
            2
        } else if code < 0x10000 {
            3
        } else {
            4
        };
        bytes = bytes + size;
        if c == '-' {
            hyphens = hyphens + 1;
        }
        i = i + 1;
    }
    assert(s@.take(i as int) =~= s@);
    bytes == 36 && hyphens == 4
}

/// What a number typed after `#` picks from a list of `len` entries.
fn picked(n: &Vec<char>, len: usize) -> (index: Option<usize>)
    ensures
        match index {
            Some(i) => i < len && whole(n@) == Some((i + 1) as nat),
            None => whole(n@) is None || !(1 <= whole(n@)->0 <= len),
        },
{
    match read_whole(n, len as u64) {
        Some(n) => if n >= 1 {
            Some((n - 1) as usize)
        } else {
            None
        },
        None => None,
    }
}

fn find_item(word: &Vec<char>, listing: &Vec<Item>) -> (item: Option<Item>)
    ensures
        match item {
            Some(i) => named_item(word@, items_view(listing@)) == Some(i@),
            None => named_item(word@, items_view(listing@)) is None,
        },
{
    if let Some(n) = strip_prefix(word, "#") {
        return match picked(&n, listing.len()) {
            Some(i) => {
                assert(items_view(listing@)[i as int] == listing@[i as int]@);
                Some(listing[i].clone())
            },
            None => None,
        };
    }
    if let Some(id) = strip_prefix(word, "album:") {
        return Some(
            Item::OnService {
                service: Service::Tidal,
                id: string_of(&id),
                kind: Some(EntityKind::Album),
            },
        );
    }
    if id_like(word) {
        return Some(Item::Entity(string_of(word)));
    }
    if word.len() > 0 && only_digits(word) {
        return Some(
            Item::OnService { service: Service::Tidal, id: string_of(word), kind: None },
        );
    }
    None
}

/// One item as a user types it, given the last listing.
pub fn item(word: &str, listing: &Vec<Item>) -> (item: Option<Item>)
    ensures
        match item {
            Some(i) => named_item(word@, items_view(listing@)) == Some(i@),
            None => named_item(word@, items_view(listing@)) is None,
        },
{
    find_item(&chars_of(word), listing)
}

proof fn an_unnamed_word_names_no_list(
    all: Seq<Seq<char>>,
    listing: Seq<ItemView>,
    n: int,
    m: int,
)
    requires
        0 <= n <= m,
        named_items(all, listing, n) is None,
    ensures
        named_items(all, listing, m) is None,
    decreases m - n,
{
    if n < m {
        an_unnamed_word_names_no_list(all, listing, n, m - 1);
    }
}

/// What the words of `s` name, if there are any and each names something.
fn find_items(s: &Vec<char>, listing: &Vec<Item>) -> (items: Option<Vec<Item>>)
    ensures
        match items {
            Some(items) => items_in(s@, items_view(listing@)) == Some(items_view(items@)),
            None => items_in(s@, items_view(listing@)) is None,
        },
{
    let all = split_words(s);
    let ghost typed = lists_view(all@);
    let ghost seen = items_view(listing@);
    let mut items: Vec<Item> = Vec::new();
    let mut i: usize = 0;
    assert(items_view(items@) =~= Seq::empty());
    while i < all.len()
        invariant
            i <= all@.len(),
            typed == lists_view(all@),
            typed == words(s@),
            seen == items_view(listing@),
            named_items(typed, seen, i as int) == Some(items_view(items@)),
        decreases all.len() - i,
    {
        assert(typed[i as int] == all@[i as int]@);
        let ghost before = items@;
        match find_item(&all[i], listing) {
            Some(item) => {
                items.push(item);
                assert(items_view(items@) =~= items_view(before).push(item@));
            },
            None => {
                proof {
                    an_unnamed_word_names_no_list(typed, seen, i + 1, typed.len() as int);
                }
                return None;
            },
        }
        i = i + 1;
    }
    assert(items_view(items@).len() == items@.len());
    if items.len() > 0 {
        Some(items)
    } else {
        None
    }
}

fn as_kind(item: Item, kind: EntityKind) -> (r: Item)
    ensures
        r@ == of_kind(item@, kind),
{
    match item {
        Item::OnService { service, id, kind: _ } => Item::OnService {
            service,
            id,
            kind: Some(kind),
        },
        Item::Mix { service, mix, kind: _ } => Item::Mix { service, mix, kind: Some(kind) },
        Item::Entity(id) => Item::Entity(id),
    }
}

fn read_two_positions(s: &Vec<char>) -> (r: Option<(usize, usize)>)
    ensures
        match r {
            Some((from, to)) => two_positions(s@) == Some((from as int, to as int)),
            None => two_positions(s@) is None,
        },
{
    match split_at_char(s, ' ') {
        Some((a, b)) => match (position(&a), position(&b)) {
            (Some(from), Some(to)) => Some((from, to)),
            _ => None,
        },
        None => None,
    }
}

fn read_library_words(rest: &Vec<char>) -> (r: (EntityKind, Vec<char>))
    ensures
        (r.0, r.1@) == library_words(rest@),
{
    let (first, query): (Vec<char>, Vec<char>) = match split_at_char(rest, ' ') {
        Some((first, query)) => (first, query),
        None => (crate::line::part(rest, 0, rest.len()), Vec::new()),
    };
    assert(first@ =~= first_and_rest(rest@).0);
    assert(query@ =~= first_and_rest(rest@).1);
    if is_text(&first, "tracks") || is_text(&first, "track") || is_text(&first, "") {
        (EntityKind::Track, trim(&query))
    } else if is_text(&first, "albums") || is_text(&first, "album") {
        (EntityKind::Album, trim(&query))
    } else if is_text(&first, "artists") || is_text(&first, "artist") {
        (EntityKind::Artist, trim(&query))
    } else {
        (EntityKind::Track, trim(rest))
    }
}

fn read_watch(rest: &Vec<char>) -> (d: Option<Duration>)
    ensures
        d == watch_for(rest@),
{
    match read_amount(rest, DOUBLE_DIGITS, DOUBLE_PLACES) {
        Some(Reading::Finite { negative, size }) => if negative && !size.is_zero() {
            None
        } else {
            Duration::from_seconds(&size)
        },
        Some(Reading::Huge { .. }) => {
            proof {
                let p = pow2(1_000) as int;
                let u = pow2(DOUBLE_PLACES as nat) as int;
                lemma_pow2_strictly_increases(64, 1_000);
                lemma_pow2_pos(DOUBLE_PLACES as nat);
                let q = pow2(64) as int;
                assert(q * u <= p * u) by (nonlinear_arith)
                    requires
                        q <= p,
                        u > 0,
                ;
            }
            None
        },
        _ => None,
    }
}

impl Desk {
    fn item_or_playing(&self, rest: &Vec<char>) -> (item: Option<Item>)
        ensures
            match item {
                Some(i) => item_or_playing(self@, rest@) == Some(i@),
                None => item_or_playing(self@, rest@) is None,
            },
    {
        if rest.len() == 0 {
            match &self.playing {
                Some(id) => Some(Item::Entity(id.clone())),
                None => None,
            }
        } else {
            find_item(rest, &self.listing)
        }
    }

    fn queue(&self, rest: &Vec<char>, at: QueueAt) -> (typed: Typed)
        ensures
            typed@ == queued(self@, rest@, at),
    {
        match find_items(rest, &self.listing) {
            Some(items) => Typed::Queue { items, at },
            None => say(
                "usage: play|add|playnext <item>...  (a Tidal track id, album:<id>, a canon id, or #n from the last listing)",
            ),
        }
    }

    fn about(&self, what: About, item: Option<Item>, usage: &str) -> (typed: Typed)
        ensures
            match item {
                Some(i) => typed@ == about(what, Some(i@), usage@),
                None => typed@ == about(what, None, usage@),
            },
    {
        match item {
            Some(item) => Typed::About { what, item },
            None => say(usage),
        }
    }

    fn of_kind(&self, rest: &Vec<char>, kind: EntityKind) -> (item: Option<Item>)
        ensures
            match item {
                Some(i) => named_item(rest@, self@.listing) is Some && i@ == of_kind(
                    named_item(rest@, self@.listing)->0,
                    kind,
                ),
                None => named_item(rest@, self@.listing) is None,
            },
    {
        match find_item(rest, &self.listing) {
            Some(item) => Some(as_kind(item, kind)),
            None => None,
        }
    }

    fn chosen_playlist_command(&self, verb: &Vec<char>, rest: &Vec<char>) -> (what:
        std::result::Result<ChosenAsk, String>)
        ensures
            match what {
                Ok(what) => chosen_playlist_typed(self@, verb@, rest@) == Ok::<
                    ChosenAskView,
                    Seq<char>,
                >(what@),
                Err(usage) => chosen_playlist_typed(self@, verb@, rest@) == Err::<
                    ChosenAskView,
                    Seq<char>,
                >(usage@),
            },
    {
        if is_text(verb, "show") {
            Ok(ChosenAsk::Show)
        } else if is_text(verb, "play") {
            Ok(ChosenAsk::Play)
        } else if is_text(verb, "add") {
            match find_items(rest, &self.listing) {
                Some(items) => Ok(ChosenAsk::Add(items)),
                None => Err("usage: pl add <item>...".to_owned()),
            }
        } else if is_text(verb, "rm") {
            match position(rest) {
                Some(index) => Ok(ChosenAsk::Remove(index)),
                None => Err("usage: pl rm <position>".to_owned()),
            }
        } else if is_text(verb, "mv") {
            match read_two_positions(rest) {
                Some((from, to)) => Ok(ChosenAsk::Move { from, to }),
                None => Err("usage: pl mv <from> <to>".to_owned()),
            }
        } else if is_text(verb, "rename") && rest.len() > 0 {
            Ok(ChosenAsk::Rename(string_of(rest)))
        } else if is_text(verb, "delete") {
            Ok(ChosenAsk::Delete)
        } else {
            Err(
                "usage: pl [list [words]] | new <name> | fromqueue <name> | use <#n> | show | play | add <item>... | rm N | mv A B | rename <name> | delete".to_owned(),
            )
        }
    }

    fn playlist_command(&self, line: &Vec<char>) -> (typed: Typed)
        ensures
            typed@ == playlist_typed(self@, line@),
    {
        let (verb, after): (Vec<char>, Vec<char>) = match split_at_char(line, ' ') {
            Some((verb, after)) => (verb, after),
            None => (crate::line::part(line, 0, line.len()), Vec::new()),
        };
        assert(verb@ =~= first_and_rest(line@).0);
        assert(after@ =~= first_and_rest(line@).1);
        let rest = trim(&after);
        if is_text(&verb, "") || is_text(&verb, "list") || is_text(&verb, "ls") {
            Typed::Playlist(PlaylistAsk::List(string_of(&rest)))
        } else if is_text(&verb, "new") && rest.len() > 0 {
            Typed::Playlist(PlaylistAsk::New(string_of(&rest)))
        } else if is_text(&verb, "fromqueue") && rest.len() > 0 {
            Typed::Playlist(PlaylistAsk::FromQueue(string_of(&rest)))
        } else if is_text(&verb, "use") {
            match find_item(&rest, &self.listing) {
                Some(Item::Entity(id)) => Typed::Playlist(PlaylistAsk::Use(id)),
                _ => say("usage: pl use <#n | playlist id>  (`pl` lists them)"),
            }
        } else {
            match &self.playlist {
                None => say("no playlist chosen: `pl new <name>` or `pl use #n` first"),
                Some((id, _)) => match self.chosen_playlist_command(&verb, &rest) {
                    Ok(what) => Typed::Playlist(
                        PlaylistAsk::Chosen { playlist: id.clone(), what },
                    ),
                    Err(usage) => Typed::Say(usage),
                },
            }
        }
    }

    fn later_command(&self, verb: &Vec<char>, rest: &Vec<char>) -> (typed: Typed)
        ensures
            typed@ == later_typed(self@, verb@, rest@),
    {
        match read_verb(verb) {
            Verb::Shuffle => Typed::Ask(Ask::Shuffle),
            Verb::Repeat => if is_text(rest, "off") {
                Typed::Ask(Ask::Repeat(Repeat::Off))
            } else if is_text(rest, "all") {
                Typed::Ask(Ask::Repeat(Repeat::All))
            } else if is_text(rest, "one") {
                Typed::Ask(Ask::Repeat(Repeat::One))
            } else {
                say("usage: repeat off|all|one")
            },
            Verb::Pause => Typed::Transport(Transport::Pause),
            Verb::Stop => Typed::Transport(Transport::Stop),
            Verb::Next => Typed::Transport(Transport::Next),
            Verb::Previous => Typed::Transport(Transport::Previous),
            Verb::Clear => Typed::Transport(Transport::Clear),
            Verb::Mute => Typed::Transport(Transport::Muted(true)),
            Verb::Unmute => Typed::Transport(Transport::Muted(false)),
            Verb::Seek => match parse_seek(string_of(rest).as_str(), self.position_ms) {
                Some(ms) => Typed::Transport(Transport::Seek(ms)),
                None => say("usage: seek <secs | m:ss | +secs | -secs>"),
            },
            Verb::Volume => match parse_volume(string_of(rest).as_str(), self.volume) {
                Some(volume) => Typed::Transport(Transport::Volume(volume)),
                None => say("usage: vol <0-100 | +n | -n>"),
            },
            Verb::Sinks => Typed::Ask(Ask::Sinks),
            Verb::Queue => Typed::Ask(Ask::Queue),
            Verb::Settings => Typed::Ask(Ask::Settings),
            Verb::Mode => match rsplit_at_char(rest, ' ') {
                Some((output, mode)) => if is_text(&mode, "flow") {
                    Typed::Mode { output: string_of(&trim(&output)), mode: OutputMode::Flow }
                } else if is_text(&mode, "standard") {
                    Typed::Mode { output: string_of(&trim(&output)), mode: OutputMode::Standard }
                } else {
                    say("usage: mode <output> flow|standard")
                },
                None => say("usage: mode <output> flow|standard"),
            },
            Verb::Sink => if rest.len() == 0 {
                say("usage: sink <name[@cast|@dlna] | id>")
            } else {
                Typed::With { what: With::Sink, text: string_of(rest) }
            },
            Verb::Sleep => match read_watch(rest) {
                Some(d) => Typed::Sleep(d),
                None => say("usage: sleep <secs>"),
            },
            _ => say_unknown(verb),
        }
    }

    fn run_verb(&self, verb: &Vec<char>, rest: &Vec<char>) -> (typed: Typed)
        ensures
            typed@ == run_verb(self@, verb@, rest@),
    {
        match read_verb(verb) {
            Verb::Nothing => Typed::Nothing,
            Verb::Quit => Typed::Quit,
            Verb::Help => Typed::Help,
            Verb::Status => Typed::Status,
            Verb::Play => if rest.len() == 0 {
                Typed::Transport(Transport::Play)
            } else {
                self.queue(rest, QueueAt::Now)
            },
            Verb::Add => self.queue(rest, QueueAt::End),
            Verb::PlayNext => self.queue(rest, QueueAt::Next),
            Verb::Jump => match position(rest) {
                Some(index) => Typed::Ask(Ask::Jump(index)),
                None => say("usage: jump <queue position>"),
            },
            Verb::Remove => match position(rest) {
                Some(index) => Typed::Ask(Ask::Remove(index)),
                None => say("usage: rm <queue position>"),
            },
            Verb::Move => match read_two_positions(rest) {
                Some((from, to)) => Typed::Ask(Ask::Move { from, to }),
                None => say("usage: mv <from position> <to position>"),
            },
            Verb::Search => if rest.len() == 0 {
                say("usage: search <words>")
            } else {
                Typed::With { what: With::Search, text: string_of(rest) }
            },
            Verb::Album => self.about(
                About::Album,
                self.of_kind(rest, EntityKind::Album),
                "usage: album <#n | canon id | tidal id>",
            ),
            Verb::Artist => self.about(
                About::Artist,
                self.of_kind(rest, EntityKind::Artist),
                "usage: artist <#n | canon id | tidal id>",
            ),
            Verb::PlayFrom => match strip_prefix(rest, "#") {
                Some(n) => match picked(&n, self.listing.len()) {
                    Some(index) => Typed::Ask(Ask::PlayFrom(index)),
                    None => say("usage: playfrom #n  (plays the whole last listing from entry n)"),
                },
                None => say("usage: playfrom #n  (plays the whole last listing from entry n)"),
            },
            Verb::Radio => self.about(
                About::Radio,
                self.item_or_playing(rest),
                "usage: radio [item]  (no item: the current track)",
            ),
            Verb::Similar => self.about(
                About::Similar,
                self.of_kind(rest, EntityKind::Artist),
                "usage: similar <artist item>",
            ),
            Verb::Mixes => Typed::Ask(Ask::Mixes),
            Verb::Mix => match find_item(rest, &self.listing) {
                Some(Item::Mix { service, mix, .. }) => Typed::Mix { service, mix },
                _ => say("usage: mix #n  (`mixes` lists them)"),
            },
            Verb::Autoplay => if is_text(rest, "on") {
                Typed::Ask(Ask::Autoplay(true))
            } else if is_text(rest, "off") {
                Typed::Ask(Ask::Autoplay(false))
            } else {
                say("usage: autoplay on|off")
            },
            Verb::SpotifyApp => if rest.len() == 0 {
                say("usage: spotify-app <client-id>")
            } else {
                Typed::With { what: With::SpotifyApp, text: string_of(rest) }
            },
            Verb::Save => self.about(
                About::Save,
                self.item_or_playing(rest),
                "usage: save [item]  (no item: the current track)",
            ),
            Verb::Unsave => self.about(
                About::Unsave,
                self.item_or_playing(rest),
                "usage: unsave [item]  (no item: the current track)",
            ),
            Verb::Library => {
                let (kind, query) = read_library_words(rest);
                Typed::Library { kind, query: string_of(&query) }
            },
            Verb::Playlist => self.playlist_command(rest),
            Verb::Services => Typed::Ask(Ask::Services),
            Verb::Connect => match split_at_char(rest, ' ') {
                Some((method, redirect)) => Typed::Finish {
                    method: string_of(&method),
                    redirect: string_of(&trim(&redirect)),
                },
                None => if rest.len() > 0 {
                    Typed::With { what: With::Connect, text: string_of(rest) }
                } else {
                    say("usage: connect <method> [redirect-url]  (`services` lists methods)")
                },
            },
            Verb::Disconnect => if rest.len() > 0 {
                Typed::With { what: With::Disconnect, text: string_of(rest) }
            } else {
                say_unknown(verb)
            },
            Verb::Import => Typed::With { what: With::Import, text: string_of(rest) },
            _ => self.later_command(verb, rest),
        }
    }

    /// What a line asks for.
    pub fn command(&self, line: &str) -> (typed: Typed)
        ensures
            typed@ == line_asks(self@, line@),
    {
        let whole_line = trim(&chars_of(line));
        match split_at_space(&whole_line) {
            Some((verb, rest)) => self.run_verb(&verb, &trim(&rest)),
            None => {
                let nothing: Vec<char> = Vec::new();
                assert(nothing@ =~= Seq::empty());
                self.run_verb(&whole_line, &nothing)
            },
        }
    }

    /// Take in the answer to `ask`: a playlist made, or asked for to be used, is chosen from then
    /// on, under the id and name in the answer; a new name and a deletion are the chosen one's.
    /// `None` if the ask was refused.
    pub fn playlist_answered(
        &mut self,
        ask: &PlaylistAsk,
        answer: Option<(Option<String>, Option<String>)>,
    )
        ensures
            final(self)@ == (DeskView {
                playlist: choice_after(
                    old(self)@.playlist,
                    ask@,
                    match answer {
                        Some((id, name)) => Some((opt_text(id), opt_text(name))),
                        None => None,
                    },
                ),
                ..old(self)@
            }),
    {
        let (id, name) = match answer {
            Some((id, name)) => (
                match id {
                    Some(id) => id,
                    None => String::new(),
                },
                match name {
                    Some(name) => name,
                    None => "?".to_owned(),
                },
            ),
            None => {
                return;
            },
        };
        match ask {
            PlaylistAsk::List(_) => {},
            PlaylistAsk::New(_) | PlaylistAsk::FromQueue(_) | PlaylistAsk::Use(_) => {
                self.playlist = Some((id, name));
            },
            PlaylistAsk::Chosen { playlist, what } => match what {
                ChosenAsk::Rename(name) => {
                    self.playlist = Some((playlist.clone(), name.clone()));
                },
                ChosenAsk::Delete => {
                    self.playlist = None;
                },
                _ => {},
            },
        }
    }
}

} // verus!
