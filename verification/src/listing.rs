//! What the client shows: lines of text about tracks, albums, outputs and playback, and numbered
//! listings whose entries can be named.

use vstd::prelude::*;
use vstd::string::*;

use crate::client::{char_bytes, items_view, Item, ItemView};
use crate::connection::{Capabilities, ConnectionInfo, Health};
use crate::line::{part, rsplit_at_char, rsplit_once};
use crate::shelf::{fold, folded};
use crate::text::{
    chars_of, concat, decimal, join, joined, lower_text, lowered, number, quoted, quoted_text, same,
    string_of, texts,
};
use crate::view::{AlbumView, Named, TrackView};

verus! {

/// `s` followed by spaces up to `width` characters.
pub open spec fn padded(s: Seq<char>, width: int) -> Seq<char> {
    if s.len() >= width {
        s
    } else {
        s + Seq::new((width - s.len()) as nat, |i: int| ' ')
    }
}

/// `n` in at least two digits.
pub open spec fn two_digits(n: nat) -> Seq<char> {
    if n < 10 {
        "0"@ + decimal(n)
    } else {
        decimal(n)
    }
}

/// A position as minutes and seconds.
pub open spec fn clock_text(ms: u64) -> Seq<char> {
    let secs = (ms / 1000) as nat;
    decimal(secs / 60) + ":"@ + two_digits(secs % 60)
}

/// `text` followed by spaces up to `width` characters.
pub fn pad(text: &str, width: usize) -> (r: String)
    ensures
        r@ == padded(text@, width as int),
{
    let mut chars = chars_of(text);
    let ghost s = text@;
    while chars.len() < width
        invariant
            s == text@,
            s.len() <= chars@.len(),
            chars@.len() <= width || chars@ == s,
            chars@ == s + Seq::new((chars@.len() - s.len()) as nat, |i: int| ' '),
        decreases width - chars.len(),
    {
        let ghost before = chars@;
        chars.push(' ');
        assert(chars@ =~= s + Seq::new((chars@.len() - s.len()) as nat, |i: int| ' '));
    }
    assert(chars@ =~= padded(s, width as int));
    string_of(&chars)
}

/// A position as minutes and seconds.
pub fn clock(ms: u64) -> (r: String)
    ensures
        r@ == clock_text(ms),
{
    let secs: u64 = ms / 1000;
    let mut r = concat(number(secs / 60).as_str(), ":");
    let rest: u64 = secs % 60;
    if rest < 10 {
        r.append("0");
        assert(decimal((secs as nat) / 60) + ":"@ + "0"@ + decimal(rest as nat) =~= decimal(
            (secs as nat) / 60,
        ) + ":"@ + ("0"@ + decimal(rest as nat)));
    }
    r.append(number(rest).as_str());
    r
}

/// The names of `all`.
pub open spec fn name_list(all: Seq<Named>) -> Seq<Seq<char>> {
    all.map_values(|n: Named| n.name@)
}

/// The names of `credits`, as shown.
pub fn names(credits: &Vec<Named>) -> (r: String)
    ensures
        r@ == joined(name_list(credits@), ", "@),
{
    let mut all: Vec<String> = Vec::new();
    let mut i: usize = 0;
    while i < credits.len()
        invariant
            i <= credits@.len(),
            all@.len() == i,
            forall|k: int| 0 <= k < i ==> (#[trigger] all@[k])@ == credits@[k].name@,
        decreases credits.len() - i,
    {
        all.push(credits[i].name.clone());
        i = i + 1;
    }
    assert(texts(all@) =~= name_list(credits@));
    join(&all, ", ")
}

/// A track on one line: its title and artists, and its album and length where known.
pub open spec fn track_text(track: TrackView) -> Seq<char> {
    track.title@ + " — "@ + joined(name_list(track.artists@), ", "@) + match track.album {
        Some(album) => " · "@ + album.name@,
        None => Seq::empty(),
    } + match track.duration_ms {
        Some(ms) => "  "@ + clock_text(ms),
        None => Seq::empty(),
    }
}

/// A track on one line.
pub fn track_line(track: &TrackView) -> (r: String)
    ensures
        r@ == track_text(*track),
{
    let mut r = concat(track.title.as_str(), " — ");
    r.append(names(&track.artists).as_str());
    let ghost so_far = r@;
    assert(so_far + Seq::<char>::empty() =~= so_far);
    match &track.album {
        Some(album) => {
            r.append(" · ");
            r.append(album.name.as_str());
            assert(r@ =~= so_far + (" · "@ + album.name@));
        },
        None => {},
    }
    let ghost longer = r@;
    assert(longer + Seq::<char>::empty() =~= longer);
    match track.duration_ms {
        Some(ms) => {
            r.append("  ");
            r.append(clock(ms).as_str());
            assert(r@ =~= longer + ("  "@ + clock_text(ms)));
        },
        None => {},
    }
    r
}

/// How many bytes the first `n` characters of `s` take in UTF-8.
pub open spec fn bytes_upto(s: Seq<char>, n: int) -> int
    decreases n,
{
    if n <= 0 {
        0
    } else {
        bytes_upto(s, n - 1) + char_bytes(s[n - 1])
    }
}

/// Whether the first `n` characters of `s` are its first `bytes` bytes.
pub open spec fn is_byte_prefix(s: Seq<char>, bytes: int, n: int) -> bool {
    0 <= n <= s.len() && bytes_upto(s, n) == bytes
}

/// The year in a release date: its first four bytes, where they are characters of their own.
pub open spec fn year_of(date: Seq<char>) -> Option<Seq<char>> {
    if exists|n: int| is_byte_prefix(date, 4, n) {
        Some(date.take(choose|n: int| is_byte_prefix(date, 4, n)))
    } else {
        None
    }
}

proof fn bytes_grow(s: Seq<char>, n: int, m: int)
    requires
        0 <= n < m,
    ensures
        bytes_upto(s, n) < bytes_upto(s, m),
    decreases m - n,
{
    if n < m - 1 {
        bytes_grow(s, n, m - 1);
    }
}

/// The year in a release date.
fn year(date: &str) -> (r: Option<String>)
    ensures
        match r {
            Some(y) => year_of(date@) == Some(y@),
            None => year_of(date@) is None,
        },
{
    let s = chars_of(date);
    let mut bytes: u32 = 0;
    let mut n: usize = 0;
    while n < s.len() && bytes < 4
        invariant
            n <= s@.len(),
            s@ == date@,
            bytes == bytes_upto(s@, n as int),
            bytes < 8,
            n > 0 ==> bytes_upto(s@, n - 1) < 4,
        decreases s.len() - n,
    {
        let code: u32 = s[n] as u32;
        let size: u32 = if code < 0x80 {
            1
        } else if code < 0x800 {
            2
        } else if code < 0x10000 {
            3
        } else {
            4
        };
        bytes = bytes + size;
        n = n + 1;
    }
    if bytes == 4 {
        proof {
            assert(is_byte_prefix(date@, 4, n as int));
            let c = choose|c: int| is_byte_prefix(date@, 4, c);
            if c < n {
                bytes_grow(date@, c, n as int);
            } else if c > n {
                bytes_grow(date@, n as int, c);
            }
            assert(s@.subrange(0, n as int) =~= date@.take(n as int));
        }
        return Some(string_of(&part(&s, 0, n)));
    }
    proof {
        assert forall|c: int| !is_byte_prefix(date@, 4, c) by {
            if is_byte_prefix(date@, 4, c) {
                if bytes < 4 {
                    if c < n {
                        bytes_grow(date@, c, n as int);
                    }
                } else {
                    if c >= n {
                        if c > n {
                            bytes_grow(date@, n as int, c);
                        }
                    } else if c < n - 1 {
                        bytes_grow(date@, c, n - 1);
                    }
                }
            }
        }
    }
    None
}

/// An album on one line: its title, and its credit and year where known.
pub open spec fn album_text(album: AlbumView) -> Seq<char> {
    album.title@ + if album.credit@.len() == 0 {
        Seq::empty()
    } else {
        " — "@ + album.credit@
    } + match album.release_date {
        Some(date) => match year_of(date@) {
            Some(year) => " ("@ + year + ")"@,
            None => Seq::empty(),
        },
        None => Seq::empty(),
    }
}

/// An album on one line.
pub fn album_line(album: &AlbumView) -> (r: String)
    ensures
        r@ == album_text(*album),
{
    let mut r = album.title.clone();
    let ghost so_far = r@;
    assert(so_far + Seq::<char>::empty() =~= so_far);
    if !album.credit.as_str().is_empty() {
        r.append(" — ");
        r.append(album.credit.as_str());
        assert(r@ =~= so_far + (" — "@ + album.credit@));
    }
    let ghost longer = r@;
    assert(longer + Seq::<char>::empty() =~= longer);
    if let Some(date) = &album.release_date {
        if let Some(year) = year(date.as_str()) {
            r.append(" (");
            r.append(year.as_str());
            r.append(")");
            assert(r@ =~= longer + (" ("@ + year@ + ")"@));
        }
    }
    r
}

/// What is granted, as a short list.
pub open spec fn granted(grants: Capabilities) -> Seq<Seq<char>> {
    let a: Seq<Seq<char>> = if grants.catalog {
        seq!["browse"@]
    } else {
        Seq::empty()
    };
    let b = if grants.library_read {
        a.push("library"@)
    } else {
        a
    };
    let c = if grants.library_write {
        b.push("library changes"@)
    } else {
        b
    };
    let d = if grants.recommendations {
        c.push("recommendations"@)
    } else {
        c
    };
    d.push(
        match grants.stream {
            Some(quality) => "streaming up to "@ + quality.name(),
            None => "no streaming"@,
        },
    )
}

/// What a connection grants, as a short list.
pub fn grants(given: &Capabilities) -> (r: String)
    ensures
        r@ == joined(granted(*given), ", "@),
{
    let mut all: Vec<String> = Vec::new();
    if given.catalog {
        all.push("browse".to_owned());
    }
    if given.library_read {
        all.push("library".to_owned());
    }
    if given.library_write {
        all.push("library changes".to_owned());
    }
    if given.recommendations {
        all.push("recommendations".to_owned());
    }
    match given.stream {
        Some(quality) => {
            all.push(concat("streaming up to ", quality.as_str()));
        },
        None => {
            all.push("no streaming".to_owned());
        },
    }
    assert(texts(all@) =~= granted(*given));
    join(&all, ", ")
}

/// How a connection stands, in words.
pub fn standing(connection: &ConnectionInfo) -> (r: String)
    ensures
        r@ == match connection.health {
            Health::Healthy => "signed in as "@ + match connection.account {
                Some(account) => account.user_id@,
                None => "?"@,
            },
            Health::NeedsLogin => "not signed in"@,
            Health::Degraded { why } => "signed in, degraded: "@ + why@,
            Health::Failing { why } => "failing: "@ + why@,
        },
{
    match &connection.health {
        Health::Healthy => match &connection.account {
            Some(account) => concat("signed in as ", account.user_id.as_str()),
            None => concat("signed in as ", "?"),
        },
        Health::NeedsLogin => "not signed in".to_owned(),
        Health::Degraded { why } => concat("signed in, degraded: ", why.as_str()),
        Health::Failing { why } => concat("failing: ", why.as_str()),
    }
}

/// Playback as the client was last told of it.
#[derive(Debug, PartialEq, Eq)]
pub struct Playing {
    pub state: String,
    pub position_ms: u64,
    pub duration_ms: Option<u64>,
    pub title: Option<String>,
    /// The first of the track's artists.
    pub artist: Option<String>,
    /// The current entry and how many there are.
    pub queue: Option<(u64, u64)>,
    pub repeat: Option<String>,
}

/// Where the queue is, counted from 1.
pub open spec fn queue_text(queue: Option<(u64, u64)>) -> Seq<char> {
    match queue {
        Some((index, len)) => if len > 0 {
            "  ["@ + decimal(
                (if index == u64::MAX {
                    index as int
                } else {
                    index + 1
                }) as nat,
            ) + "/"@ + decimal(len as nat) + "]"@
        } else {
            Seq::empty()
        },
        None => Seq::empty(),
    }
}

pub open spec fn repeat_text(repeat: Option<String>) -> Seq<char> {
    match repeat {
        Some(mode) => if mode@ == "all"@ {
            "  (repeat all)"@
        } else if mode@ == "one"@ {
            "  (repeat one)"@
        } else {
            Seq::empty()
        },
        None => Seq::empty(),
    }
}

/// Playback on one line.
pub open spec fn playing_text(playing: Playing) -> Seq<char> {
    padded(playing.state@, 8) + " "@ + clock_text(playing.position_ms) + "/"@
        + match playing.duration_ms {
        Some(ms) => clock_text(ms),
        None => "--:--"@,
    } + "  "@ + match playing.title {
        Some(title) => title@,
        None => "—"@,
    } + " — "@ + match playing.artist {
        Some(artist) => artist@,
        None => Seq::empty(),
    } + queue_text(playing.queue) + repeat_text(playing.repeat)
}

/// Playback on one line.
pub fn describe(playing: &Playing) -> (r: String)
    ensures
        r@ == playing_text(*playing),
{
    let mut r = pad(playing.state.as_str(), 8);
    r.append(" ");
    r.append(clock(playing.position_ms).as_str());
    r.append("/");
    match playing.duration_ms {
        Some(ms) => {
            r.append(clock(ms).as_str());
        },
        None => {
            r.append("--:--");
        },
    }
    r.append("  ");
    match &playing.title {
        Some(title) => {
            r.append(title.as_str());
        },
        None => {
            r.append("—");
        },
    }
    r.append(" — ");
    let ghost so_far = r@;
    assert(so_far + Seq::<char>::empty() =~= so_far);
    match &playing.artist {
        Some(artist) => {
            r.append(artist.as_str());
        },
        None => {},
    }
    let ghost longer = r@;
    assert(longer + Seq::<char>::empty() =~= longer);
    if let Some((index, len)) = playing.queue {
        if len > 0 {
            r.append("  [");
            r.append(number(index.saturating_add(1)).as_str());
            r.append("/");
            r.append(number(len).as_str());
            r.append("]");
            assert(r@ =~= longer + queue_text(playing.queue));
        }
    }
    let ghost longest = r@;
    assert(longest + Seq::<char>::empty() =~= longest);
    if let Some(mode) = &playing.repeat {
        if same(mode.as_str(), "all") {
            r.append("  (repeat all)");
        } else if same(mode.as_str(), "one") {
            r.append("  (repeat one)");
        }
    }
    r
}

/// Whether a snapshot is worth echoing. A transition is news and always is; a position refresh is
/// not, so it is rate-limited, and only while playing, so an idle client stays silent.
pub fn worth_echoing(transition: bool, state: &str, since_last_ms: u64) -> (r: bool)
    ensures
        r == (transition || (state@ == "playing"@ && since_last_ms >= POSITION_ECHO_MS)),
{
    transition || (same(state, "playing") && since_last_ms >= POSITION_ECHO_MS)
}

/// How often a position refresh is echoed while playing, in milliseconds.
pub const POSITION_ECHO_MS: u64 = 1_000;

/// A listing being built: its text, and the item each number stands for.
#[derive(Debug, PartialEq, Eq)]
pub struct Numbered {
    pub text: String,
    pub items: Vec<Item>,
}

/// The line of the listing's entry `n`.
pub open spec fn entry_text(n: nat, line: Seq<char>) -> Seq<char> {
    "  #"@ + padded(decimal(n), 3) + " "@ + line + "\n"@
}

/// Lines numbered from `n` on.
pub open spec fn entries_text(n: nat, lines: Seq<Seq<char>>) -> Seq<char>
    decreases lines.len(),
{
    if lines.len() == 0 {
        Seq::empty()
    } else {
        entries_text(n, lines.drop_last()) + entry_text((n + lines.len() - 1) as nat, lines.last())
    }
}

/// What entries stand for.
pub open spec fn entry_items(entries: Seq<(Item, String)>) -> Seq<ItemView> {
    entries.map_values(|e: (Item, String)| e.0@)
}

/// The lines of entries.
pub open spec fn entry_lines(entries: Seq<(Item, String)>) -> Seq<Seq<char>> {
    entries.map_values(|e: (Item, String)| e.1@)
}

impl Numbered {
    pub fn new() -> (listing: Self)
        ensures
            listing.text@.len() == 0,
            listing.items@.len() == 0,
    {
        Numbered { text: String::new(), items: Vec::new() }
    }

    /// A line that is not an entry.
    pub fn heading(&mut self, line: &str)
        ensures
            final(self).text@ == old(self).text@ + line@ + "\n"@,
            final(self).items == old(self).items,
    {
        self.text.append(line);
        self.text.append("\n");
    }

    /// One numbered line standing for `item`.
    pub fn entry(&mut self, item: Item, line: &str)
        requires
            old(self).items@.len() < usize::MAX,
        ensures
            final(self).items@ == old(self).items@.push(item),
            final(self).text@ == old(self).text@ + entry_text(
                old(self).items@.len() + 1,
                line@,
            ),
    {
        let ghost before = self.text@;
        self.items.push(item);
        let n: u64 = self.items.len() as u64;
        self.text.append("  #");
        self.text.append(pad(number(n).as_str(), 3).as_str());
        self.text.append(" ");
        self.text.append(line);
        self.text.append("\n");
        assert(self.text@ =~= before + entry_text(n as nat, line@));
    }

    /// A titled run of entries; nothing at all where there are none.
    pub fn section(&mut self, title: &str, entries: Vec<(Item, String)>)
        requires
            old(self).items@.len() + entries@.len() <= usize::MAX,
        ensures
            items_view(final(self).items@) == items_view(old(self).items@) + entry_items(entries@),
            final(self).text@ == old(self).text@ + if entries@.len() == 0 {
                Seq::empty()
            } else {
                (if title@.len() == 0 {
                    Seq::empty()
                } else {
                    title@ + "\n"@
                }) + entries_text(old(self).items@.len() + 1, entry_lines(entries@))
            },
    {
        let ghost text = self.text@;
        let ghost items = self.items@;
        if entries.len() == 0 {
            assert(items_view(items) + entry_items(entries@) =~= items_view(items));
            assert(text + Seq::<char>::empty() =~= text);
            return;
        }
        let ghost head = if title@.len() == 0 {
            Seq::<char>::empty()
        } else {
            title@ + "\n"@
        };
        if !title.is_empty() {
            self.text.append(title);
            self.text.append("\n");
        }
        assert(self.text@ =~= text + head);
        let mut i: usize = 0;
        assert(items_view(self.items@) =~= items_view(items) + entry_items(
            entries@.take(0),
        ));
        assert(self.text@ =~= text + (head + entries_text(
            items.len() + 1,
            entry_lines(entries@.take(0)),
        )));
        while i < entries.len()
            invariant
                i <= entries@.len(),
                items.len() + entries@.len() <= usize::MAX,
                self.items@.len() == items.len() + i,
                items_view(self.items@) == items_view(items) + entry_items(
                    entries@.take(i as int),
                ),
                self.text@ == text + (head + entries_text(
                    items.len() + 1,
                    entry_lines(entries@.take(i as int)),
                )),
            decreases entries.len() - i,
        {
            let ghost so_far = self.text@;
            let ghost had = self.items@;
            let ghost lines = entry_lines(entries@.take(i + 1));
            assert(lines.drop_last() =~= entry_lines(entries@.take(i as int)));
            assert(lines.last() == entries@[i as int].1@);
            self.entry(entries[i].0.clone(), entries[i].1.as_str());
            assert(items_view(self.items@) =~= items_view(had).push(entries@[i as int].0@));
            assert(items_view(self.items@) =~= items_view(items) + entry_items(
                entries@.take(i + 1),
            ));
            assert(self.text@ =~= text + (head + entries_text(items.len() + 1, lines)));
            i = i + 1;
        }
        assert(entries@.take(i as int) =~= entries@);
    }
}

/// An output as the daemon lists it.
#[derive(Debug, PartialEq, Eq)]
pub struct Output {
    pub id: String,
    pub name: String,
    /// The protocol it is reached by, or `local`.
    pub kind: String,
    /// Every protocol it answers on, the preferred one first: its name, and the id it has there.
    pub protocols: Vec<(String, String)>,
}

/// The wire name of a protocol as a user types it (`cast` is the everyday word for Chromecast).
pub open spec fn protocol_name(typed: Seq<char>) -> Seq<char> {
    let lower = typed.map_values(|c: char| folded(c));
    if lower == "cast"@ || lower == "chromecast"@ {
        "chromecast"@
    } else if lower == "dlna"@ || lower == "upnp"@ {
        "dlna"@
    } else {
        typed
    }
}

/// The wire name of a protocol as a user types it.
pub fn protocol_kind(typed: &str) -> (kind: String)
    ensures
        kind@ == protocol_name(typed@),
{
    let s = chars_of(typed);
    let mut lower: Vec<char> = Vec::new();
    let mut i: usize = 0;
    while i < s.len()
        invariant
            i <= s@.len(),
            s@ == typed@,
            lower@.len() == i,
            forall|k: int| 0 <= k < i ==> #[trigger] lower@[k] == folded(s@[k]),
        decreases s.len() - i,
    {
        lower.push(fold(s[i]));
        i = i + 1;
    }
    assert(lower@ =~= typed@.map_values(|c: char| folded(c)));
    let lower = string_of(&lower);
    if same(lower.as_str(), "cast") || same(lower.as_str(), "chromecast") {
        "chromecast".to_owned()
    } else if same(lower.as_str(), "dlna") || same(lower.as_str(), "upnp") {
        "dlna".to_owned()
    } else {
        typed.to_owned()
    }
}

/// An output whose id is `wanted`.
pub open spec fn has_id(wanted: Seq<char>) -> spec_fn(Output) -> bool {
    |o: Output| o.id@ == wanted
}

/// An output whose name starts with `name`, whatever the case.
pub open spec fn has_name(name: Seq<char>) -> spec_fn(Output) -> bool {
    |o: Output| lower_text(name).is_prefix_of(lower_text(o.name@))
}

/// A network output whose id is `wanted`, or whose name starts with it, whatever the case.
pub open spec fn is_network(wanted: Seq<char>) -> spec_fn(Output) -> bool {
    |o: Output|
        o.kind@ != "local"@ && (o.id@ == wanted || lower_text(wanted).is_prefix_of(
            lower_text(o.name@),
        ))
}

/// What a user typed to name an output: a name, perhaps pinned to a protocol.
pub open spec fn name_and_protocol(wanted: Seq<char>) -> (Seq<char>, Option<Seq<char>>) {
    match rsplit_once(wanted, '@') {
        Some((name, protocol)) => (name, Some(protocol_name(protocol))),
        None => (wanted, None),
    }
}

/// An endpoint of the protocol `kind`.
pub open spec fn is_endpoint(kind: Seq<char>) -> spec_fn((String, String)) -> bool {
    |p: (String, String)| p.0@ == kind
}

/// Which id to select, or what to say instead: the output with that id, whatever it is made of, or
/// the first whose name starts so, on the protocol it is pinned to.
pub open spec fn selection(outputs: Seq<Output>, wanted: Seq<char>) -> std::result::Result<
    (Seq<char>, Seq<char>),
    Seq<char>,
> {
    match crate::rows::first_at(outputs, has_id(wanted)) {
        Some(i) => Ok((outputs[i].id@, outputs[i].name@)),
        None => named_selection(outputs, wanted),
    }
}

/// Which id to select for an output that is not named by its id.
pub open spec fn named_selection(outputs: Seq<Output>, wanted: Seq<char>) -> std::result::Result<
    (Seq<char>, Seq<char>),
    Seq<char>,
> {
    match crate::rows::first_at(outputs, has_name(name_and_protocol(wanted).0)) {
        None => Err(
            "no sink matching "@ + quoted_text(wanted)
                + " — `sinks` to list what was discovered"@,
        ),
        Some(i) => match name_and_protocol(wanted).1 {
            None => Ok((outputs[i].id@, outputs[i].name@)),
            Some(kind) => match crate::rows::first_at(outputs[i].protocols@, is_endpoint(kind)) {
                Some(k) => Ok((outputs[i].protocols@[k].1@, outputs[i].name@)),
                None => Err(
                    quoted_text(name_and_protocol(wanted).0) + " is not reachable over "@ + kind,
                ),
            },
        },
    }
}

/// Whether `s` starts with `prefix`.
fn starts_with(s: &str, prefix: &str) -> (r: bool)
    ensures
        r == prefix@.is_prefix_of(s@),
{
    match crate::line::strip_prefix(&chars_of(s), prefix) {
        Some(_) => true,
        None => false,
    }
}

fn find_id(outputs: &Vec<Output>, wanted: &str) -> (at: Option<usize>)
    ensures
        match at {
            Some(i) => i < outputs@.len() && crate::rows::first_at(outputs@, has_id(wanted@))
                == Some(i as int),
            None => crate::rows::first_at(outputs@, has_id(wanted@)) is None,
        },
{
    let ghost p = has_id(wanted@);
    let mut i: usize = 0;
    while i < outputs.len()
        invariant
            i <= outputs@.len(),
            p == has_id(wanted@),
            forall|k: int| 0 <= k < i ==> !p(#[trigger] outputs@[k]),
        decreases outputs.len() - i,
    {
        if same(outputs[i].id.as_str(), wanted) {
            proof {
                crate::rows::found_first(outputs@, p, i as int);
            }
            return Some(i);
        }
        i = i + 1;
    }
    proof {
        crate::rows::found_none(outputs@, p);
    }
    None
}

/// The names of `outputs` in lower case.
pub open spec fn lower_names(outputs: Seq<Output>) -> Seq<Seq<char>> {
    outputs.map_values(|o: Output| lower_text(o.name@))
}

/// The names of `outputs` in lower case.
fn lowered_names(outputs: &Vec<Output>) -> (names: Vec<String>)
    ensures
        texts(names@) == lower_names(outputs@),
{
    let mut names: Vec<String> = Vec::new();
    let mut i: usize = 0;
    while i < outputs.len()
        invariant
            i <= outputs@.len(),
            names@.len() == i,
            forall|k: int| 0 <= k < i ==> (#[trigger] names@[k])@ == lower_text(outputs@[k].name@),
        decreases outputs.len() - i,
    {
        names.push(lowered(outputs[i].name.as_str()));
        i = i + 1;
    }
    assert(texts(names@) =~= lower_names(outputs@));
    names
}

/// A name that starts with `prefix`.
pub open spec fn begins(prefix: Seq<char>) -> spec_fn(Seq<char>) -> bool {
    |name: Seq<char>| prefix.is_prefix_of(name)
}

/// The first of `names` that starts with `prefix`.
pub fn first_beginning(names: &Vec<String>, prefix: &str) -> (at: Option<usize>)
    ensures
        match at {
            Some(i) => i < names@.len() && crate::rows::first_at(texts(names@), begins(prefix@))
                == Some(i as int),
            None => crate::rows::first_at(texts(names@), begins(prefix@)) is None,
        },
{
    let ghost p = begins(prefix@);
    let ghost all = texts(names@);
    let mut i: usize = 0;
    while i < names.len()
        invariant
            i <= names@.len(),
            p == begins(prefix@),
            all == texts(names@),
            forall|k: int| 0 <= k < i ==> !p(#[trigger] all[k]),
        decreases names.len() - i,
    {
        assert(all[i as int] == names@[i as int]@);
        if starts_with(names[i].as_str(), prefix) {
            proof {
                crate::rows::found_first(all, p, i as int);
            }
            return Some(i);
        }
        i = i + 1;
    }
    proof {
        crate::rows::found_none(all, p);
    }
    None
}

fn find_name(outputs: &Vec<Output>, name: &str) -> (at: Option<usize>)
    ensures
        match at {
            Some(i) => i < outputs@.len() && crate::rows::first_at(outputs@, has_name(name@))
                == Some(i as int),
            None => crate::rows::first_at(outputs@, has_name(name@)) is None,
        },
{
    let names = lowered_names(outputs);
    let lower = lowered(name);
    let at = first_beginning(&names, lower.as_str());
    proof {
        let p = has_name(name@);
        let q = begins(lower@);
        let all = texts(names@);
        crate::rows::first_at_matches(all, q);
        assert forall|k: int| 0 <= k < outputs@.len() implies p(outputs@[k]) == q(
            #[trigger] all[k],
        ) by {
            assert(lower_names(outputs@)[k] == lower_text(outputs@[k].name@));
        }
        match at {
            Some(i) => {
                assert(p(outputs@[i as int]) == q(all[i as int]));
                assert forall|j: int| 0 <= j < i implies !p(#[trigger] outputs@[j]) by {
                    assert(!q(all[j]));
                }
                crate::rows::found_first(outputs@, p, i as int);
            },
            None => {
                assert forall|j: int| 0 <= j < outputs@.len() implies !p(
                    #[trigger] outputs@[j],
                ) by {
                    assert(!q(all[j]));
                }
                crate::rows::found_none(outputs@, p);
            },
        }
    }
    at
}

fn find_endpoint(protocols: &Vec<(String, String)>, kind: &str) -> (at: Option<usize>)
    ensures
        match at {
            Some(i) => i < protocols@.len() && crate::rows::first_at(
                protocols@,
                is_endpoint(kind@),
            ) == Some(i as int),
            None => crate::rows::first_at(protocols@, is_endpoint(kind@)) is None,
        },
{
    let ghost p = is_endpoint(kind@);
    let mut i: usize = 0;
    while i < protocols.len()
        invariant
            i <= protocols@.len(),
            p == is_endpoint(kind@),
            forall|k: int| 0 <= k < i ==> !p(#[trigger] protocols@[k]),
        decreases protocols.len() - i,
    {
        if same(protocols[i].0.as_str(), kind) {
            proof {
                crate::rows::found_first(protocols@, p, i as int);
            }
            return Some(i);
        }
        i = i + 1;
    }
    proof {
        crate::rows::found_none(protocols@, p);
    }
    None
}

/// Which output to select: by id, or by the start of its name whatever the case, perhaps pinned to
/// one of its protocols: `Tunes` takes the speaker's preferred protocol, `Tunes@dlna` drives it
/// over DLNA. Its id there and its name, or what to say instead.
pub fn select_sink(outputs: &Vec<Output>, wanted: &str) -> (chosen: std::result::Result<
    (String, String),
    String,
>)
    ensures
        match chosen {
            Ok((id, name)) => selection(outputs@, wanted@) == Ok::<
                (Seq<char>, Seq<char>),
                Seq<char>,
            >((id@, name@)),
            Err(why) => selection(outputs@, wanted@) == Err::<(Seq<char>, Seq<char>), Seq<char>>(
                why@,
            ),
        },
{
    if let Some(i) = find_id(outputs, wanted) {
        return Ok((outputs[i].id.clone(), outputs[i].name.clone()));
    }
    let (name, protocol): (String, Option<String>) = match rsplit_at_char(&chars_of(wanted), '@') {
        Some((name, protocol)) => (
            string_of(&name),
            Some(protocol_kind(string_of(&protocol).as_str())),
        ),
        None => (wanted.to_owned(), None),
    };
    let i: usize = match find_name(outputs, name.as_str()) {
        Some(i) => i,
        None => {
            let mut text = concat("no sink matching ", quoted(wanted).as_str());
            text.append(" — `sinks` to list what was discovered");
            return Err(text);
        },
    };
    match protocol {
        None => Ok((outputs[i].id.clone(), outputs[i].name.clone())),
        Some(kind) => match find_endpoint(&outputs[i].protocols, kind.as_str()) {
            Some(k) => Ok((outputs[i].protocols[k].1.clone(), outputs[i].name.clone())),
            None => {
                let mut text = concat(quoted(name.as_str()).as_str(), " is not reachable over ");
                text.append(kind.as_str());
                Err(text)
            },
        },
    }
}

/// Whether output `i` is a network output with the id `wanted`, or whose name in lower case, as
/// `names` has it, starts with `lower`.
pub open spec fn settable(
    outputs: Seq<Output>,
    names: Seq<Seq<char>>,
    wanted: Seq<char>,
    lower: Seq<char>,
    i: int,
) -> bool {
    outputs[i].kind@ != "local"@ && (outputs[i].id@ == wanted || lower.is_prefix_of(names[i]))
}

/// The first network output with the id `wanted`, or whose name starts with `lower`, given the
/// outputs' names in lower case.
pub fn first_settable(
    outputs: &Vec<Output>,
    names: &Vec<String>,
    wanted: &str,
    lower: &str,
) -> (at: Option<usize>)
    requires
        names@.len() == outputs@.len(),
    ensures
        match at {
            Some(i) => i < outputs@.len() && settable(
                outputs@,
                texts(names@),
                wanted@,
                lower@,
                i as int,
            ) && forall|k: int|
                0 <= k < i ==> !#[trigger] settable(
                    outputs@,
                    texts(names@),
                    wanted@,
                    lower@,
                    k,
                ),
            None => forall|k: int|
                0 <= k < outputs@.len() ==> !#[trigger] settable(
                    outputs@,
                    texts(names@),
                    wanted@,
                    lower@,
                    k,
                ),
        },
{
    let mut i: usize = 0;
    while i < outputs.len()
        invariant
            i <= outputs@.len(),
            names@.len() == outputs@.len(),
            forall|k: int|
                0 <= k < i ==> !#[trigger] settable(
                    outputs@,
                    texts(names@),
                    wanted@,
                    lower@,
                    k,
                ),
        decreases outputs.len() - i,
    {
        assert(texts(names@)[i as int] == names@[i as int]@);
        let named: bool = same(outputs[i].id.as_str(), wanted) || starts_with(
            names[i].as_str(),
            lower,
        );
        if !same(outputs[i].kind.as_str(), "local") && named {
            return Some(i);
        }
        i = i + 1;
    }
    None
}

/// Which network output a delivery mode is set for, named like an output is selected, without a
/// protocol; or what to say instead.
pub fn output_to_set(outputs: &Vec<Output>, wanted: &str) -> (at: std::result::Result<
    usize,
    String,
>)
    ensures
        match at {
            Ok(i) => i < outputs@.len() && crate::rows::first_at(outputs@, is_network(wanted@))
                == Some(i as int),
            Err(why) => crate::rows::first_at(outputs@, is_network(wanted@)) is None && why@
                == "no network output matching "@ + quoted_text(wanted@)
                + " — `sinks` to list them"@,
        },
{
    let names = lowered_names(outputs);
    let lower = lowered(wanted);
    assert(texts(names@).len() == names@.len());
    assert(lower_names(outputs@).len() == outputs@.len());
    let at = first_settable(outputs, &names, wanted, lower.as_str());
    proof {
        let p = is_network(wanted@);
        assert forall|k: int| 0 <= k < outputs@.len() implies p(outputs@[k])
            == #[trigger] settable(outputs@, texts(names@), wanted@, lower@, k) by {
            assert(lower_names(outputs@)[k] == lower_text(outputs@[k].name@));
        }
        match at {
            Some(i) => {
                assert forall|j: int| 0 <= j < i implies !p(#[trigger] outputs@[j]) by {
                    assert(!settable(outputs@, texts(names@), wanted@, lower@, j));
                }
                crate::rows::found_first(outputs@, p, i as int);
            },
            None => {
                assert forall|j: int| 0 <= j < outputs@.len() implies !p(
                    #[trigger] outputs@[j],
                ) by {
                    assert(!settable(outputs@, texts(names@), wanted@, lower@, j));
                }
                crate::rows::found_none(outputs@, p);
            },
        }
    }
    match at {
        Some(i) => Ok(i),
        None => {
            let mut text = concat("no network output matching ", quoted(wanted).as_str());
            text.append(" — `sinks` to list them");
            Err(text)
        },
    }
}

/// A time is written in minutes and two digits of seconds, the rest of a second dropped.
pub proof fn a_time_is_written_in_minutes_and_seconds(minutes: u64, secs: u64, rest: u64)
    requires
        secs < 60,
        rest < 1_000,
        (minutes * 60 + secs) * 1_000 + rest <= u64::MAX,
    ensures
        clock_text(((minutes * 60 + secs) * 1_000 + rest) as u64) == decimal(minutes as nat) + ":"@
            + (if secs < 10 {
            "0"@ + decimal(secs as nat)
        } else {
            decimal(secs as nat)
        }),
{
    let ms = (minutes * 60 + secs) * 1_000 + rest;
    assert(ms / 1_000 == minutes * 60 + secs);
    assert((minutes * 60 + secs) / 60 == minutes);
    assert((minutes * 60 + secs) % 60 == secs);
}

/// Padding leaves a text as it is and puts spaces behind it, as many as it falls short.
pub proof fn padding_puts_spaces_behind(s: Seq<char>, width: int)
    ensures
        s.is_prefix_of(padded(s, width)),
        s.len() >= width ==> padded(s, width) == s,
        s.len() < width ==> padded(s, width).len() == width,
        forall|i: int|
            s.len() <= i < padded(s, width).len() ==> #[trigger] padded(s, width)[i] == ' ',
{
}

/// Entries are numbered one after the other: one more stands behind the others, under the next
/// number.
pub proof fn entries_are_numbered_in_order(n: nat, lines: Seq<Seq<char>>, line: Seq<char>)
    ensures
        entries_text(n, lines.push(line)) == entries_text(n, lines) + ("  #"@ + padded(
            decimal(n + lines.len()),
            3,
        ) + " "@ + line + "\n"@),
        entries_text(n, Seq::empty()) == Seq::<char>::empty(),
{
    assert(lines.push(line).drop_last() =~= lines);
}

/// The year of a plainly written date is its first four characters; a shorter one has none.
pub proof fn the_year_is_the_first_four_characters(date: Seq<char>)
    requires
        forall|i: int| 0 <= i < date.len() ==> #[trigger] date[i] <= '\u{7f}',
    ensures
        date.len() >= 4 ==> year_of(date) == Some(date.take(4)),
        date.len() < 4 ==> year_of(date) is None,
{
    assert forall|n: int| 0 <= n <= date.len() implies #[trigger] bytes_upto(date, n) == n by {
        plain_characters_are_bytes(date, n);
    }
    if date.len() >= 4 {
        assert(is_byte_prefix(date, 4, 4));
    }
}

proof fn a_plain_character_is_a_byte(c: char)
    requires
        c <= '\u{7f}',
    ensures
        char_bytes(c) == 1,
{
}

proof fn plain_characters_are_bytes(s: Seq<char>, n: int)
    requires
        forall|i: int| 0 <= i < s.len() ==> #[trigger] s[i] <= '\u{7f}',
        0 <= n <= s.len(),
    ensures
        bytes_upto(s, n) == n,
    decreases n,
{
    if n > 0 {
        plain_characters_are_bytes(s, n - 1);
        assert(s[n - 1] <= '\u{7f}');
        a_plain_character_is_a_byte(s[n - 1]);
    }
}

/// An output named by its id is that output, whatever others are called; where none has the id, it
/// is the first whose name begins as asked, but for case.
pub proof fn an_output_is_chosen_by_its_id_first(outputs: Seq<Output>, wanted: Seq<char>, at: int)
    requires
        0 <= at < outputs.len(),
    ensures
        outputs[at].id@ == wanted && (forall|k: int|
            0 <= k < at ==> (#[trigger] outputs[k]).id@ != wanted) ==> selection(outputs, wanted)
            == Ok::<(Seq<char>, Seq<char>), Seq<char>>((wanted, outputs[at].name@)),
        (forall|k: int| 0 <= k < outputs.len() ==> (#[trigger] outputs[k]).id@ != wanted)
            && !wanted.contains('@') && lower_text(wanted).is_prefix_of(
            lower_text(outputs[at].name@),
        ) && (forall|k: int|
            0 <= k < at ==> !lower_text(wanted).is_prefix_of(
                lower_text((#[trigger] outputs[k]).name@),
            )) ==> selection(outputs, wanted) == Ok::<(Seq<char>, Seq<char>), Seq<char>>(
            (outputs[at].id@, outputs[at].name@),
        ),
{
    if outputs[at].id@ == wanted && (forall|k: int|
        0 <= k < at ==> (#[trigger] outputs[k]).id@ != wanted) {
        crate::rows::found_first(outputs, has_id(wanted), at);
    }
    if (forall|k: int| 0 <= k < outputs.len() ==> (#[trigger] outputs[k]).id@ != wanted)
        && !wanted.contains('@') && lower_text(wanted).is_prefix_of(lower_text(outputs[at].name@))
        && (forall|k: int|
        0 <= k < at ==> !lower_text(wanted).is_prefix_of(lower_text((#[trigger] outputs[k]).name@)))
    {
        crate::rows::found_none(outputs, has_id(wanted));
        no_mark_is_found(wanted, '@', wanted.len() as int);
        crate::rows::found_first(outputs, has_name(wanted), at);
    }
}

proof fn no_mark_is_found(s: Seq<char>, mark: char, n: int)
    requires
        !s.contains(mark),
        0 <= n <= s.len(),
    ensures
        crate::line::last_at(s, mark, n) is None,
    decreases n,
{
    if n > 0 {
        assert(s.contains(s[n - 1]));
        no_mark_is_found(s, mark, n - 1);
    }
}

/// The place in the queue is counted from one, out of how many there are.
pub proof fn the_place_in_the_queue_counts_from_one(index: u64, len: u64)
    requires
        index < len,
    ensures
        queue_text(Some((index, len))) == "  ["@ + decimal((index + 1) as nat) + "/"@ + decimal(
            len as nat,
        ) + "]"@,
{
}

} // verus!
