//! What the client shows of an answer: listings of what was found, the queue, the outputs and the
//! connections.

use vstd::prelude::*;
use vstd::string::*;

use crate::client::{items_view, Item, ItemView};
use crate::connection::ConnectionInfo;
use crate::id::{uuid_text, SourceRef};
use crate::listing::{
    album_line, album_text, entries_text, entry_items, entry_lines, granted, grants, pad, padded,
    standing, track_line, track_text, worth_echoing, Numbered, Output, POSITION_ECHO_MS,
};
use crate::model::EntityKind;
use crate::text::{concat, decimal, join, joined, number, texts};
use crate::track::TrackRef;
use crate::view::{
    AlbumDetail, AlbumView, ArtistDetail, ArtistView, ImportReport, LibraryPage, ListedTrack,
    MixView, PlaylistDetail, PlaylistView, SearchView, TrackView,
};

verus! {

/// What a [`Numbered`] says.
#[verifier::ext_equal]
pub struct ListingView {
    pub text: Seq<char>,
    pub items: Seq<ItemView>,
}

impl View for Numbered {
    type V = ListingView;

    open spec fn view(&self) -> ListingView {
        ListingView { text: self.text@, items: items_view(self.items@) }
    }
}

impl ListingView {
    /// A listing with nothing in it.
    pub open spec fn empty() -> ListingView {
        ListingView { text: Seq::empty(), items: Seq::empty() }
    }

    /// The listing with a line that is not an entry.
    pub open spec fn headed(self, line: Seq<char>) -> ListingView {
        ListingView { text: self.text + line + "\n"@, ..self }
    }

    /// The listing with a titled run of entries; unchanged where there are none.
    pub open spec fn with(
        self,
        title: Seq<char>,
        items: Seq<ItemView>,
        lines: Seq<Seq<char>>,
    ) -> ListingView {
        ListingView {
            text: self.text + if lines.len() == 0 {
                Seq::empty()
            } else {
                (if title.len() == 0 {
                    Seq::empty()
                } else {
                    title + "\n"@
                }) + entries_text(self.items.len() + 1, lines)
            },
            items: self.items + items,
        }
    }

    pub open spec fn with_tracks(self, title: Seq<char>, tracks: Seq<TrackView>) -> ListingView {
        self.with(
            title,
            tracks.map_values(|t: TrackView| ItemView::Entity(uuid_text(t.id.0))),
            tracks.map_values(|t: TrackView| track_text(t)),
        )
    }

    pub open spec fn with_albums(self, title: Seq<char>, albums: Seq<AlbumView>) -> ListingView {
        self.with(
            title,
            albums.map_values(|a: AlbumView| ItemView::Entity(uuid_text(a.id.0))),
            albums.map_values(|a: AlbumView| album_text(a)),
        )
    }

    pub open spec fn with_artists(self, title: Seq<char>, artists: Seq<ArtistView>) -> ListingView {
        self.with(
            title,
            artists.map_values(|a: ArtistView| ItemView::Entity(uuid_text(a.id.0))),
            artists.map_values(|a: ArtistView| a.name@),
        )
    }

    pub open spec fn with_playlists(
        self,
        title: Seq<char>,
        playlists: Seq<PlaylistView>,
    ) -> ListingView {
        self.with(
            title,
            playlists.map_values(|p: PlaylistView| ItemView::Entity(uuid_text(p.id.0))),
            playlists.map_values(|p: PlaylistView| playlist_text(p)),
        )
    }

    pub open spec fn with_mixes(self, mixes: Seq<MixView>) -> ListingView {
        self.with(
            Seq::empty(),
            mixes.map_values(|m: MixView| ItemView::Mix { service: m.service, mix: m.mix@, kind: None }),
            mixes.map_values(|m: MixView| m.name@ + " — "@ + m.description@),
        )
    }
}

/// A playlist on one line.
pub open spec fn playlist_text(playlist: PlaylistView) -> Seq<char> {
    playlist.name@ + " ("@ + decimal(playlist.track_count as nat) + " tracks)"@
}

/// A playlist on one line.
pub fn playlist_line(playlist: &PlaylistView) -> (r: String)
    ensures
        r@ == playlist_text(*playlist),
{
    let mut r = concat(playlist.name.as_str(), " (");
    r.append(number(playlist.track_count as u64).as_str());
    r.append(" tracks)");
    r
}

/// Add a titled run of entries.
fn put(
    listing: &mut Numbered,
    title: &str,
    entries: Vec<(Item, String)>,
    Ghost(items): Ghost<Seq<ItemView>>,
    Ghost(lines): Ghost<Seq<Seq<char>>>,
)
    requires
        old(listing).items@.len() + entries@.len() <= usize::MAX,
        entry_items(entries@) == items,
        entry_lines(entries@) == lines,
    ensures
        final(listing)@ == old(listing)@.with(title@, items, lines),
        final(listing).items@.len() == old(listing).items@.len() + entries@.len(),
{
    assert(entry_lines(entries@).len() == entries@.len());
    assert(items_view(listing.items@).len() == listing.items@.len());
    listing.section(title, entries);
    assert(items_view(listing.items@).len() == listing.items@.len());
    assert(listing@ =~= old(listing)@.with(title@, items, lines));
}

fn put_heading(listing: &mut Numbered, line: &str)
    ensures
        final(listing)@ == old(listing)@.headed(line@),
        final(listing).items@.len() == old(listing).items@.len(),
{
    listing.heading(line);
    assert(listing@ =~= old(listing)@.headed(line@));
}

fn put_tracks(listing: &mut Numbered, title: &str, tracks: &Vec<TrackView>)
    requires
        old(listing).items@.len() + tracks@.len() <= usize::MAX,
    ensures
        final(listing)@ == old(listing)@.with_tracks(title@, tracks@),
        final(listing).items@.len() == old(listing).items@.len() + tracks@.len(),
{
    let ghost items = tracks@.map_values(|t: TrackView| ItemView::Entity(uuid_text(t.id.0)));
    let ghost lines = tracks@.map_values(|t: TrackView| track_text(t));
    let mut entries: Vec<(Item, String)> = Vec::new();
    let mut i: usize = 0;
    while i < tracks.len()
        invariant
            i <= tracks@.len(),
            entries@.len() == i,
            forall|k: int|
                0 <= k < i ==> (#[trigger] entries@[k]).0@ == ItemView::Entity(
                    uuid_text(tracks@[k].id.0),
                ) && entries@[k].1@ == track_text(tracks@[k]),
        decreases tracks.len() - i,
    {
        entries.push((Item::Entity(tracks[i].id.text()), track_line(&tracks[i])));
        i = i + 1;
    }
    assert(entry_items(entries@) =~= items);
    assert(entry_lines(entries@) =~= lines);
    put(listing, title, entries, Ghost(items), Ghost(lines));
}

fn put_albums(listing: &mut Numbered, title: &str, albums: &Vec<AlbumView>)
    requires
        old(listing).items@.len() + albums@.len() <= usize::MAX,
    ensures
        final(listing)@ == old(listing)@.with_albums(title@, albums@),
        final(listing).items@.len() == old(listing).items@.len() + albums@.len(),
{
    let ghost items = albums@.map_values(|a: AlbumView| ItemView::Entity(uuid_text(a.id.0)));
    let ghost lines = albums@.map_values(|a: AlbumView| album_text(a));
    let mut entries: Vec<(Item, String)> = Vec::new();
    let mut i: usize = 0;
    while i < albums.len()
        invariant
            i <= albums@.len(),
            entries@.len() == i,
            forall|k: int|
                0 <= k < i ==> (#[trigger] entries@[k]).0@ == ItemView::Entity(
                    uuid_text(albums@[k].id.0),
                ) && entries@[k].1@ == album_text(albums@[k]),
        decreases albums.len() - i,
    {
        entries.push((Item::Entity(albums[i].id.text()), album_line(&albums[i])));
        i = i + 1;
    }
    assert(entry_items(entries@) =~= items);
    assert(entry_lines(entries@) =~= lines);
    put(listing, title, entries, Ghost(items), Ghost(lines));
}

fn put_artists(listing: &mut Numbered, title: &str, artists: &Vec<ArtistView>)
    requires
        old(listing).items@.len() + artists@.len() <= usize::MAX,
    ensures
        final(listing)@ == old(listing)@.with_artists(title@, artists@),
        final(listing).items@.len() == old(listing).items@.len() + artists@.len(),
{
    let ghost items = artists@.map_values(|a: ArtistView| ItemView::Entity(uuid_text(a.id.0)));
    let ghost lines = artists@.map_values(|a: ArtistView| a.name@);
    let mut entries: Vec<(Item, String)> = Vec::new();
    let mut i: usize = 0;
    while i < artists.len()
        invariant
            i <= artists@.len(),
            entries@.len() == i,
            forall|k: int|
                0 <= k < i ==> (#[trigger] entries@[k]).0@ == ItemView::Entity(
                    uuid_text(artists@[k].id.0),
                ) && entries@[k].1@ == artists@[k].name@,
        decreases artists.len() - i,
    {
        entries.push((Item::Entity(artists[i].id.text()), artists[i].name.clone()));
        i = i + 1;
    }
    assert(entry_items(entries@) =~= items);
    assert(entry_lines(entries@) =~= lines);
    put(listing, title, entries, Ghost(items), Ghost(lines));
}

fn put_playlists(listing: &mut Numbered, title: &str, playlists: &Vec<PlaylistView>)
    requires
        old(listing).items@.len() + playlists@.len() <= usize::MAX,
    ensures
        final(listing)@ == old(listing)@.with_playlists(title@, playlists@),
{
    let ghost items = playlists@.map_values(
        |p: PlaylistView| ItemView::Entity(uuid_text(p.id.0)),
    );
    let ghost lines = playlists@.map_values(|p: PlaylistView| playlist_text(p));
    let mut entries: Vec<(Item, String)> = Vec::new();
    let mut i: usize = 0;
    while i < playlists.len()
        invariant
            i <= playlists@.len(),
            entries@.len() == i,
            forall|k: int|
                0 <= k < i ==> (#[trigger] entries@[k]).0@ == ItemView::Entity(
                    uuid_text(playlists@[k].id.0),
                ) && entries@[k].1@ == playlist_text(playlists@[k]),
        decreases playlists.len() - i,
    {
        entries.push((Item::Entity(playlists[i].id.text()), playlist_line(&playlists[i])));
        i = i + 1;
    }
    assert(entry_items(entries@) =~= items);
    assert(entry_lines(entries@) =~= lines);
    put(listing, title, entries, Ghost(items), Ghost(lines));
}

fn blank() -> (listing: Numbered)
    ensures
        listing@ == ListingView::empty(),
        listing.items@.len() == 0,
{
    let listing = Numbered::new();
    assert(listing@ =~= ListingView::empty());
    listing
}

/// What a search found: its tracks, albums and artists.
pub fn search_listing(found: &SearchView) -> (listing: Numbered)
    requires
        found.tracks@.len() + found.albums@.len() + found.artists@.len() <= usize::MAX,
    ensures
        listing@ == ListingView::empty().with_tracks("tracks"@, found.tracks@).with_albums(
            "albums"@,
            found.albums@,
        ).with_artists("artists"@, found.artists@),
{
    let mut listing = blank();
    put_tracks(&mut listing, "tracks", &found.tracks);
    put_albums(&mut listing, "albums", &found.albums);
    put_artists(&mut listing, "artists", &found.artists);
    listing
}

/// The tracks of a tracklist.
pub open spec fn tracks_of(listed: Seq<ListedTrack>) -> Seq<TrackView> {
    listed.map_values(|l: ListedTrack| l.track)
}

/// An album and its tracklist.
pub fn album_listing(detail: &AlbumDetail) -> (listing: Numbered)
    ensures
        listing@ == ListingView::empty().headed(album_text(detail.album)).with_tracks(
            ""@,
            tracks_of(detail.tracks@),
        ),
{
    let mut listing = blank();
    put_heading(&mut listing, album_line(&detail.album).as_str());
    let ghost tracks = tracks_of(detail.tracks@);
    let ghost items = tracks.map_values(|t: TrackView| ItemView::Entity(uuid_text(t.id.0)));
    let ghost lines = tracks.map_values(|t: TrackView| track_text(t));
    let mut entries: Vec<(Item, String)> = Vec::new();
    let mut i: usize = 0;
    while i < detail.tracks.len()
        invariant
            i <= detail.tracks@.len(),
            entries@.len() == i,
            forall|k: int|
                0 <= k < i ==> (#[trigger] entries@[k]).0@ == ItemView::Entity(
                    uuid_text(detail.tracks@[k].track.id.0),
                ) && entries@[k].1@ == track_text(detail.tracks@[k].track),
        decreases detail.tracks.len() - i,
    {
        let track = &detail.tracks[i].track;
        entries.push((Item::Entity(track.id.text()), track_line(track)));
        i = i + 1;
    }
    assert(entry_items(entries@) =~= items);
    assert(entry_lines(entries@) =~= lines);
    put(&mut listing, "", entries, Ghost(items), Ghost(lines));
    listing
}

/// An artist, their top tracks and releases.
pub fn artist_listing(detail: &ArtistDetail) -> (listing: Numbered)
    requires
        detail.top_tracks@.len() + detail.albums@.len() <= usize::MAX,
    ensures
        listing@ == ListingView::empty().headed(detail.artist.name@).with_tracks(
            "top tracks"@,
            detail.top_tracks@,
        ).with_albums("releases"@, detail.albums@),
{
    let mut listing = blank();
    put_heading(&mut listing, detail.artist.name.as_str());
    put_tracks(&mut listing, "top tracks", &detail.top_tracks);
    put_albums(&mut listing, "releases", &detail.albums);
    listing
}

/// A playlist and its tracks.
pub fn playlist_listing(detail: &PlaylistDetail) -> (listing: Numbered)
    ensures
        listing@ == ListingView::empty().headed(detail.playlist.name@).with_tracks(
            ""@,
            detail.tracks@,
        ),
{
    let mut listing = blank();
    put_heading(&mut listing, detail.playlist.name.as_str());
    assert(detail.tracks@.len() == detail.tracks.len());
    put_tracks(&mut listing, "", &detail.tracks);
    listing
}

/// The user's playlists.
pub fn playlists_listing(page: &LibraryPage) -> (listing: Numbered)
    ensures
        listing@ == if page.total == 0 {
            ListingView::empty().headed("no playlists"@).with_playlists(
                "playlists"@,
                page.playlists@,
            )
        } else {
            ListingView::empty().with_playlists("playlists"@, page.playlists@)
        },
{
    let mut listing = blank();
    if page.total == 0 {
        put_heading(&mut listing, "no playlists");
    }
    assert(page.playlists@.len() == page.playlists.len());
    put_playlists(&mut listing, "playlists", &page.playlists);
    listing
}

/// A page of what the user has saved of one kind.
pub fn library_listing(kind: EntityKind, page: &LibraryPage) -> (listing: Numbered)
    requires
        page.tracks@.len() + page.albums@.len() + page.artists@.len() <= usize::MAX,
    ensures
        listing@ == ListingView::empty().headed(
            decimal(page.total as nat) + " saved "@ + kind.name() + "s"@,
        ).with_tracks(""@, page.tracks@).with_albums(""@, page.albums@).with_artists(
            ""@,
            page.artists@,
        ),
{
    let mut listing = blank();
    let mut head = concat(number(page.total as u64).as_str(), " saved ");
    head.append(kind.as_str());
    head.append("s");
    put_heading(&mut listing, head.as_str());
    put_tracks(&mut listing, "", &page.tracks);
    put_albums(&mut listing, "", &page.albums);
    put_artists(&mut listing, "", &page.artists);
    listing
}

/// A titled list of tracks.
pub fn tracks_listing(title: &str, tracks: &Vec<TrackView>) -> (listing: Numbered)
    ensures
        listing@ == ListingView::empty().with_tracks(title@, tracks@),
{
    let mut listing = blank();
    assert(tracks@.len() == tracks.len());
    put_tracks(&mut listing, title, tracks);
    listing
}

/// Artists like one another.
pub fn similar_listing(artists: &Vec<ArtistView>) -> (listing: Numbered)
    ensures
        listing@ == ListingView::empty().with_artists("similar artists"@, artists@),
{
    let mut listing = blank();
    assert(artists@.len() == artists.len());
    put_artists(&mut listing, "similar artists", artists);
    listing
}

/// The mixes a service has made.
pub fn mixes_listing(mixes: &Vec<MixView>) -> (listing: Numbered)
    ensures
        listing@ == ListingView::empty().with_mixes(mixes@),
{
    let mut listing = blank();
    let ghost items = mixes@.map_values(
        |m: MixView| ItemView::Mix { service: m.service, mix: m.mix@, kind: None },
    );
    let ghost lines = mixes@.map_values(|m: MixView| m.name@ + " — "@ + m.description@);
    let mut entries: Vec<(Item, String)> = Vec::new();
    let mut i: usize = 0;
    while i < mixes.len()
        invariant
            i <= mixes@.len(),
            entries@.len() == i,
            forall|k: int|
                0 <= k < i ==> (#[trigger] entries@[k]).0@ == (ItemView::Mix {
                    service: mixes@[k].service,
                    mix: mixes@[k].mix@,
                    kind: None,
                }) && entries@[k].1@ == mixes@[k].name@ + " — "@ + mixes@[k].description@,
        decreases mixes.len() - i,
    {
        let mix = &mixes[i];
        let mut line = concat(mix.name.as_str(), " — ");
        line.append(mix.description.as_str());
        entries.push((Item::Mix { service: mix.service, mix: mix.mix.clone(), kind: None }, line));
        i = i + 1;
    }
    assert(entry_items(entries@) =~= items);
    assert(entry_lines(entries@) =~= lines);
    proof {
        reveal_strlit("");
        assert(""@ =~= Seq::<char>::empty());
    }
    put(&mut listing, "", entries, Ghost(items), Ghost(lines));
    listing
}

/// `s` with spaces before it up to `width` characters.
pub open spec fn right(s: Seq<char>, width: int) -> Seq<char> {
    if s.len() >= width {
        s
    } else {
        Seq::new((width - s.len()) as nat, |i: int| ' ') + s
    }
}

/// `n` with spaces before it up to three characters.
fn right_of_three(n: u64) -> (r: String)
    ensures
        r@ == right(decimal(n as nat), 3),
{
    let digits = number(n);
    let ghost spaces2 = Seq::new(2, |i: int| ' ');
    let ghost spaces1 = Seq::new(1, |i: int| ' ');
    proof {
        reveal_with_fuel(decimal, 4);
        reveal_strlit("  ");
        reveal_strlit(" ");
    }
    if n < 10 {
        assert("  "@ =~= spaces2);
        concat("  ", digits.as_str())
    } else if n < 100 {
        assert(" "@ =~= spaces1);
        concat(" ", digits.as_str())
    } else {
        proof {
            digits_of_a_hundred(n as nat);
        }
        digits
    }
}

proof fn digits_of_a_hundred(n: nat)
    requires
        n >= 100,
    ensures
        decimal(n).len() >= 3,
    decreases n,
{
    reveal_with_fuel(decimal, 4);
    if n >= 1000 {
        digits_of_a_hundred(n / 10);
    }
}

/// What a queue entry is called: its title, or the service's id for it where it has none.
pub open spec fn entry_name(track: TrackRef) -> Seq<char> {
    if track.meta.title@.len() > 0 {
        track.meta.title@
    } else {
        "(tidal "@ + (if track.sources@.len() == 0 {
            "?"@
        } else {
            match track.sources@[0] {
                SourceRef::Local { .. } => "?"@,
                SourceRef::Tidal { id } => id@,
                SourceRef::Spotify { id } => id@,
            }
        }) + ")"@
    }
}

fn name_of_entry(track: &TrackRef) -> (r: String)
    ensures
        r@ == entry_name(*track),
{
    if !track.meta.title.as_str().is_empty() {
        return track.meta.title.clone();
    }
    let mut r: String = if track.sources.len() == 0 {
        concat("(tidal ", "?")
    } else {
        match &track.sources[0] {
            SourceRef::Local { .. } => concat("(tidal ", "?"),
            SourceRef::Tidal { id } => concat("(tidal ", id.as_str()),
            SourceRef::Spotify { id } => concat("(tidal ", id.as_str()),
        }
    };
    r.append(")");
    r
}

/// The line of entry `i` of the queue, marked if it is the current one.
pub open spec fn queue_line(track: TrackRef, i: int, current: bool) -> Seq<char> {
    (if current {
        "> "@
    } else {
        "  "@
    }) + right(decimal((i + 1) as nat), 3) + ". "@ + entry_name(track)
}

/// The queue, one line for each entry.
pub fn queue_lines(tracks: &Vec<TrackRef>, index: usize) -> (lines: Vec<String>)
    ensures
        texts(lines@) == if tracks@.len() == 0 {
            seq!["queue is empty"@]
        } else {
            Seq::new(
                tracks@.len(),
                |i: int| queue_line(tracks@[i], i, i == index),
            )
        },
{
    let mut lines: Vec<String> = Vec::new();
    if tracks.len() == 0 {
        lines.push("queue is empty".to_owned());
        assert(texts(lines@) =~= seq!["queue is empty"@]);
        return lines;
    }
    let mut i: usize = 0;
    while i < tracks.len()
        invariant
            i <= tracks@.len(),
            lines@.len() == i,
            forall|k: int|
                0 <= k < i ==> (#[trigger] lines@[k])@ == queue_line(tracks@[k], k, k == index),
        decreases tracks.len() - i,
    {
        let mut line: String = if i == index {
            "> ".to_owned()
        } else {
            "  ".to_owned()
        };
        line.append(right_of_three(i as u64 + 1).as_str());
        line.append(". ");
        line.append(name_of_entry(&tracks[i]).as_str());
        lines.push(line);
        i = i + 1;
    }
    assert(texts(lines@) =~= Seq::new(
        tracks@.len(),
        |i: int| queue_line(tracks@[i], i, i == index),
    ));
    lines
}

/// The protocols an output answers on besides the preferred one.
pub open spec fn other_protocols(output: Output) -> Seq<Seq<char>> {
    if output.protocols@.len() == 0 {
        Seq::empty()
    } else {
        output.protocols@.skip(1).map_values(|p: (String, String)| p.0@)
    }
}

/// An output on one line.
pub open spec fn output_text(output: Output) -> Seq<char> {
    padded(output.kind@, 10) + " "@ + padded(output.name@, 24) + " "@ + output.id@ + if other_protocols(
        output,
    ).len() == 0 {
        Seq::empty()
    } else {
        "  (also "@ + joined(other_protocols(output), ", "@) + ")"@
    }
}

/// An output on one line.
pub fn output_line(output: &Output) -> (r: String)
    ensures
        r@ == output_text(*output),
{
    let mut others: Vec<String> = Vec::new();
    let mut i: usize = 1;
    while i < output.protocols.len()
        invariant
            1 <= i,
            output.protocols@.len() == 0 || i <= output.protocols@.len(),
            output.protocols@.len() == 0 ==> i == 1,
            others@.len() == i - 1,
            forall|k: int|
                0 <= k < others@.len() ==> (#[trigger] others@[k])@ == output.protocols@[k + 1].0@,
        decreases output.protocols.len() - i,
    {
        others.push(output.protocols[i].0.clone());
        i = i + 1;
    }
    assert(texts(others@) =~= other_protocols(*output));
    let mut r = pad(output.kind.as_str(), 10);
    r.append(" ");
    r.append(pad(output.name.as_str(), 24).as_str());
    r.append(" ");
    r.append(output.id.as_str());
    let ghost so_far = r@;
    assert(so_far + Seq::<char>::empty() =~= so_far);
    assert(texts(others@).len() == others@.len());
    if others.len() > 0 {
        r.append("  (also ");
        r.append(join(&others, ", ").as_str());
        r.append(")");
        assert(r@ =~= so_far + ("  (also "@ + joined(other_protocols(*output), ", "@) + ")"@));
    }
    r
}

/// How a connection stands, in words.
pub open spec fn standing_text(connection: ConnectionInfo) -> Seq<char> {
    match connection.health {
        crate::connection::Health::Healthy => "signed in as "@ + match connection.account {
            Some(account) => account.user_id@,
            None => "?"@,
        },
        crate::connection::Health::NeedsLogin => "not signed in"@,
        crate::connection::Health::Degraded { why } => "signed in, degraded: "@ + why@,
        crate::connection::Health::Failing { why } => "failing: "@ + why@,
    }
}

/// The space a connection's method takes on a line, for the lines below it.
pub open spec fn margin() -> Seq<char> {
    "                   "@
}

/// A connection: its method and how it stands, what it grants, and what it has been shown to
/// grant.
pub open spec fn connection_text(connection: ConnectionInfo) -> Seq<Seq<char>> {
    let head = seq![
        "  "@ + padded(connection.id@, 16) + " "@ + padded(connection.label@, 32) + " "@
            + standing_text(connection),
        margin() + "grants: "@ + joined(granted(connection.grants), ", "@),
    ];
    match connection.verified {
        Some(verified) => head.push(margin() + "verified: "@ + joined(granted(verified), ", "@)),
        None => head,
    }
}

/// A connection, line by line.
pub fn connection_lines(connection: &ConnectionInfo) -> (lines: Vec<String>)
    ensures
        texts(lines@) == connection_text(*connection),
{
    let mut lines: Vec<String> = Vec::new();
    let mut first = concat("  ", pad(connection.id.as_str(), 16).as_str());
    first.append(" ");
    first.append(pad(connection.label.as_str(), 32).as_str());
    first.append(" ");
    first.append(standing(connection).as_str());
    lines.push(first);
    let mut second = concat("                   ", "grants: ");
    second.append(grants(&connection.grants).as_str());
    lines.push(second);
    if let Some(verified) = &connection.verified {
        let mut third = concat("                   ", "verified: ");
        third.append(grants(verified).as_str());
        lines.push(third);
    }
    assert(texts(lines@) =~= connection_text(*connection));
    lines
}

/// What an import brought in, in words.
pub fn import_line(report: &ImportReport) -> (r: String)
    ensures
        r@ == "imported "@ + decimal(report.tracks as nat) + " tracks, "@ + decimal(
            report.albums as nat,
        ) + " albums, "@ + decimal(report.artists as nat) + " artists, "@ + decimal(
            report.playlists as nat,
        ) + " playlists"@,
{
    let mut r = concat("imported ", number(report.tracks as u64).as_str());
    r.append(" tracks, ");
    r.append(number(report.albums as u64).as_str());
    r.append(" albums, ");
    r.append(number(report.artists as u64).as_str());
    r.append(" artists, ");
    r.append(number(report.playlists as u64).as_str());
    r.append(" playlists");
    r
}

/// Watching the daemon's snapshots go by.
#[derive(Debug, Clone, Copy, PartialEq, Eq, Structural)]
pub struct Watch {
    /// The last transition seen.
    pub seq: u64,
    /// Whether frames are shown as they are, and nothing else.
    pub raw: bool,
    /// Whether nothing is echoed.
    pub quiet: bool,
}

impl Watch {
    /// Nothing seen yet: the first snapshot is news, whichever it is.
    pub fn new(raw: bool, quiet: bool) -> (watch: Watch)
        ensures
            watch == (Watch { seq: u64::MAX, raw, quiet }),
    {
        Watch { seq: u64::MAX, raw, quiet }
    }

    /// Take note of a snapshot, and say whether it is to be echoed. `since_last_ms` is how long
    /// ago one last was.
    pub fn absorb(&mut self, seq: u64, state: &str, since_last_ms: u64) -> (echo: bool)
        ensures
            *final(self) == (Watch { seq, ..*old(self) }),
            echo == (!old(self).raw && !old(self).quiet && (seq != old(self).seq || (state@
                == "playing"@ && since_last_ms >= POSITION_ECHO_MS))),
    {
        let transition: bool = seq != self.seq;
        self.seq = seq;
        if self.raw || self.quiet {
            return false;
        }
        worth_echoing(transition, state, since_last_ms)
    }
}

/// What a listing numbers is what its numbers name: each track stands under its own id, in order,
/// behind what the listing held before.
pub proof fn listed_tracks_are_named_by_their_numbers(
    listing: ListingView,
    title: Seq<char>,
    tracks: Seq<TrackView>,
    albums: Seq<AlbumView>,
    artists: Seq<ArtistView>,
    playlists: Seq<PlaylistView>,
)
    ensures
        listing.with_tracks(title, tracks).items.len() == listing.items.len() + tracks.len(),
        forall|i: int|
            0 <= i < listing.items.len() ==> #[trigger] listing.with_tracks(title, tracks).items[i]
                == listing.items[i],
        forall|i: int|
            0 <= i < tracks.len() ==> listing.with_tracks(title, tracks).items[listing.items.len()
                + i] == ItemView::Entity(uuid_text((#[trigger] tracks[i]).id.0)),
        forall|i: int|
            0 <= i < albums.len() ==> listing.with_albums(title, albums).items[listing.items.len()
                + i] == ItemView::Entity(uuid_text((#[trigger] albums[i]).id.0)),
        forall|i: int|
            0 <= i < artists.len() ==> listing.with_artists(
                title,
                artists,
            ).items[listing.items.len() + i] == ItemView::Entity(
                uuid_text((#[trigger] artists[i]).id.0),
            ),
        forall|i: int|
            0 <= i < playlists.len() ==> listing.with_playlists(
                title,
                playlists,
            ).items[listing.items.len() + i] == ItemView::Entity(
                uuid_text((#[trigger] playlists[i]).id.0),
            ),
{
}

/// A listing's lines are numbered on from those it had, under the section's title.
pub proof fn a_section_is_numbered_on(
    listing: ListingView,
    title: Seq<char>,
    tracks: Seq<TrackView>,
)
    requires
        title.len() > 0,
        tracks.len() > 0,
    ensures
        listing.with_tracks(title, tracks).text == listing.text + (title + "\n"@ + entries_text(
            listing.items.len() + 1,
            tracks.map_values(|t: TrackView| track_text(t)),
        )),
{
}

/// A queue entry is marked where it plays, numbered from one, and called by its title.
pub proof fn a_queue_line_shows_its_entry(track: TrackRef, i: int)
    requires
        i >= 0,
        track.meta.title@.len() > 0,
    ensures
        queue_line(track, i, true) == "> "@ + right(decimal((i + 1) as nat), 3) + ". "@
            + track.meta.title@,
        queue_line(track, i, false) == "  "@ + right(decimal((i + 1) as nat), 3) + ". "@
            + track.meta.title@,
{
}

/// A number set to the right has its spaces in front.
pub proof fn setting_right_puts_spaces_in_front(s: Seq<char>, width: int)
    ensures
        s.len() >= width ==> right(s, width) == s,
        s.len() < width ==> right(s, width).len() == width && right(s, width).skip(width - s.len())
            == s && forall|i: int| 0 <= i < width - s.len() ==> #[trigger] right(s, width)[i] == ' ',
{
    if s.len() < width {
        assert(right(s, width).skip(width - s.len()) =~= s);
    }
}

} // verus!
