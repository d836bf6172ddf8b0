//! What is the user's: the entities they saved, and their playlists.

use vstd::prelude::*;

use crate::binding::now_ms;
use crate::error::{Error, ErrorView, Result};
use crate::id::EntityId;
use crate::model::{clone_ids, EntityKind, Playlist};
use crate::rows::{
    first_at_matches, first_at_push, in_order, in_order_is_sorted, places, places_are_the_matches,
    put_in_order, Rank,
};
use crate::store::{
    already_taken, dangling, names_nothing, no_such, not_found, playlist_is, saved_is, taken,
    PlaylistEntry, PlaylistRow, SavedRow, Store, StoreModel,
};
use crate::text::{chars_of, concat, decimal, lower_text, lowered, number};
use crate::tracklist::rows_stay_in_bounds;

verus! {

/// `c` in lower case, where it is an ASCII letter.
pub open spec fn folded(c: char) -> char {
    if 'A' <= c <= 'Z' {
        ((c as u32) + 32) as char
    } else {
        c
    }
}

/// `needle` stands in `text` from `at` on, but for the case of ASCII letters.
pub open spec fn stands_at(text: Seq<char>, needle: Seq<char>, at: int) -> bool {
    &&& 0 <= at
    &&& at + needle.len() <= text.len()
    &&& forall|k: int| 0 <= k < needle.len() ==> folded(text[at + k]) == folded(#[trigger] needle[k])
}

/// `needle` stands somewhere in `text`, but for the case of ASCII letters.
pub open spec fn stands_in(text: Seq<char>, needle: Seq<char>) -> bool {
    exists|at: int| stands_at(text, needle, at)
}

/// `text` is ASCII throughout.
pub open spec fn is_plain(text: Seq<char>) -> bool {
    forall|i: int| 0 <= i < text.len() ==> #[trigger] text[i] <= '\u{7f}'
}

/// `text` contains `needle`, but for case. Beyond ASCII the two are held against each other in
/// lower case too.
pub open spec fn contains_text(text: Seq<char>, needle: Seq<char>) -> bool {
    stands_in(text, needle) || (!(is_plain(text) && is_plain(needle)) && stands_in(
        lower_text(text),
        lower_text(needle),
    ))
}

/// `text` contains `query`, if there is one.
pub open spec fn meets(text: Seq<char>, query: Option<Seq<char>>) -> bool {
    query is None || contains_text(text, query->0)
}

pub fn fold(c: char) -> (r: char)
    ensures
        r == folded(c),
{
    if 'A' <= c && c <= 'Z' {
        let lower: u8 = (c as u8) + 32;
        lower as char
    } else {
        c
    }
}

/// Whether `text` is ASCII throughout.
fn plain(text: &str) -> (r: bool)
    ensures
        r == is_plain(text@),
{
    let all = chars_of(text);
    let mut i: usize = 0;
    while i < all.len()
        invariant
            i <= all@.len(),
            all@ == text@,
            forall|k: int| 0 <= k < i ==> #[trigger] text@[k] <= '\u{7f}',
        decreases all.len() - i,
    {
        if all[i] > '\u{7f}' {
            assert(!(text@[i as int] <= '\u{7f}'));
            return false;
        }
        i = i + 1;
    }
    true
}

/// Whether `text` contains `needle`, but for case.
pub fn contains(text: &str, needle: &str) -> (r: bool)
    ensures
        r == contains_text(text@, needle@),
{
    if found_in(text, needle) {
        return true;
    }
    if plain(text) && plain(needle) {
        return false;
    }
    let text_below = lowered(text);
    let needle_below = lowered(needle);
    found_in(text_below.as_str(), needle_below.as_str())
}

/// Whether `text` contains `query`, if there is one.
fn met(text: &str, query: &Option<String>) -> (r: bool)
    ensures
        r == meets(text@, crate::text::opt_text(*query)),
{
    match query {
        Some(q) => contains(text, q.as_str()),
        None => true,
    }
}

/// Whether `needle` stands somewhere in `text`, but for the case of ASCII letters.
fn found_in(text: &str, needle: &str) -> (r: bool)
    ensures
        r == stands_in(text@, needle@),
{
    let whole = chars_of(text);
    let sought = chars_of(needle);
    let size: usize = whole.len();
    if sought.len() > size {
        return false;
    }
    let last: usize = size - sought.len();
    let mut at: usize = 0;
    loop
        invariant
            whole@ == text@,
            sought@ == needle@,
            size == whole@.len(),
            at <= last,
            last + sought@.len() == size,
            forall|a: int| 0 <= a < at ==> !stands_at(text@, needle@, a),
        decreases last - at,
    {
        let mut k: usize = 0;
        while k < sought.len() && fold(whole[at + k]) == fold(sought[k])
            invariant
                size == whole@.len(),
                at <= last,
                last + sought@.len() == size,
                k <= sought@.len(),
                forall|m: int|
                    0 <= m < k ==> folded(whole@[at + m]) == folded(#[trigger] sought@[m]),
            decreases sought.len() - k,
        {
            k = k + 1;
        }
        if k == sought.len() {
            assert(stands_at(text@, needle@, at as int));
            return true;
        }
        assert(!stands_at(text@, needle@, at as int)) by {
            assert(folded(whole@[at + k]) != folded(needle@[k as int]));
        }
        if at == last {
            return false;
        }
        at = at + 1;
    }
}

/// Where a saved row comes: the most recently saved first, and the later row first of two saved
/// at once.
pub open spec fn saved_rank(rows: Seq<SavedRow>, i: int) -> Rank {
    Rank {
        first: -(rows[i].saved_at as i128) as i128,
        second: -(i as i128) as i128,
        third: 0,
        row: i as usize,
    }
}

/// Where a playlist comes: the most recently changed first.
pub open spec fn playlist_rank(rows: Seq<PlaylistEntry>, i: int) -> Rank {
    Rank {
        first: -(rows[i].updated_at as i128) as i128,
        second: -(i as i128) as i128,
        third: 0,
        row: i as usize,
    }
}

pub open spec fn saved_as(kind: EntityKind) -> spec_fn(SavedRow) -> bool {
    |r: SavedRow| r.kind == kind
}

/// A page of `all`: `limit` of them, from `offset` on.
pub open spec fn page_of(all: Seq<EntityId>, limit: int, offset: int) -> Seq<EntityId> {
    if offset >= all.len() {
        Seq::empty()
    } else if offset + limit >= all.len() {
        all.subrange(offset, all.len() as int)
    } else {
        all.subrange(offset, offset + limit)
    }
}

/// A change to a playlist's tracks.
#[derive(Debug, PartialEq, Eq)]
pub enum PlaylistEdit {
    /// Put `tracks` in at a position, or at the end.
    Insert { at: Option<usize>, tracks: Vec<EntityId> },
    /// Take the entry at a position out.
    Remove { index: usize },
    /// Move the entry at `from` so it sits at `to`.
    Move { from: usize, to: usize },
    /// Replace the tracks.
    Replace { tracks: Vec<EntityId> },
}

/// There is no entry `index` in the playlist.
pub open spec fn no_playlist_entry(index: int) -> ErrorView {
    ErrorView::NotFound("no entry "@ + decimal(index as nat) + " in the playlist"@)
}

/// There is no position `at` in the playlist.
pub open spec fn no_playlist_position(at: int) -> ErrorView {
    ErrorView::NotFound("no position "@ + decimal(at as nat) + " in the playlist"@)
}

/// What `edit` makes of `tracks`, or why it cannot be done.
pub open spec fn edited_tracks(
    tracks: Seq<EntityId>,
    edit: PlaylistEdit,
) -> std::result::Result<Seq<EntityId>, ErrorView> {
    match edit {
        PlaylistEdit::Insert { at, tracks: more } => {
            let place = match at {
                Some(at) => at as int,
                None => tracks.len() as int,
            };
            if place > tracks.len() {
                Err(no_playlist_position(place))
            } else {
                Ok(tracks.take(place) + more@ + tracks.skip(place))
            }
        },
        PlaylistEdit::Remove { index } => if index >= tracks.len() {
            Err(no_playlist_entry(index as int))
        } else {
            Ok(tracks.remove(index as int))
        },
        PlaylistEdit::Move { from, to } => if from >= tracks.len() || to >= tracks.len() {
            Err(
                no_playlist_entry(
                    if from >= to {
                        from as int
                    } else {
                        to as int
                    },
                ),
            )
        } else {
            Ok(tracks.remove(from as int).insert(to as int, tracks[from as int]))
        },
        PlaylistEdit::Replace { tracks: instead } => Ok(instead@),
    }
}

impl StoreModel {
    /// Whether an entity of `kind` is there and contains `query`, if there is one: a track or an
    /// album in its title or its credit, an artist or a playlist in its name.
    pub open spec fn answers(
        self,
        kind: EntityKind,
        id: EntityId,
        query: Option<Seq<char>>,
    ) -> bool {
        match kind {
            EntityKind::Track => match self.track_at(id) {
                Some(i) => meets(self.tracks[i].title, query) || meets(
                    self.tracks[i].credit,
                    query,
                ),
                None => false,
            },
            EntityKind::Album => match self.album_at(id) {
                Some(i) => meets(self.albums[i].album.title, query) || meets(
                    self.albums[i].album.credit,
                    query,
                ),
                None => false,
            },
            EntityKind::Artist => match self.artist_at(id) {
                Some(i) => meets(self.artists[i].artist.name, query),
                None => false,
            },
            EntityKind::Playlist => match self.playlist_at(id) {
                Some(i) => meets(self.playlists[i].name, query),
                None => false,
            },
        }
    }

    pub open spec fn saved_answering(
        self,
        kind: EntityKind,
        query: Option<Seq<char>>,
    ) -> spec_fn(SavedRow) -> bool {
        |r: SavedRow| r.kind == kind && self.answers(kind, r.entity, query)
    }

    pub open spec fn playlists_answering(
        self,
        query: Option<Seq<char>>,
    ) -> spec_fn(PlaylistEntry) -> bool {
        |r: PlaylistEntry| meets(r.name, query)
    }

    /// The saved rows that `p` holds of, most recently saved first.
    pub open spec fn newest_saved(self, p: spec_fn(SavedRow) -> bool) -> Seq<EntityId> {
        in_order(
            places(self.saved, p, self.saved.len() as int).map_values(
                |i: int| saved_rank(self.saved, i),
            ),
        ).map_values(|r: Rank| self.saved[r.row as int].entity)
    }

    /// The playlists that `p` holds of, most recently changed first.
    pub open spec fn newest_playlists(self, p: spec_fn(PlaylistEntry) -> bool) -> Seq<EntityId> {
        in_order(
            places(self.playlists, p, self.playlists.len() as int).map_values(
                |i: int| playlist_rank(self.playlists, i),
            ),
        ).map_values(|r: Rank| self.playlists[r.row as int].id)
    }

    /// The user's entities of `kind` that answer `query`. Every playlist is the user's; the
    /// others are theirs once saved.
    pub open spec fn shelf(self, kind: EntityKind, query: Option<Seq<char>>) -> Seq<EntityId> {
        if kind == EntityKind::Playlist {
            self.newest_playlists(self.playlists_answering(query))
        } else {
            self.newest_saved(self.saved_answering(kind, query))
        }
    }

    /// Why `id` cannot be saved, if it cannot.
    pub open spec fn save_refusal(self, id: EntityId) -> Option<ErrorView> {
        match self.kind_of(id) {
            None => Some(not_found("entity "@, id)),
            Some(EntityKind::Playlist) => Some(
                ErrorView::Unsupported("a playlist is always in your library"@),
            ),
            Some(_) => None,
        }
    }

    /// The tables with `id` saved as of `at`. What is already saved keeps the date it was first
    /// saved.
    pub open spec fn with_saved(self, id: EntityId, at: i64) -> StoreModel {
        if self.saved_at(id) is Some {
            self
        } else {
            StoreModel {
                saved: self.saved.push(
                    SavedRow { entity: id, kind: self.kind_of(id)->0, saved_at: at },
                ),
                ..self
            }
        }
    }

    /// The tables without `id` in the user's library.
    pub open spec fn without_saved(self, id: EntityId) -> StoreModel {
        match self.saved_at(id) {
            Some(i) => StoreModel { saved: self.saved.remove(i), ..self },
            None => self,
        }
    }

    /// Why a playlist of `tracks` cannot be made under `id`, if it cannot.
    pub open spec fn playlist_refusal(
        self,
        id: EntityId,
        tracks: Seq<EntityId>,
    ) -> Option<ErrorView> {
        if !self.unused(id) {
            Some(taken("playlists.id"@))
        } else if !self.are_tracks(tracks) {
            Some(dangling())
        } else {
            None
        }
    }

    /// The tables with a new playlist.
    pub open spec fn with_playlist(
        self,
        id: EntityId,
        name: Seq<char>,
        tracks: Seq<EntityId>,
        now: i64,
    ) -> StoreModel {
        StoreModel {
            playlists: self.playlists.push(
                PlaylistEntry { id, name, created_at: now, updated_at: now, tracks },
            ),
            ..self
        }
    }

    /// The tables with the playlist `id` called `name`.
    pub open spec fn with_playlist_renamed(
        self,
        id: EntityId,
        name: Seq<char>,
        now: i64,
    ) -> StoreModel {
        let i = self.playlist_at(id)->0;
        StoreModel {
            playlists: self.playlists.update(
                i,
                PlaylistEntry { name, updated_at: now, ..self.playlists[i] },
            ),
            ..self
        }
    }

    /// The tables without the playlist `id`.
    pub open spec fn without_playlist(self, id: EntityId) -> StoreModel {
        match self.playlist_at(id) {
            Some(i) => StoreModel { playlists: self.playlists.remove(i), ..self },
            None => self,
        }
    }

    /// The tracks of the playlist `id`, in order.
    pub open spec fn playlist_tracks(self, id: EntityId) -> Seq<EntityId> {
        match self.playlist_at(id) {
            Some(i) => self.playlists[i].tracks,
            None => Seq::empty(),
        }
    }

    /// Why the playlist `id` cannot be edited so, if it cannot.
    pub open spec fn playlist_edit_refusal(
        self,
        id: EntityId,
        edit: PlaylistEdit,
    ) -> Option<ErrorView> {
        if self.playlist_at(id) is None {
            Some(not_found("playlist "@, id))
        } else {
            match edited_tracks(self.playlist_tracks(id), edit) {
                Err(why) => Some(why),
                Ok(tracks) => if self.are_tracks(tracks) {
                    None
                } else {
                    Some(dangling())
                },
            }
        }
    }

    /// The tables with the playlist `id` edited.
    pub open spec fn with_playlist_edited(
        self,
        id: EntityId,
        edit: PlaylistEdit,
        now: i64,
    ) -> StoreModel {
        let i = self.playlist_at(id)->0;
        StoreModel {
            playlists: self.playlists.update(
                i,
                PlaylistEntry {
                    updated_at: now,
                    tracks: edited_tracks(self.playlist_tracks(id), edit)->Ok_0,
                    ..self.playlists[i]
                },
            ),
            ..self
        }
    }
}

impl Store {
    // --- library membership ---

    /// Add `id` to the user's library as of `at` (milliseconds since the epoch). Something already
    /// saved keeps the date it was first saved.
    pub fn save_as_of(&mut self, id: EntityId, at: i64) -> (done: Result<()>)
        ensures
            match done {
                Ok(_) => old(self)@.save_refusal(id) is None && final(self)@
                    == old(self)@.with_saved(id, at),
                Err(e) => old(self)@.save_refusal(id) == Some(e@) && final(self)@ == old(self)@,
            },
    {
        let kind = match self.kind_of(id) {
            Some(kind) => kind,
            None => {
                return Err(no_such("entity ", id));
            },
        };
        if kind == EntityKind::Playlist {
            return Err(
                Error::Unsupported("a playlist is always in your library".to_owned()),
            );
        }
        if self.find_saved(id).is_none() {
            self.saved.push(SavedRow { entity: id, kind, saved_at: at });
        }
        Ok(())
    }

    /// Add `id` to the user's library as of `at`, or as of now.
    pub fn save_at(&mut self, id: EntityId, at: Option<i64>) -> (done: Result<()>)
        ensures
            match done {
                Ok(_) => old(self)@.save_refusal(id) is None && exists|when: i64|
                    (at is Some ==> when == at->0) && (at is None ==> when >= 0) && final(self)@
                        == #[trigger] old(self)@.with_saved(id, when),
                Err(e) => old(self)@.save_refusal(id) == Some(e@) && final(self)@ == old(self)@,
            },
    {
        let when: i64 = match at {
            Some(at) => at,
            None => now_ms(),
        };
        self.save_as_of(id, when)
    }

    /// Add `id` to the user's library.
    pub fn save(&mut self, id: EntityId) -> (done: Result<()>)
        ensures
            match done {
                Ok(_) => old(self)@.save_refusal(id) is None && exists|when: i64|
                    when >= 0 && final(self)@ == #[trigger] old(self)@.with_saved(id, when),
                Err(e) => old(self)@.save_refusal(id) == Some(e@) && final(self)@ == old(self)@,
            },
    {
        self.save_at(id, None)
    }

    /// Take `id` out of the user's library. Returns whether it was in it.
    pub fn unsave(&mut self, id: EntityId) -> (was_in: bool)
        ensures
            was_in == (old(self)@.saved_at(id) is Some),
            final(self)@ == old(self)@.without_saved(id),
    {
        match self.find_saved(id) {
            Some(i) => {
                let _gone = self.saved.remove(i);
                true
            },
            None => false,
        }
    }

    /// Whether `id` is in the user's library.
    pub fn is_saved(&self, id: EntityId) -> (saved: bool)
        ensures
            saved == (self@.saved_at(id) is Some),
    {
        self.find_saved(id).is_some()
    }

    /// Whether an entity of `kind` is there and contains `query`, if there is one.
    fn answers(&self, kind: EntityKind, id: EntityId, query: &Option<String>) -> (r: bool)
        ensures
            r == self@.answers(kind, id, crate::text::opt_text(*query)),
    {
        match kind {
            EntityKind::Track => match self.find_track(id) {
                Some(i) => met(self.tracks[i].title.as_str(), query) || met(
                    self.tracks[i].credit.as_str(),
                    query,
                ),
                None => false,
            },
            EntityKind::Album => match self.find_album(id) {
                Some(i) => met(self.albums[i].album.title.as_str(), query) || met(
                    self.albums[i].album.credit.as_str(),
                    query,
                ),
                None => false,
            },
            EntityKind::Artist => match self.find_artist(id) {
                Some(i) => met(self.artists[i].artist.name.as_str(), query),
                None => false,
            },
            EntityKind::Playlist => match self.find_playlist(id) {
                Some(i) => met(self.playlists[i].name.as_str(), query),
                None => false,
            },
        }
    }

    /// The entities of the ranked saved rows, in order.
    fn saved_in_order(&self, ranks: &Vec<Rank>) -> (ids: Vec<EntityId>)
        requires
            forall|k: int| 0 <= k < ranks@.len() ==> (#[trigger] ranks@[k]).row < self.saved@.len(),
        ensures
            ids@ == in_order(ranks@).map_values(|r: Rank| self@.saved[r.row as int].entity),
    {
        proof {
            rows_stay_in_bounds(ranks@, self.saved@.len() as int);
        }
        let sorted = put_in_order(ranks);
        let ghost show = |r: Rank| self@.saved[r.row as int].entity;
        let mut out: Vec<EntityId> = Vec::new();
        let mut j: usize = 0;
        while j < sorted.len()
            invariant
                j <= sorted.len(),
                show == (|r: Rank| self@.saved[r.row as int].entity),
                forall|k: int|
                    0 <= k < sorted@.len() ==> (#[trigger] sorted@[k]).row < self.saved@.len(),
                out@ == sorted@.take(j as int).map_values(show),
            decreases sorted.len() - j,
        {
            out.push(self.saved[sorted[j].row].entity);
            assert(sorted@.take(j + 1).map_values(show) =~= sorted@.take(j as int).map_values(
                show,
            ).push(show(sorted@[j as int])));
            j = j + 1;
        }
        assert(sorted@.take(j as int) =~= sorted@);
        out
    }

    /// The saved entities of `kind`, most recently saved first.
    pub fn saved(&self, kind: EntityKind) -> (ids: Vec<EntityId>)
        ensures
            ids@ == self@.newest_saved(saved_as(kind)),
    {
        let ghost p = saved_as(kind);
        let ghost pick = |i: int| saved_rank(self@.saved, i);
        let mut ranks: Vec<Rank> = Vec::new();
        let mut i: usize = 0;
        assert(ranks@ =~= places(self@.saved, p, 0).map_values(pick));
        while i < self.saved.len()
            invariant
                i <= self.saved.len(),
                p == saved_as(kind),
                pick == (|i: int| saved_rank(self@.saved, i)),
                ranks@ == places(self@.saved, p, i as int).map_values(pick),
                forall|k: int| 0 <= k < ranks@.len() ==> (#[trigger] ranks@[k]).row < i,
            decreases self.saved.len() - i,
        {
            let row = self.saved[i];
            if row.kind == kind {
                ranks.push(
                    Rank {
                        first: -(row.saved_at as i128),
                        second: -(i as i128),
                        third: 0,
                        row: i,
                    },
                );
                assert(places(self@.saved, p, i + 1).map_values(pick) =~= places(
                    self@.saved,
                    p,
                    i as int,
                ).map_values(pick).push(pick(i as int)));
            }
            i = i + 1;
        }
        self.saved_in_order(&ranks)
    }

    /// The saved entities of `kind` that answer `query`, most recently saved first.
    fn saved_answering(&self, kind: EntityKind, query: &Option<String>) -> (ids: Vec<EntityId>)
        ensures
            ids@ == self@.newest_saved(
                self@.saved_answering(kind, crate::text::opt_text(*query)),
            ),
    {
        let ghost p = self@.saved_answering(kind, crate::text::opt_text(*query));
        let ghost pick = |i: int| saved_rank(self@.saved, i);
        let mut ranks: Vec<Rank> = Vec::new();
        let mut i: usize = 0;
        assert(ranks@ =~= places(self@.saved, p, 0).map_values(pick));
        while i < self.saved.len()
            invariant
                i <= self.saved.len(),
                p == self@.saved_answering(kind, crate::text::opt_text(*query)),
                pick == (|i: int| saved_rank(self@.saved, i)),
                ranks@ == places(self@.saved, p, i as int).map_values(pick),
                forall|k: int| 0 <= k < ranks@.len() ==> (#[trigger] ranks@[k]).row < i,
            decreases self.saved.len() - i,
        {
            let row = self.saved[i];
            if row.kind == kind && self.answers(kind, row.entity, query) {
                ranks.push(
                    Rank {
                        first: -(row.saved_at as i128),
                        second: -(i as i128),
                        third: 0,
                        row: i,
                    },
                );
                assert(places(self@.saved, p, i + 1).map_values(pick) =~= places(
                    self@.saved,
                    p,
                    i as int,
                ).map_values(pick).push(pick(i as int)));
            }
            i = i + 1;
        }
        self.saved_in_order(&ranks)
    }

    /// The playlists whose name contains `query`, most recently changed first.
    fn playlists_answering(&self, query: &Option<String>) -> (ids: Vec<EntityId>)
        ensures
            ids@ == self@.newest_playlists(
                self@.playlists_answering(crate::text::opt_text(*query)),
            ),
    {
        let ghost p = self@.playlists_answering(crate::text::opt_text(*query));
        let ghost pick = |i: int| playlist_rank(self@.playlists, i);
        let mut ranks: Vec<Rank> = Vec::new();
        let mut i: usize = 0;
        assert(ranks@ =~= places(self@.playlists, p, 0).map_values(pick));
        while i < self.playlists.len()
            invariant
                i <= self.playlists.len(),
                p == self@.playlists_answering(crate::text::opt_text(*query)),
                pick == (|i: int| playlist_rank(self@.playlists, i)),
                ranks@ == places(self@.playlists, p, i as int).map_values(pick),
                forall|k: int| 0 <= k < ranks@.len() ==> (#[trigger] ranks@[k]).row < i,
            decreases self.playlists.len() - i,
        {
            assert(self@.playlists[i as int] == self.playlists@[i as int]@);
            let row = &self.playlists[i];
            if met(row.name.as_str(), query) {
                ranks.push(
                    Rank {
                        first: -(row.updated_at as i128),
                        second: -(i as i128),
                        third: 0,
                        row: i,
                    },
                );
                assert(places(self@.playlists, p, i + 1).map_values(pick) =~= places(
                    self@.playlists,
                    p,
                    i as int,
                ).map_values(pick).push(pick(i as int)));
            }
            i = i + 1;
        }
        proof {
            rows_stay_in_bounds(ranks@, self.playlists@.len() as int);
        }
        let sorted = put_in_order(&ranks);
        let ghost show = |r: Rank| self@.playlists[r.row as int].id;
        let mut out: Vec<EntityId> = Vec::new();
        let mut j: usize = 0;
        while j < sorted.len()
            invariant
                j <= sorted.len(),
                show == (|r: Rank| self@.playlists[r.row as int].id),
                forall|k: int|
                    0 <= k < sorted@.len() ==> (#[trigger] sorted@[k]).row < self.playlists@.len(),
                out@ == sorted@.take(j as int).map_values(show),
            decreases sorted.len() - j,
        {
            let at: usize = sorted[j].row;
            assert(self@.playlists[at as int] == self.playlists@[at as int]@);
            out.push(self.playlists[at].id);
            assert(sorted@.take(j + 1).map_values(show) =~= sorted@.take(j as int).map_values(
                show,
            ).push(show(sorted@[j as int])));
            j = j + 1;
        }
        assert(sorted@.take(j as int) =~= sorted@);
        out
    }

    /// A page of the user's entities of `kind`, most recent first, keeping those whose title, name
    /// or credit contains `query` (whatever the case of its letters), and how many there are in
    /// all.
    pub fn saved_page(
        &self,
        kind: EntityKind,
        query: &Option<String>,
        limit: usize,
        offset: usize,
    ) -> (page: (Vec<EntityId>, usize))
        ensures
            page.0@ == page_of(
                self@.shelf(kind, crate::text::opt_text(*query)),
                limit as int,
                offset as int,
            ),
            page.1 == self@.shelf(kind, crate::text::opt_text(*query)).len(),
    {
        let all = if kind == EntityKind::Playlist {
            self.playlists_answering(query)
        } else {
            self.saved_answering(kind, query)
        };
        let total: usize = all.len();
        let mut out: Vec<EntityId> = Vec::new();
        if offset >= total {
            return (out, total);
        }
        let end: usize = if limit >= total - offset {
            total
        } else {
            offset + limit
        };
        let mut i: usize = offset;
        while i < end
            invariant
                offset <= i <= end <= all@.len(),
                out@ == all@.subrange(offset as int, i as int),
            decreases end - i,
        {
            out.push(all[i]);
            assert(all@.subrange(offset as int, i + 1) =~= all@.subrange(
                offset as int,
                i as int,
            ).push(all@[i as int]));
            i = i + 1;
        }
        (out, total)
    }

    // --- playlists ---

    /// A new playlist holding `tracks`, in order, under the identifier `id`, as of `now`.
    pub fn insert_playlist(
        &mut self,
        id: EntityId,
        name: &str,
        tracks: &Vec<EntityId>,
        now: i64,
    ) -> (done: Result<()>)
        ensures
            match done {
                Ok(_) => old(self)@.playlist_refusal(id, tracks@) is None && final(self)@
                    == old(self)@.with_playlist(id, name@, tracks@, now),
                Err(e) => old(self)@.playlist_refusal(id, tracks@) == Some(e@) && final(self)@
                    == old(self)@,
            },
    {
        if self.kind_of(id).is_some() {
            return Err(already_taken("playlists.id"));
        }
        if !self.all_tracks(tracks) {
            return Err(names_nothing());
        }
        let row = PlaylistRow {
            id,
            name: name.to_owned(),
            created_at: now,
            updated_at: now,
            tracks: clone_ids(tracks),
        };
        self.playlists.push(row);
        assert(self@.playlists =~= old(self)@.playlists.push(row@));
        Ok(())
    }

    /// A new playlist holding `tracks`, in order.
    pub fn create_playlist(&mut self, name: &str, tracks: &Vec<EntityId>) -> (created: Result<
        EntityId,
    >)
        ensures
            match created {
                Ok(id) => old(self)@.playlist_refusal(id, tracks@) is None && exists|now: i64|
                    now >= 0 && final(self)@ == #[trigger] old(self)@.with_playlist(
                        id,
                        name@,
                        tracks@,
                        now,
                    ),
                Err(e) => final(self)@ == old(self)@ && exists|id: EntityId| #[trigger]
                    old(self)@.playlist_refusal(id, tracks@) == Some(e@),
            },
            !old(self)@.are_tracks(tracks@) ==> created is Err,
    {
        let id = EntityId::new();
        let now: i64 = now_ms();
        match self.insert_playlist(id, name, tracks, now) {
            Ok(_) => Ok(id),
            Err(e) => Err(e),
        }
    }

    /// The playlist `id`'s own details.
    pub fn playlist(&self, id: EntityId) -> (playlist: Option<Playlist>)
        ensures
            match playlist {
                Some(p) => self@.playlist_at(id) is Some && ({
                    let row = self@.playlists[self@.playlist_at(id)->0];
                    p.name@ == row.name && p.created_at == row.created_at && p.updated_at
                        == row.updated_at
                }),
                None => self@.playlist_at(id) is None,
            },
    {
        match self.find_playlist(id) {
            Some(i) => {
                assert(self@.playlists[i as int] == self.playlists@[i as int]@);
                let row = &self.playlists[i];
                Some(
                    Playlist {
                        name: row.name.clone(),
                        created_at: row.created_at,
                        updated_at: row.updated_at,
                    },
                )
            },
            None => None,
        }
    }

    /// The playlist `id`'s tracks, in order.
    pub fn playlist_tracks(&self, id: EntityId) -> (tracks: Vec<EntityId>)
        ensures
            tracks@ == self@.playlist_tracks(id),
    {
        match self.find_playlist(id) {
            Some(i) => {
                assert(self@.playlists[i as int] == self.playlists@[i as int]@);
                clone_ids(&self.playlists[i].tracks)
            },
            None => Vec::new(),
        }
    }

    /// Call the playlist `id` `name`, as of `now`.
    pub fn rename_playlist_at(&mut self, id: EntityId, name: &str, now: i64) -> (done: Result<()>)
        ensures
            match done {
                Ok(_) => old(self)@.playlist_at(id) is Some && final(self)@
                    == old(self)@.with_playlist_renamed(id, name@, now),
                Err(e) => old(self)@.playlist_at(id) is None && e@ == not_found("playlist "@, id)
                    && final(self)@ == old(self)@,
            },
    {
        match self.find_playlist(id) {
            Some(i) => {
                let ghost before = self@;
                assert(self@.playlists[i as int] == self.playlists@[i as int]@);
                let row = PlaylistRow {
                    id: self.playlists[i].id,
                    name: name.to_owned(),
                    created_at: self.playlists[i].created_at,
                    updated_at: now,
                    tracks: clone_ids(&self.playlists[i].tracks),
                };
                self.playlists.set(i, row);
                assert(self@.playlists =~= before.playlists.update(i as int, row@));
                Ok(())
            },
            None => Err(no_such("playlist ", id)),
        }
    }

    /// Call the playlist `id` `name`.
    pub fn rename_playlist(&mut self, id: EntityId, name: &str) -> (done: Result<()>)
        ensures
            match done {
                Ok(_) => old(self)@.playlist_at(id) is Some && exists|now: i64|
                    now >= 0 && final(self)@ == #[trigger] old(self)@.with_playlist_renamed(
                        id,
                        name@,
                        now,
                    ),
                Err(e) => old(self)@.playlist_at(id) is None && e@ == not_found("playlist "@, id)
                    && final(self)@ == old(self)@,
            },
    {
        let now: i64 = now_ms();
        self.rename_playlist_at(id, name, now)
    }

    /// Delete the playlist `id` (never the tracks on it). Returns whether there was one.
    pub fn delete_playlist(&mut self, id: EntityId) -> (there_was: bool)
        ensures
            there_was == (old(self)@.playlist_at(id) is Some),
            final(self)@ == old(self)@.without_playlist(id),
    {
        match self.find_playlist(id) {
            Some(i) => {
                let _gone = self.playlists.remove(i);
                assert(self@.playlists =~= old(self)@.playlists.remove(i as int));
                true
            },
            None => false,
        }
    }

    /// Change the playlist `id`'s tracks, as of `now`.
    pub fn edit_playlist_at(&mut self, id: EntityId, edit: PlaylistEdit, now: i64) -> (done: Result<
        (),
    >)
        ensures
            match done {
                Ok(_) => old(self)@.playlist_edit_refusal(id, edit) is None && final(self)@
                    == old(self)@.with_playlist_edited(id, edit, now),
                Err(e) => old(self)@.playlist_edit_refusal(id, edit) == Some(e@) && final(self)@
                    == old(self)@,
            },
    {
        let i: usize = match self.find_playlist(id) {
            Some(i) => i,
            None => {
                return Err(no_such("playlist ", id));
            },
        };
        let ghost before = self@;
        assert(self@.playlists[i as int] == self.playlists@[i as int]@);
        let tracks = match apply_edit(&self.playlists[i].tracks, edit) {
            Ok(tracks) => tracks,
            Err(e) => {
                return Err(e);
            },
        };
        if !self.all_tracks(&tracks) {
            return Err(names_nothing());
        }
        let row = PlaylistRow {
            id: self.playlists[i].id,
            name: self.playlists[i].name.clone(),
            created_at: self.playlists[i].created_at,
            updated_at: now,
            tracks,
        };
        self.playlists.set(i, row);
        assert(self@.playlists =~= before.playlists.update(i as int, row@));
        Ok(())
    }

    /// Change the playlist `id`'s tracks.
    pub fn edit_playlist(&mut self, id: EntityId, edit: PlaylistEdit) -> (done: Result<()>)
        ensures
            match done {
                Ok(_) => old(self)@.playlist_edit_refusal(id, edit) is None && exists|now: i64|
                    now >= 0 && final(self)@ == #[trigger] old(self)@.with_playlist_edited(
                        id,
                        edit,
                        now,
                    ),
                Err(e) => old(self)@.playlist_edit_refusal(id, edit) == Some(e@) && final(self)@
                    == old(self)@,
            },
    {
        let now: i64 = now_ms();
        self.edit_playlist_at(id, edit, now)
    }
}

fn missing(what: &str, place: usize) -> (e: Error)
    ensures
        e@ == ErrorView::NotFound(what@ + decimal(place as nat) + " in the playlist"@),
{
    let counted = number(place as u64);
    let start = concat(what, counted.as_str());
    Error::NotFound(concat(start.as_str(), " in the playlist"))
}

/// What `edit` makes of `tracks`, or why it cannot be done.
pub fn apply_edit(tracks: &Vec<EntityId>, edit: PlaylistEdit) -> (edited: Result<Vec<EntityId>>)
    ensures
        match edited {
            Ok(list) => edited_tracks(tracks@, edit) == Ok::<Seq<EntityId>, ErrorView>(list@),
            Err(e) => edited_tracks(tracks@, edit) == Err::<Seq<EntityId>, ErrorView>(e@),
        },
{
    let mut list = clone_ids(tracks);
    match edit {
        PlaylistEdit::Insert { at, tracks: more } => {
            let place: usize = match at {
                Some(at) => at,
                None => list.len(),
            };
            if place > list.len() {
                return Err(missing("no position ", place));
            }
            let ghost given = more@;
            let mut more = more;
            let mut rest = list.split_off(place);
            list.append(&mut more);
            list.append(&mut rest);
            assert(list@ =~= tracks@.take(place as int) + given + tracks@.skip(place as int));
            Ok(list)
        },
        PlaylistEdit::Remove { index } => {
            if index >= list.len() {
                return Err(missing("no entry ", index));
            }
            let _gone = list.remove(index);
            Ok(list)
        },
        PlaylistEdit::Move { from, to } => {
            if from >= list.len() || to >= list.len() {
                return Err(
                    missing(
                        "no entry ",
                        if from >= to {
                            from
                        } else {
                            to
                        },
                    ),
                );
            }
            let track = list.remove(from);
            list.insert(to, track);
            Ok(list)
        },
        PlaylistEdit::Replace { tracks: instead } => Ok(instead),
    }
}

/// Saving something again keeps the date it was first saved.
pub proof fn saving_again_changes_nothing(model: StoreModel, id: EntityId, at: i64, later: i64)
    requires
        model.save_refusal(id) is None,
    ensures
        model.with_saved(id, at).saved_at(id) is Some,
        model.with_saved(id, at).with_saved(id, later) == model.with_saved(id, at),
{
    let after = model.with_saved(id, at);
    if model.saved_at(id) is None {
        first_at_push(model.saved, after.saved.last(), saved_is(id));
    }
}

/// Taking something out of the library that was just put in leaves the library as it was.
pub proof fn unsaving_undoes_saving(model: StoreModel, id: EntityId, at: i64)
    requires
        model.saved_at(id) is None,
    ensures
        model.with_saved(id, at).without_saved(id) == model,
{
    let after = model.with_saved(id, at);
    first_at_push(model.saved, after.saved.last(), saved_is(id));
    assert(after.saved.remove(model.saved.len() as int) =~= model.saved);
}

/// The saved entities are listed most recently saved first.
pub proof fn saved_entities_are_listed_newest_first(
    model: StoreModel,
    p: spec_fn(SavedRow) -> bool,
    i: int,
    j: int,
)
    requires
        model.saved.len() <= usize::MAX,
        0 <= i < j < model.newest_saved(p).len(),
    ensures
        ({
            let ranks = places(model.saved, p, model.saved.len() as int).map_values(
                |i: int| saved_rank(model.saved, i),
            );
            let a = model.saved[in_order(ranks)[i].row as int];
            let b = model.saved[in_order(ranks)[j].row as int];
            &&& model.newest_saved(p)[i] == a.entity
            &&& model.newest_saved(p)[j] == b.entity
            &&& a.saved_at >= b.saved_at
        }),
{
    broadcast use vstd::seq_lib::group_to_multiset_ensures;

    let ranks = places(model.saved, p, model.saved.len() as int).map_values(
        |i: int| saved_rank(model.saved, i),
    );
    in_order_is_sorted(ranks);
    let sorted = in_order(ranks);
    places_are_the_matches(model.saved, p, model.saved.len() as int);
    assert forall|k: int| 0 <= k < sorted.len() implies ({
        let r = #[trigger] sorted[k];
        r.first == -(model.saved[r.row as int].saved_at as int)
    }) by {
        assert(sorted.contains(sorted[k]));
        assert(ranks.to_multiset().count(sorted[k]) > 0);
        assert(ranks.contains(sorted[k]));
        let m = choose|m: int| 0 <= m < ranks.len() && ranks[m] == sorted[k];
        let place = places(model.saved, p, model.saved.len() as int)[m];
        assert(ranks[m] == saved_rank(model.saved, place));
    }
    assert(!sorted[j].before(sorted[i]));
}

/// Deleting a playlist leaves every track, album, artist and binding alone.
pub proof fn deleting_a_playlist_leaves_its_tracks(model: StoreModel, id: EntityId)
    ensures
        ({
            let after = model.without_playlist(id);
            &&& after.tracks == model.tracks
            &&& after.albums == model.albums
            &&& after.artists == model.artists
            &&& after.isrcs == model.isrcs
            &&& after.slots == model.slots
            &&& after.bindings == model.bindings
            &&& after.saved == model.saved
        }),
{
}

/// Moving an entry of a playlist and moving it back leaves the playlist as it was.
pub proof fn moving_back_undoes_a_move(tracks: Seq<EntityId>, from: usize, to: usize)
    requires
        from < tracks.len(),
        to < tracks.len(),
    ensures
        ({
            let moved = edited_tracks(tracks, PlaylistEdit::Move { from, to })->Ok_0;
            edited_tracks(moved, PlaylistEdit::Move { from: to, to: from }) == Ok::<
                Seq<EntityId>,
                ErrorView,
            >(tracks)
        }),
{
    let moved = edited_tracks(tracks, PlaylistEdit::Move { from, to })->Ok_0;
    assert(moved.remove(to as int).insert(from as int, moved[to as int]) =~= tracks);
}

/// Inserted tracks stand together from the place asked for, or behind all others where none was,
/// with every other entry before or behind them in its order. A place past the end is refused.
pub proof fn inserted_tracks_stand_where_asked(
    tracks: Seq<EntityId>,
    at: Option<usize>,
    more: Vec<EntityId>,
)
    ensures
        ({
            let edited = edited_tracks(tracks, PlaylistEdit::Insert { at, tracks: more });
            let list = edited->Ok_0;
            let from = if at is Some {
                at->0 as int
            } else {
                tracks.len() as int
            };
            &&& edited is Ok <==> from <= tracks.len()
            &&& edited is Ok ==> {
                &&& list.len() == tracks.len() + more@.len()
                &&& forall|k: int| 0 <= k < from ==> #[trigger] list[k] == tracks[k]
                &&& forall|k: int|
                    from <= k < from + more@.len() ==> #[trigger] list[k] == more@[k - from]
                &&& forall|k: int|
                    from + more@.len() <= k < list.len() ==> #[trigger] list[k] == tracks[k
                        - more@.len()]
            }
        }),
{
}

/// A removed entry is gone and every other stays, in order. An entry that is not there is refused.
pub proof fn a_removed_entry_is_gone(tracks: Seq<EntityId>, index: usize)
    ensures
        ({
            let edited = edited_tracks(tracks, PlaylistEdit::Remove { index });
            let list = edited->Ok_0;
            &&& edited is Ok <==> index < tracks.len()
            &&& edited is Ok ==> {
                &&& list.len() == tracks.len() - 1
                &&& forall|k: int| 0 <= k < index ==> #[trigger] list[k] == tracks[k]
                &&& forall|k: int| index <= k < list.len() ==> #[trigger] list[k] == tracks[k + 1]
            }
        }),
{
}

/// A moved entry stands at the place asked for; those between make room by one, the others stay.
pub proof fn a_moved_entry_stands_where_asked(tracks: Seq<EntityId>, from: usize, to: usize)
    ensures
        ({
            let edited = edited_tracks(tracks, PlaylistEdit::Move { from, to });
            let list = edited->Ok_0;
            &&& edited is Ok <==> from < tracks.len() && to < tracks.len()
            &&& edited is Ok ==> {
                &&& list.len() == tracks.len()
                &&& list[to as int] == tracks[from as int]
                &&& forall|k: int| from <= k < to ==> #[trigger] list[k] == tracks[k + 1]
                &&& forall|k: int| to < k <= from ==> #[trigger] list[k] == tracks[k - 1]
                &&& forall|k: int|
                    0 <= k < list.len() && (k < from && k < to || from < k && to < k)
                        ==> #[trigger] list[k] == tracks[k]
            }
        }),
{
}

/// A replacement leaves exactly the tracks given.
pub proof fn a_replacement_leaves_what_was_given(tracks: Seq<EntityId>, instead: Vec<EntityId>)
    ensures
        ({
            let edited = edited_tracks(tracks, PlaylistEdit::Replace { tracks: instead });
            &&& edited is Ok
            &&& edited->Ok_0.len() == instead@.len()
            &&& forall|k: int| 0 <= k < instead@.len() ==> #[trigger] edited->Ok_0[k] == instead@[k]
        }),
{
}

/// An edit or a new name touches the one playlist and dates it; its other details, the other
/// playlists and everything else stay.
pub proof fn only_the_playlist_named_changes(
    model: StoreModel,
    id: EntityId,
    edit: PlaylistEdit,
    name: Seq<char>,
    now: i64,
)
    requires
        model.playlist_at(id) is Some,
    ensures
        ({
            let i = model.playlist_at(id)->0;
            let was = model.playlists[i];
            let edited = model.with_playlist_edited(id, edit, now);
            let renamed = model.with_playlist_renamed(id, name, now);
            &&& was.id == id
            &&& edited.playlists.len() == model.playlists.len()
            &&& edited.playlists[i].id == id
            &&& edited.playlists[i].name == was.name
            &&& edited.playlists[i].created_at == was.created_at
            &&& edited.playlists[i].updated_at == now
            &&& edited_tracks(was.tracks, edit) is Ok ==> edited.playlists[i].tracks
                == edited_tracks(was.tracks, edit)->Ok_0
            &&& renamed.playlists.len() == model.playlists.len()
            &&& renamed.playlists[i].id == id
            &&& renamed.playlists[i].name == name
            &&& renamed.playlists[i].created_at == was.created_at
            &&& renamed.playlists[i].updated_at == now
            &&& renamed.playlists[i].tracks == was.tracks
            &&& forall|k: int|
                0 <= k < model.playlists.len() && k != i ==> #[trigger] edited.playlists[k]
                    == model.playlists[k]
            &&& forall|k: int|
                0 <= k < model.playlists.len() && k != i ==> #[trigger] renamed.playlists[k]
                    == model.playlists[k]
            &&& edited.tracks == model.tracks && edited.saved == model.saved && edited.bindings
                == model.bindings
            &&& renamed.tracks == model.tracks && renamed.saved == model.saved && renamed.bindings
                == model.bindings
        }),
{
    first_at_matches(model.playlists, playlist_is(id));
}

/// A new playlist holds the tracks given, under the name given, dated when it was made.
pub proof fn a_new_playlist_holds_what_was_given(
    model: StoreModel,
    id: EntityId,
    name: Seq<char>,
    tracks: Seq<EntityId>,
    now: i64,
)
    ensures
        ({
            let after = model.with_playlist(id, name, tracks, now);
            let made = after.playlists.last();
            &&& after.playlists.len() == model.playlists.len() + 1
            &&& made.id == id && made.name == name && made.tracks == tracks
            &&& made.created_at == now && made.updated_at == now
            &&& forall|k: int|
                0 <= k < model.playlists.len() ==> #[trigger] after.playlists[k]
                    == model.playlists[k]
        }),
{
}

/// Deleting a playlist takes out that one and leaves every other, in order.
pub proof fn only_the_playlist_named_is_deleted(model: StoreModel, id: EntityId)
    requires
        model.playlist_at(id) is Some,
    ensures
        ({
            let i = model.playlist_at(id)->0;
            let after = model.without_playlist(id);
            &&& model.playlists[i].id == id
            &&& after.playlists.len() == model.playlists.len() - 1
            &&& forall|k: int| 0 <= k < i ==> #[trigger] after.playlists[k] == model.playlists[k]
            &&& forall|k: int|
                i <= k < after.playlists.len() ==> #[trigger] after.playlists[k]
                    == model.playlists[k + 1]
        }),
{
    first_at_matches(model.playlists, playlist_is(id));
}

/// What is saved is kept with its kind and the date given; what is no longer saved is gone, and
/// everything else saved stays.
pub proof fn saving_and_unsaving_touch_one_entity(model: StoreModel, id: EntityId, at: i64)
    ensures
        model.saved_at(id) is None ==> ({
            let after = model.with_saved(id, at);
            &&& after.saved.len() == model.saved.len() + 1
            &&& after.saved.last().entity == id
            &&& after.saved.last().saved_at == at
            &&& model.kind_of(id) is Some ==> after.saved.last().kind == model.kind_of(id)->0
            &&& forall|k: int| 0 <= k < model.saved.len() ==> #[trigger] after.saved[k]
                == model.saved[k]
        }),
        model.saved_at(id) is Some ==> ({
            let i = model.saved_at(id)->0;
            let after = model.without_saved(id);
            &&& model.saved[i].entity == id
            &&& after.saved.len() == model.saved.len() - 1
            &&& forall|k: int| 0 <= k < i ==> #[trigger] after.saved[k] == model.saved[k]
            &&& forall|k: int| i <= k < after.saved.len() ==> #[trigger] after.saved[k]
                == model.saved[k + 1]
        }),
{
    first_at_matches(model.saved, saved_is(id));
}

/// Tracks, albums and artists can be saved; a playlist cannot, nor what the library does not know.
pub proof fn what_the_library_knows_can_be_saved(model: StoreModel, id: EntityId)
    ensures
        model.save_refusal(id) is None <==> model.track_at(id) is Some || model.album_at(id) is Some
            || model.artist_at(id) is Some,
{
}

/// Capital ASCII letters fold to their small ones, and every other character to itself.
pub proof fn only_capitals_fold(c: char)
    ensures
        65 <= c as int <= 90 ==> folded(c) as int == c as int + 32,
        c as int <= 64 || 91 <= c as int ==> folded(c) == c,
{
}

} // verus!
