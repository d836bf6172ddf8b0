//! Which tracks are on which albums, and where.

use vstd::prelude::*;

use crate::error::{ErrorView, Result};
use crate::id::EntityId;
use crate::model::AlbumTrack;
use crate::rows::{
    any, first_at, first_at_matches, first_at_push, found_first, found_none, in_order,
    in_order_is_sorted, places, put_in_order, without, Rank,
};
use crate::store::{
    already_taken, dangling, names_nothing, same_slot, slot_entry, slot_is, slot_of, taken, Slot,
    Store, StoreModel,
};

verus! {

/// The columns no two slots share.
pub open spec fn slot_columns() -> Seq<char> {
    "album_tracks.album, album_tracks.disc, album_tracks.position"@
}

/// Some entry before `n` shares a slot with entry `n`.
pub open spec fn repeats_slot(entries: Seq<AlbumTrack>, n: int) -> bool {
    exists|i: int| 0 <= i < n && same_slot(#[trigger] entries[i], entries[n])
}

/// `entries` as rows of `album`.
pub open spec fn slot_entries(album: EntityId, entries: Seq<AlbumTrack>) -> Seq<Slot> {
    entries.map_values(|e: AlbumTrack| slot_entry(album, e))
}

/// Where a slot comes in a tracklist: by disc, then by position.
pub open spec fn slot_rank(slots: Seq<Slot>, i: int) -> Rank {
    Rank {
        first: slots[i].disc as i128,
        second: slots[i].position as i128,
        third: 0,
        row: i as usize,
    }
}

pub open spec fn slot_holds(track: EntityId) -> spec_fn(Slot) -> bool {
    |s: Slot| s.track == track
}

/// The entry a slot stands for.
pub open spec fn listed(slot: Slot) -> AlbumTrack {
    AlbumTrack { disc: slot.disc, position: slot.position, track: slot.track }
}

/// Two rows do not share a slot.
pub open spec fn slots_apart(a: Slot, b: Slot) -> bool {
    !(a.album == b.album && a.disc == b.disc && a.position == b.position)
}

/// An entry for `track`.
pub open spec fn lists(track: EntityId) -> spec_fn(AlbumTrack) -> bool {
    |e: AlbumTrack| e.track == track
}

/// The rows of `rows` once `album` lists `entries`, and the entries that have no row among them
/// yet. A row of the album whose track is still listed stays where it is, at the first slot still
/// to be filled by that track; one whose track is not listed any more is gone.
pub open spec fn resettled(rows: Seq<Slot>, album: EntityId, entries: Seq<AlbumTrack>) -> (
    Seq<Slot>,
    Seq<AlbumTrack>,
)
    decreases rows.len(),
{
    if rows.len() == 0 {
        (Seq::empty(), entries)
    } else {
        let (settled, left) = resettled(rows.drop_last(), album, entries);
        let row = rows.last();
        if row.album != album {
            (settled.push(row), left)
        } else {
            match first_at(left, lists(row.track)) {
                Some(i) => (settled.push(slot_entry(album, left[i])), left.remove(i)),
                None => (settled, left),
            }
        }
    }
}

impl StoreModel {
    /// Why the first `n` of `entries` cannot be `album`'s tracklist, if they cannot.
    pub open spec fn tracklist_refusal(
        self,
        album: EntityId,
        entries: Seq<AlbumTrack>,
        n: int,
    ) -> Option<ErrorView>
        decreases n,
    {
        if n <= 0 {
            None
        } else {
            match self.tracklist_refusal(album, entries, n - 1) {
                Some(why) => Some(why),
                None => if repeats_slot(entries, n - 1) {
                    Some(taken(slot_columns()))
                } else if self.album_at(album) is None || self.track_at(entries[n - 1].track) is None {
                    Some(dangling())
                } else {
                    None
                },
            }
        }
    }

    /// The tables with `album`'s tracklist replaced. A track that was on the album before stays
    /// placed as early as it was.
    pub open spec fn with_tracklist(
        self,
        album: EntityId,
        entries: Seq<AlbumTrack>,
    ) -> StoreModel {
        let (settled, left) = resettled(self.slots, album, entries);
        StoreModel { slots: settled + slot_entries(album, left), ..self }
    }

    /// The tables with `entry` at its slot on `album`, replacing whatever was there. A track that
    /// is already there stays placed as early as it was.
    pub open spec fn with_placed(self, album: EntityId, entry: AlbumTrack) -> StoreModel {
        if self.slots.contains(slot_entry(album, entry)) {
            self
        } else {
            StoreModel {
                slots: without(self.slots, slot_is(album, entry.disc, entry.position)).push(
                    slot_entry(album, entry),
                ),
                ..self
            }
        }
    }

    /// The slots of `album`, ranked.
    pub open spec fn slot_ranks(self, album: EntityId) -> Seq<Rank> {
        places(self.slots, slot_of(album), self.slots.len() as int).map_values(
            |i: int| slot_rank(self.slots, i),
        )
    }

    /// `album`'s tracklist, in disc and position order.
    pub open spec fn tracklist(self, album: EntityId) -> Seq<AlbumTrack> {
        in_order(self.slot_ranks(album)).map_values(
            |r: Rank| listed(self.slots[r.row as int]),
        )
    }

    /// `album` once for each of the first `n` slots that has `track` on it.
    pub open spec fn appearances(self, track: EntityId, album: EntityId, n: int) -> Seq<EntityId>
        decreases n,
    {
        if n <= 0 {
            Seq::empty()
        } else if self.slots[n - 1].album == album && self.slots[n - 1].track == track {
            self.appearances(track, album, n - 1).push(album)
        } else {
            self.appearances(track, album, n - 1)
        }
    }

    /// The first `n` albums that `track` appears on, in the order they were added, once for each
    /// slot it has there.
    pub open spec fn albums_of(self, track: EntityId, n: int) -> Seq<EntityId>
        decreases n,
    {
        if n <= 0 {
            Seq::empty()
        } else {
            self.albums_of(track, n - 1) + self.appearances(
                track,
                self.albums[n - 1].id,
                self.slots.len() as int,
            )
        }
    }

    /// The album `track` is shown on: the first it was placed on.
    pub open spec fn first_album_of(self, track: EntityId) -> Option<EntityId> {
        match first_at(self.slots, slot_holds(track)) {
            Some(i) => Some(self.slots[i].album),
            None => None,
        }
    }
}

impl Store {
    /// Whether some entry before `n` shares a slot with entry `n`.
    fn repeats_slot(entries: &Vec<AlbumTrack>, n: usize) -> (r: bool)
        requires
            n < entries@.len(),
        ensures
            r == repeats_slot(entries@, n as int),
    {
        let mut i: usize = 0;
        while i < n
            invariant
                i <= n < entries@.len(),
                forall|j: int| 0 <= j < i ==> !same_slot(#[trigger] entries@[j], entries@[n as int]),
            decreases n - i,
        {
            if entries[i].disc == entries[n].disc && entries[i].position == entries[n].position {
                assert(same_slot(entries@[i as int], entries@[n as int]));
                return true;
            }
            i = i + 1;
        }
        false
    }

    /// The first of `entries` for `track`.
    fn find_listed(entries: &Vec<AlbumTrack>, track: EntityId) -> (at: Option<usize>)
        ensures
            match at {
                Some(i) => i < entries@.len() && first_at(entries@, lists(track)) == Some(i as int),
                None => first_at(entries@, lists(track)) is None,
            },
    {
        let ghost p = lists(track);
        let mut i: usize = 0;
        while i < entries.len()
            invariant
                i <= entries@.len(),
                p == lists(track),
                forall|k: int| 0 <= k < i ==> !p(#[trigger] entries@[k]),
            decreases entries.len() - i,
        {
            if entries[i].track.0 == track.0 {
                proof {
                    found_first(entries@, p, i as int);
                }
                return Some(i);
            }
            i = i + 1;
        }
        proof {
            found_none(entries@, p);
        }
        None
    }

    /// The rows once `album` lists `entries`, and the entries that have no row among them yet.
    fn resettle(&self, album: EntityId, entries: &Vec<AlbumTrack>) -> (rows: (
        Vec<Slot>,
        Vec<AlbumTrack>,
    ))
        ensures
            (rows.0@, rows.1@) == resettled(self@.slots, album, entries@),
    {
        let ghost all = self@.slots;
        let mut settled: Vec<Slot> = Vec::new();
        let mut left: Vec<AlbumTrack> = Vec::new();
        let mut n: usize = 0;
        while n < entries.len()
            invariant
                n <= entries@.len(),
                left@ == entries@.take(n as int),
            decreases entries.len() - n,
        {
            left.push(entries[n]);
            assert(entries@.take(n + 1) =~= entries@.take(n as int).push(entries@[n as int]));
            n = n + 1;
        }
        assert(left@ =~= entries@);
        let mut i: usize = 0;
        assert((settled@, left@) == resettled(all.take(0), album, entries@));
        while i < self.slots.len()
            invariant
                i <= self.slots.len(),
                all == self.slots@,
                (settled@, left@) == resettled(all.take(i as int), album, entries@),
            decreases self.slots.len() - i,
        {
            assert(all.take(i + 1).drop_last() =~= all.take(i as int));
            let slot = self.slots[i];
            if slot.album.0 != album.0 {
                settled.push(slot);
            } else if let Some(k) = Self::find_listed(&left, slot.track) {
                let entry = left.remove(k);
                settled.push(
                    Slot { album, disc: entry.disc, position: entry.position, track: entry.track },
                );
            }
            i = i + 1;
        }
        assert(all.take(i as int) =~= all);
        (settled, left)
    }

    /// Replace `album`'s tracklist.
    pub fn set_tracklist(&mut self, album: EntityId, tracks: &Vec<AlbumTrack>) -> (done: Result<()>)
        ensures
            match done {
                Ok(_) => old(self)@.tracklist_refusal(album, tracks@, tracks@.len() as int) is None
                    && final(self)@ == old(self)@.with_tracklist(album, tracks@),
                Err(e) => old(self)@.tracklist_refusal(album, tracks@, tracks@.len() as int)
                    == Some(e@) && final(self)@ == old(self)@,
            },
    {
        let ghost before = self@;
        let known: bool = self.find_album(album).is_some();
        let mut n: usize = 0;
        while n < tracks.len()
            invariant
                n <= tracks.len(),
                self@ == before,
                known == (before.album_at(album) is Some),
                before.tracklist_refusal(album, tracks@, n as int) is None,
            decreases tracks.len() - n,
        {
            if Self::repeats_slot(tracks, n) {
                let e = already_taken(
                    "album_tracks.album, album_tracks.disc, album_tracks.position",
                );
                proof {
                    refusals_stand(before, album, tracks@, n + 1, tracks@.len() as int);
                }
                return Err(e);
            }
            if !known || self.find_track(tracks[n].track).is_none() {
                proof {
                    refusals_stand(before, album, tracks@, n + 1, tracks@.len() as int);
                }
                return Err(names_nothing());
            }
            n = n + 1;
        }
        let (settled, left) = self.resettle(album, tracks);
        self.slots = settled;
        let ghost rest = self@.slots;
        let mut i: usize = 0;
        assert(rest + slot_entries(album, left@.take(0)) =~= rest);
        while i < left.len()
            invariant
                i <= left.len(),
                self@ == (StoreModel {
                    slots: rest + slot_entries(album, left@.take(i as int)),
                    ..before
                }),
            decreases left.len() - i,
        {
            let entry = left[i];
            self.slots.push(
                Slot { album, disc: entry.disc, position: entry.position, track: entry.track },
            );
            assert(rest + slot_entries(album, left@.take(i + 1)) =~= (rest + slot_entries(
                album,
                left@.take(i as int),
            )).push(slot_entry(album, entry)));
            i = i + 1;
        }
        assert(left@.take(i as int) =~= left@);
        Ok(())
    }

    /// Put `entry.track` at its slot on `album`, replacing whatever was there.
    pub fn place(&mut self, album: EntityId, entry: AlbumTrack) -> (done: Result<()>)
        ensures
            match done {
                Ok(_) => old(self)@.album_at(album) is Some && old(self)@.track_at(entry.track) is Some
                    && final(self)@ == old(self)@.with_placed(album, entry),
                Err(e) => (old(self)@.album_at(album) is None || old(self)@.track_at(
                    entry.track,
                ) is None) && e@ == dangling() && final(self)@ == old(self)@,
            },
    {
        if self.find_album(album).is_none() || self.find_track(entry.track).is_none() {
            return Err(names_nothing());
        }
        let ghost before = self@;
        let ghost rows = self@.slots;
        let ghost p = slot_is(album, entry.disc, entry.position);
        let ghost new = slot_entry(album, entry);
        let mut kept: Vec<Slot> = Vec::new();
        let mut i: usize = 0;
        while i < self.slots.len()
            invariant
                i <= self.slots.len(),
                self@ == before,
                rows == self.slots@,
                p == slot_is(album, entry.disc, entry.position),
                kept@ == without(rows.take(i as int), p),
                new == slot_entry(album, entry),
                before == old(self)@,
                before.album_at(album) is Some,
                before.track_at(entry.track) is Some,
                forall|k: int| 0 <= k < i ==> #[trigger] rows[k] != new,
            decreases self.slots.len() - i,
        {
            assert(rows.take(i + 1).drop_last() =~= rows.take(i as int));
            let slot = self.slots[i];
            if slot.album.0 != album.0 || slot.disc != entry.disc || slot.position
                != entry.position {
                kept.push(slot);
            } else if slot.track.0 == entry.track.0 {
                assert(rows[i as int] == new);
                return Ok(());
            }
            i = i + 1;
        }
        assert(rows.take(i as int) =~= rows);
        kept.push(Slot { album, disc: entry.disc, position: entry.position, track: entry.track });
        self.slots = kept;
        Ok(())
    }

    /// `album`'s tracklist, in disc and position order.
    pub fn tracklist(&self, album: EntityId) -> (entries: Vec<AlbumTrack>)
        ensures
            entries@ == self@.tracklist(album),
    {
        let ghost p = slot_of(album);
        let ghost pick = |i: int| slot_rank(self@.slots, i);
        let mut ranks: Vec<Rank> = Vec::new();
        let mut i: usize = 0;
        assert(ranks@ =~= places(self@.slots, p, 0).map_values(pick));
        while i < self.slots.len()
            invariant
                i <= self.slots.len(),
                p == slot_of(album),
                pick == (|i: int| slot_rank(self@.slots, i)),
                ranks@ == places(self@.slots, p, i as int).map_values(pick),
                forall|k: int| 0 <= k < ranks@.len() ==> (#[trigger] ranks@[k]).row < i,
            decreases self.slots.len() - i,
        {
            let slot = self.slots[i];
            if slot.album.0 == album.0 {
                ranks.push(
                    Rank {
                        first: slot.disc as i128,
                        second: slot.position as i128,
                        third: 0,
                        row: i,
                    },
                );
                assert(places(self@.slots, p, i + 1).map_values(pick) =~= places(
                    self@.slots,
                    p,
                    i as int,
                ).map_values(pick).push(pick(i as int)));
            }
            i = i + 1;
        }
        proof {
            in_order_is_sorted(ranks@);
            rows_stay_in_bounds(ranks@, self.slots@.len() as int);
        }
        let sorted = put_in_order(&ranks);
        let ghost show = |r: Rank| listed(self@.slots[r.row as int]);
        let mut out: Vec<AlbumTrack> = Vec::new();
        let mut j: usize = 0;
        while j < sorted.len()
            invariant
                j <= sorted.len(),
                show == (|r: Rank| listed(self@.slots[r.row as int])),
                forall|k: int|
                    0 <= k < sorted@.len() ==> (#[trigger] sorted@[k]).row < self.slots@.len(),
                out@ == sorted@.take(j as int).map_values(show),
            decreases sorted.len() - j,
        {
            let slot = self.slots[sorted[j].row];
            out.push(AlbumTrack { disc: slot.disc, position: slot.position, track: slot.track });
            assert(sorted@.take(j + 1).map_values(show) =~= sorted@.take(j as int).map_values(
                show,
            ).push(show(sorted@[j as int])));
            j = j + 1;
        }
        assert(sorted@.take(j as int) =~= sorted@);
        out
    }

    /// The albums `track` appears on, in the order they were added.
    pub fn albums_of(&self, track: EntityId) -> (albums: Vec<EntityId>)
        ensures
            albums@ == self@.albums_of(track, self@.albums.len() as int),
    {
        let mut out: Vec<EntityId> = Vec::new();
        let mut n: usize = 0;
        while n < self.albums.len()
            invariant
                n <= self.albums.len(),
                out@ == self@.albums_of(track, n as int),
            decreases self.albums.len() - n,
        {
            let album = self.albums[n].id;
            assert(album == self@.albums[n as int].id);
            let ghost done = out@;
            let mut i: usize = 0;
            assert(done + self@.appearances(track, album, 0) =~= done);
            while i < self.slots.len()
                invariant
                    i <= self.slots.len(),
                    out@ == done + self@.appearances(track, album, i as int),
                decreases self.slots.len() - i,
            {
                let slot = self.slots[i];
                if slot.album.0 == album.0 && slot.track.0 == track.0 {
                    out.push(album);
                    assert(out@ =~= done + self@.appearances(track, album, i + 1));
                }
                i = i + 1;
            }
            n = n + 1;
        }
        assert(self.albums@.len() == self@.albums.len());
        out
    }

    /// The album track `track` is shown on: the first it was placed on.
    pub fn first_album_of(&self, track: EntityId) -> (album: Option<EntityId>)
        ensures
            album == self@.first_album_of(track),
    {
        let ghost p = slot_holds(track);
        let mut i: usize = 0;
        while i < self.slots.len()
            invariant
                i <= self.slots.len(),
                p == slot_holds(track),
                forall|j: int| 0 <= j < i ==> !p(#[trigger] self@.slots[j]),
            decreases self.slots.len() - i,
        {
            if self.slots[i].track.0 == track.0 {
                proof {
                    found_first(self@.slots, p, i as int);
                }
                return Some(self.slots[i].album);
            }
            i = i + 1;
        }
        proof {
            found_none(self@.slots, p);
        }
        None
    }
}

/// Once a tracklist is refused, more entries do not change why.
proof fn refusals_stand(
    model: StoreModel,
    album: EntityId,
    entries: Seq<AlbumTrack>,
    n: int,
    more: int,
)
    requires
        0 <= n <= more,
        model.tracklist_refusal(album, entries, n) is Some,
    ensures
        model.tracklist_refusal(album, entries, more) == model.tracklist_refusal(
            album,
            entries,
            n,
        ),
    decreases more - n,
{
    if n < more {
        refusals_stand(model, album, entries, n, more - 1);
    }
}

/// The rows of other albums stay, those of `album` stand for entries that were asked for, and every
/// entry that was asked for has a row or is still left.
pub proof fn resettling_seats_the_entries(rows: Seq<Slot>, album: EntityId, entries: Seq<AlbumTrack>)
    ensures
        ({
            let (settled, left) = resettled(rows, album, entries);
            &&& settled.len() <= rows.len()
            &&& left.len() <= entries.len()
            &&& forall|i: int|
                0 <= i < settled.len() ==> if (#[trigger] settled[i]).album == album {
                    entries.contains(listed(settled[i]))
                } else {
                    rows.contains(settled[i])
                }
            &&& forall|i: int| 0 <= i < left.len() ==> entries.contains(#[trigger] left[i])
            &&& forall|e: AlbumTrack| #[trigger]
                entries.contains(e) ==> left.contains(e) || settled.contains(slot_entry(album, e))
        }),
    decreases rows.len(),
{
    let (settled, left) = resettled(rows, album, entries);
    if rows.len() > 0 {
        let t = rows.drop_last();
        resettling_seats_the_entries(t, album, entries);
        let (sooner, rest) = resettled(t, album, entries);
        let row = rows.last();
        first_at_matches(rest, lists(row.track));
        assert(rows[rows.len() - 1] == row);
        assert forall|i: int| 0 <= i < settled.len() implies if (#[trigger] settled[i]).album
            == album {
            entries.contains(listed(settled[i]))
        } else {
            rows.contains(settled[i])
        } by {
            if i < sooner.len() {
                assert(settled[i] == sooner[i]);
                if sooner[i].album != album {
                    let k = choose|k: int| 0 <= k < t.len() && t[k] == sooner[i];
                    assert(rows[k] == sooner[i]);
                }
            } else if row.album == album {
                let k = first_at(rest, lists(row.track))->0;
                assert(listed(settled[i]) == rest[k]);
            }
        }
        assert forall|e: AlbumTrack| #[trigger] entries.contains(e) implies left.contains(e)
            || settled.contains(slot_entry(album, e)) by {
            if sooner.contains(slot_entry(album, e)) {
                let k = choose|k: int| 0 <= k < sooner.len() && sooner[k] == slot_entry(album, e);
                assert(settled[k] == slot_entry(album, e));
            } else {
                let k = choose|k: int| 0 <= k < rest.len() && rest[k] == e;
                if row.album == album && first_at(rest, lists(row.track)) is Some {
                    let at = first_at(rest, lists(row.track))->0;
                    if k < at {
                        assert(left[k] == e);
                    } else if k > at {
                        assert(left[k - 1] == e);
                    } else {
                        assert(settled[settled.len() - 1] == slot_entry(album, e));
                    }
                } else {
                    assert(left[k] == e);
                }
            }
        }
    }
}

/// No two rows, nor a row and an entry still left, come to share a slot.
pub proof fn resettling_keeps_slots_apart(rows: Seq<Slot>, album: EntityId, entries: Seq<AlbumTrack>)
    requires
        forall|i: int, j: int|
            0 <= i < j < rows.len() ==> slots_apart(#[trigger] rows[i], #[trigger] rows[j]),
        forall|i: int, j: int|
            0 <= i < j < entries.len() ==> !same_slot(#[trigger] entries[i], #[trigger] entries[j]),
    ensures
        ({
            let (settled, left) = resettled(rows, album, entries);
            &&& forall|i: int, j: int|
                0 <= i < j < settled.len() ==> slots_apart(
                    #[trigger] settled[i],
                    #[trigger] settled[j],
                )
            &&& forall|i: int, j: int|
                0 <= i < settled.len() && 0 <= j < left.len() ==> slots_apart(
                    #[trigger] settled[i],
                    slot_entry(album, #[trigger] left[j]),
                )
            &&& forall|i: int, j: int|
                0 <= i < j < left.len() ==> !same_slot(#[trigger] left[i], #[trigger] left[j])
        }),
    decreases rows.len(),
{
    let (settled, left) = resettled(rows, album, entries);
    if rows.len() > 0 {
        let t = rows.drop_last();
        assert forall|i: int, j: int| 0 <= i < j < t.len() implies slots_apart(
            #[trigger] t[i],
            #[trigger] t[j],
        ) by {
            assert(slots_apart(rows[i], rows[j]));
        }
        resettling_keeps_slots_apart(t, album, entries);
        resettling_seats_the_entries(t, album, entries);
        let (sooner, rest) = resettled(t, album, entries);
        let row = rows.last();
        first_at_matches(rest, lists(row.track));
        let at = first_at(rest, lists(row.track));
        assert forall|i: int, j: int| 0 <= i < j < settled.len() implies slots_apart(
            #[trigger] settled[i],
            #[trigger] settled[j],
        ) by {
            assert(settled[i] == sooner[i]);
            if j < sooner.len() {
                assert(slots_apart(sooner[i], sooner[j]));
            } else if row.album != album {
                if sooner[i].album != album {
                    let k = choose|k: int| 0 <= k < t.len() && t[k] == sooner[i];
                    assert(slots_apart(rows[k], rows[rows.len() - 1]));
                }
            } else {
                assert(slots_apart(sooner[i], slot_entry(album, rest[at->0])));
            }
        }
        assert forall|i: int, j: int| 0 <= i < settled.len() && 0 <= j < left.len() implies slots_apart(
            #[trigger] settled[i],
            slot_entry(album, #[trigger] left[j]),
        ) by {
            let k = if row.album == album && at is Some && j >= at->0 {
                j + 1
            } else {
                j
            };
            assert(left[j] == rest[k]);
            if i < sooner.len() {
                assert(slots_apart(sooner[i], slot_entry(album, rest[k])));
            } else if row.album == album {
                if k < at->0 {
                    assert(!same_slot(rest[k], rest[at->0]));
                } else {
                    assert(!same_slot(rest[at->0], rest[k]));
                }
            }
        }
        assert forall|i: int, j: int| 0 <= i < j < left.len() implies !same_slot(
            #[trigger] left[i],
            #[trigger] left[j],
        ) by {
            if row.album == album && at is Some {
                let k = if i >= at->0 {
                    i + 1
                } else {
                    i
                };
                let l = if j >= at->0 {
                    j + 1
                } else {
                    j
                };
                assert(left[i] == rest[k] && left[j] == rest[l]);
                assert(!same_slot(rest[k], rest[l]));
            } else {
                assert(!same_slot(rest[i], rest[j]));
            }
        }
    }
}

/// What a track's first row says of the album, before and after.
proof fn resettling_keeps_the_first_album(
    rows: Seq<Slot>,
    album: EntityId,
    entries: Seq<AlbumTrack>,
    track: EntityId,
)
    ensures
        ({
            let (settled, left) = resettled(rows, album, entries);
            let p = slot_holds(track);
            match first_at(rows, p) {
                None => first_at(settled, p) is None && (any(entries, lists(track)) ==> any(
                    left,
                    lists(track),
                )),
                Some(i) => rows[i].album != album || any(entries, lists(track)) ==> first_at(
                    settled,
                    p,
                ) is Some && settled[first_at(settled, p)->0].album == rows[i].album,
            }
        }),
    decreases rows.len(),
{
    let p = slot_holds(track);
    if rows.len() == 0 {
        found_none(rows, p);
        found_none(resettled(rows, album, entries).0, p);
    } else {
        let t = rows.drop_last();
        let row = rows.last();
        resettling_keeps_the_first_album(t, album, entries, track);
        let (sooner, rest) = resettled(t, album, entries);
        let (settled, left) = resettled(rows, album, entries);
        assert(t.push(row) =~= rows);
        first_at_push(t, row, p);
        first_at_matches(t, p);
        first_at_matches(sooner, p);
        let q = lists(row.track);
        first_at_matches(rest, q);
        first_at_matches(rest, lists(track));
        if settled.len() > sooner.len() {
            first_at_push(sooner, settled.last(), p);
            assert(settled =~= sooner.push(settled.last()));
        }
        if first_at(rows, p) is None && any(entries, lists(track)) {
            let k = choose|k: int| 0 <= k < rest.len() && lists(track)(#[trigger] rest[k]);
            if row.album == album && first_at(rest, q) is Some {
                let at = first_at(rest, q)->0;
                if k < at {
                    assert(lists(track)(left[k]));
                } else {
                    assert(lists(track)(left[k - 1]));
                }
            } else {
                assert(lists(track)(left[k]));
            }
        }
    }
}

/// Rows left out that a search would not have found first leave the rest to be found.
proof fn leaving_out_keeps_the_first<T>(s: Seq<T>, p: spec_fn(T) -> bool, q: spec_fn(T) -> bool)
    requires
        forall|i: int| 0 <= i < s.len() && q(#[trigger] s[i]) ==> !p(s[i]),
    ensures
        match first_at(s, q) {
            Some(i) => first_at(without(s, p), q) is Some && without(s, p)[first_at(
                without(s, p),
                q,
            )->0] == s[i],
            None => first_at(without(s, p), q) is None,
        },
    decreases s.len(),
{
    if s.len() == 0 {
        found_none(s, q);
        found_none(without(s, p), q);
    } else {
        let t = s.drop_last();
        assert forall|i: int| 0 <= i < t.len() && q(#[trigger] t[i]) implies !p(t[i]) by {
            assert(q(s[i]));
        }
        leaving_out_keeps_the_first(t, p, q);
        assert(t.push(s.last()) =~= s);
        first_at_push(t, s.last(), q);
        first_at_matches(t, q);
        first_at_push(without(t, p), s.last(), q);
        first_at_matches(without(t, p), q);
        assert(s[s.len() - 1] == s.last());
    }
}

/// A track goes on being shown on the album it was first placed on when an album's tracklist is
/// replaced: by the same listing, by one that has it elsewhere on the album, or by another album's.
/// Only the album it is shown on taking it off its list changes that.
pub proof fn a_new_tracklist_keeps_the_album_shown(
    model: StoreModel,
    album: EntityId,
    entries: Seq<AlbumTrack>,
    track: EntityId,
)
    requires
        model.first_album_of(track) is Some,
        model.first_album_of(track) != Some(album) || any(entries, lists(track)),
    ensures
        model.with_tracklist(album, entries).first_album_of(track) == model.first_album_of(track),
{
    let p = slot_holds(track);
    let (settled, left) = resettled(model.slots, album, entries);
    let after = model.with_tracklist(album, entries).slots;
    resettling_keeps_the_first_album(model.slots, album, entries, track);
    first_at_matches(settled, p);
    let i = first_at(settled, p)->0;
    assert forall|j: int| 0 <= j < i implies !p(#[trigger] after[j]) by {
        assert(!p(settled[j]));
    }
    assert(after[i] == settled[i]);
    found_first(after, p, i);
}

/// A track goes on being shown on the album it was first placed on when it is placed again, there
/// or anywhere else; one that was on no album is shown on the one it is placed on.
pub proof fn placing_a_track_keeps_the_album_shown(
    model: StoreModel,
    album: EntityId,
    entry: AlbumTrack,
)
    ensures
        model.with_placed(album, entry).first_album_of(entry.track) == match model.first_album_of(
            entry.track,
        ) {
            Some(first) => Some(first),
            None => Some(album),
        },
{
    let q = slot_holds(entry.track);
    let new = slot_entry(album, entry);
    first_at_matches(model.slots, q);
    if model.slots.contains(new) {
        let k = choose|k: int| 0 <= k < model.slots.len() && model.slots[k] == new;
        assert(q(model.slots[k]));
    } else {
        let p = slot_is(album, entry.disc, entry.position);
        let kept = without(model.slots, p);
        assert forall|i: int| 0 <= i < model.slots.len() && q(#[trigger] model.slots[i]) implies !p(
            model.slots[i],
        ) by {
            if p(model.slots[i]) {
                assert(model.slots[i] == new);
            }
        }
        leaving_out_keeps_the_first(model.slots, p, q);
        first_at_push(kept, new, q);
        first_at_matches(kept, q);
    }
}

/// Sorting ranks invents no rows.
pub proof fn rows_stay_in_bounds(ranks: Seq<Rank>, bound: int)
    requires
        forall|k: int| 0 <= k < ranks.len() ==> (#[trigger] ranks[k]).row < bound,
    ensures
        forall|k: int| 0 <= k < in_order(ranks).len() ==> (#[trigger] in_order(ranks)[k]).row < bound,
        in_order(ranks).len() == ranks.len(),
{
    broadcast use vstd::seq_lib::group_to_multiset_ensures;

    in_order_is_sorted(ranks);
    let sorted = in_order(ranks);
    assert forall|k: int| 0 <= k < sorted.len() implies (#[trigger] sorted[k]).row < bound by {
        assert(sorted.contains(sorted[k]));
        assert(sorted.to_multiset().count(sorted[k]) > 0);
        assert(ranks.to_multiset().count(sorted[k]) > 0);
        assert(ranks.contains(sorted[k]));
    }
}

/// A tracklist reads in disc and position order, however it was written.
pub proof fn a_tracklist_reads_in_order(model: StoreModel, album: EntityId, i: int, j: int)
    requires
        0 <= i < j < model.tracklist(album).len(),
        model.slots.len() <= usize::MAX,
    ensures
        ({
            let a = model.tracklist(album)[i];
            let b = model.tracklist(album)[j];
            a.disc < b.disc || (a.disc == b.disc && a.position <= b.position)
        }),
{
    broadcast use vstd::seq_lib::group_to_multiset_ensures;

    let ranks = model.slot_ranks(album);
    in_order_is_sorted(ranks);
    let sorted = in_order(ranks);
    crate::rows::places_are_the_matches(model.slots, slot_of(album), model.slots.len() as int);
    assert forall|k: int| 0 <= k < sorted.len() implies ({
        let r = #[trigger] sorted[k];
        r.first == model.slots[r.row as int].disc && r.second
            == model.slots[r.row as int].position
    }) by {
        assert(sorted.contains(sorted[k]));
        assert(ranks.to_multiset().count(sorted[k]) > 0);
        assert(ranks.contains(sorted[k]));
        let m = choose|m: int| 0 <= m < ranks.len() && ranks[m] == sorted[k];
        let place = places(model.slots, slot_of(album), model.slots.len() as int)[m];
        assert(ranks[m] == slot_rank(model.slots, place));
    }
    assert(!sorted[j].before(sorted[i]));
}

} // verus!
