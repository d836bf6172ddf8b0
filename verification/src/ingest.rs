//! Ingestion: turning what a service describes into the library's own entities.
//!
//! Whatever is found or created, a binding the library already has wins outright; failing that,
//! a track with the same ISRC *is* the recording described; failing that, the entity is new.
//! Identifiers for what turns out to be new are drawn beforehand, so that what an ingestion does
//! is a function of what it is given. All of an ingestion happens or none of it does.

use vstd::prelude::*;

use crate::binding::{
    a_bound_key_names_the_entity, binding_leaves_other_keys_alone, key_of, no_key, now_ms,
};
use crate::catalog::{described_view, AlbumListing, AlbumListingView};
use crate::error::{ErrorView, Result};
use crate::id::{EntityId, SourceView};
use crate::model::{
    clone_ids, same_ids, Album, AlbumModel, AlbumTrack, Artist, ArtistModel, Binding, BindingModel,
    Confidence, EntityKind, Provenance, Track, TrackModel, CERTAIN,
};
use crate::shelf::folded;
use crate::store::{dangling, no_such, not_found, Store, StoreModel};
use crate::text::{chars_of, clone_opt, join, joined, opt_text, same_opt, texts};
use crate::track::{
    credits_view, names_of, SourceAlbum, SourceAlbumView, SourceArtist, SourceArtistView,
    SourceTrack, SourceTrackView,
};

verus! {

/// What an ingestion leads to: the tables and what it came to, or why it failed.
pub type Ingested<T> = std::result::Result<(StoreModel, T), ErrorView>;

/// The credit as displayed, from a service's list of artists.
pub open spec fn credit_of(artists: Seq<SourceArtistView>) -> Seq<char> {
    joined(artists.map_values(|a: SourceArtistView| a.name), ", "@)
}

/// A binding the entity is created from.
pub open spec fn direct(source: SourceView) -> BindingModel {
    BindingModel {
        source,
        provenance: Provenance::Direct,
        confidence: Confidence { bits: CERTAIN },
    }
}

/// A binding found by a shared ISRC.
pub open spec fn by_isrc(source: SourceView) -> BindingModel {
    BindingModel { source, provenance: Provenance::Isrc, confidence: Confidence { bits: CERTAIN } }
}

/// An artist known by name alone.
pub open spec fn named_artist(name: Seq<char>) -> ArtistModel {
    ArtistModel { name, sort_name: None, mbid: None }
}

/// The same text but for the case of ASCII letters.
pub open spec fn same_but_case(a: Seq<char>, b: Seq<char>) -> bool {
    a.len() == b.len() && forall|i: int|
        0 <= i < a.len() ==> folded(#[trigger] a[i]) == folded(b[i])
}

/// The artist a service credits, found by its binding or created as `id`. An artist the service
/// gives no id for can't be told apart from a namesake, so it is always new.
pub open spec fn ingested_artist(
    model: StoreModel,
    described: SourceArtistView,
    id: EntityId,
    now: i64,
) -> Ingested<EntityId> {
    match described.source {
        Some(source) => if key_of(source) is None {
            Err(no_key(source))
        } else {
            match model.bound(EntityKind::Artist, source) {
                Some(known) => Ok((model, known)),
                None => match model.artist_refusal(id, named_artist(described.name)) {
                    Some(why) => Err(why),
                    None => {
                        let added = model.with_artist(id, named_artist(described.name));
                        match added.bind_refusal(EntityKind::Artist, id, source) {
                            Some(why) => Err(why),
                            None => Ok(
                                (
                                    added.with_binding(
                                        EntityKind::Artist,
                                        id,
                                        direct(source),
                                        now,
                                    ),
                                    id,
                                ),
                            ),
                        }
                    },
                },
            }
        },
        None => match model.artist_refusal(id, named_artist(described.name)) {
            Some(why) => Err(why),
            None => Ok((model.with_artist(id, named_artist(described.name)), id)),
        },
    }
}

/// The artists a service credits, in order; the first new one is `ids[0]`, and so on.
pub open spec fn ingested_artists(
    model: StoreModel,
    described: Seq<SourceArtistView>,
    ids: Seq<EntityId>,
    now: i64,
) -> Ingested<Seq<EntityId>>
    decreases described.len(),
{
    if described.len() == 0 {
        Ok((model, Seq::empty()))
    } else {
        match ingested_artists(model, described.drop_last(), ids, now) {
            Err(why) => Err(why),
            Ok((so_far, found)) => match ingested_artist(
                so_far,
                described.last(),
                ids[described.len() - 1],
                now,
            ) {
                Err(why) => Err(why),
                Ok((after, id)) => Ok((after, found.push(id))),
            },
        }
    }
}

/// A known album told more about: what the description has fills in or replaces what the library
/// had; what it lacks is kept.
pub open spec fn merged(
    album: AlbumModel,
    described: SourceAlbumView,
    artists: Seq<EntityId>,
) -> AlbumModel {
    AlbumModel {
        title: if described.title.len() > 0 {
            described.title
        } else {
            album.title
        },
        artists: if described.artists.len() > 0 {
            artists
        } else {
            album.artists
        },
        credit: if described.artists.len() > 0 {
            credit_of(described.artists)
        } else {
            album.credit
        },
        release_date: if described.release_date is Some {
            described.release_date
        } else {
            album.release_date
        },
        barcode: if described.barcode is Some {
            described.barcode
        } else {
            album.barcode
        },
        artwork_url: if described.artwork_url is Some {
            described.artwork_url
        } else {
            album.artwork_url
        },
        ..album
    }
}

/// The album as a description alone gives it.
pub open spec fn new_album(described: SourceAlbumView, artists: Seq<EntityId>) -> AlbumModel {
    AlbumModel {
        title: described.title,
        credit: credit_of(described.artists),
        artists,
        release_date: described.release_date,
        barcode: described.barcode,
        mbid: None,
        group_mbid: None,
        artwork_url: described.artwork_url,
    }
}

/// The album `id` told more about by a service.
pub open spec fn merged_album(
    model: StoreModel,
    id: EntityId,
    described: SourceAlbumView,
    ids: Seq<EntityId>,
    now: i64,
) -> Ingested<EntityId> {
    match model.album(id) {
        None => Err(not_found("album "@, id)),
        Some(album) => match ingested_artists(model, described.artists, ids, now) {
            Err(why) => Err(why),
            Ok((after, artists)) => {
                let more = merged(album, described, artists);
                if more == album {
                    Ok((after, id))
                } else {
                    match after.album_update_refusal(id, more) {
                        Some(why) => Err(why),
                        None => Ok((after.with_album_updated(id, more), id)),
                    }
                }
            },
        },
    }
}

/// The album a service's listing names, created as `ids[0]` if the library doesn't know it.
pub open spec fn ingested_album(
    model: StoreModel,
    described: SourceAlbumView,
    ids: Seq<EntityId>,
    now: i64,
) -> Ingested<EntityId> {
    let known = match described.source {
        Some(source) => model.bound(EntityKind::Album, source),
        None => None,
    };
    if described.source is Some && key_of(described.source->0) is None {
        Err(no_key(described.source->0))
    } else if known is Some {
        merged_album(model, known->0, described, ids.skip(1), now)
    } else {
        match ingested_artists(model, described.artists, ids.skip(1), now) {
            Err(why) => Err(why),
            Ok((after, artists)) => match after.album_refusal(
                ids[0],
                new_album(described, artists),
            ) {
                Some(why) => Err(why),
                None => {
                    let added = after.with_album(ids[0], new_album(described, artists));
                    match described.source {
                        None => Ok((added, ids[0])),
                        Some(source) => match added.bind_refusal(
                            EntityKind::Album,
                            ids[0],
                            source,
                        ) {
                            Some(why) => Err(why),
                            None => Ok(
                                (
                                    added.with_binding(
                                        EntityKind::Album,
                                        ids[0],
                                        direct(source),
                                        now,
                                    ),
                                    ids[0],
                                ),
                            ),
                        },
                    }
                },
            },
        }
    }
}

/// The track as a description alone gives it.
pub open spec fn new_track(described: SourceTrackView, artists: Seq<EntityId>) -> TrackModel {
    TrackModel {
        title: described.title,
        credit: credit_of(described.artists),
        artists,
        duration_ms: described.duration_ms,
        isrcs: match described.isrc {
            Some(isrc) => seq![isrc],
            None => Seq::empty(),
        },
        mbid: None,
    }
}

/// `track` placed on the album its description names, where the service lists it.
pub open spec fn placed_on_album(
    model: StoreModel,
    described: SourceTrackView,
    track: EntityId,
    ids: Seq<EntityId>,
    now: i64,
) -> Ingested<EntityId> {
    match described.album {
        None => Ok((model, track)),
        Some(album) => match ingested_album(model, album, ids, now) {
            Err(why) => Err(why),
            Ok((after, album)) => match (described.disc, described.position) {
                (Some(disc), Some(position)) => if after.album_at(album) is None || after.track_at(
                    track,
                ) is None {
                    Err(dangling())
                } else {
                    Ok((after.with_placed(album, AlbumTrack { disc, position, track }), track))
                },
                _ => Ok((after, track)),
            },
        },
    }
}

/// A track whose binding the library doesn't have yet: onto `matched` by ISRC, or as the new
/// track `ids[0]`.
pub open spec fn ingested_unbound(
    model: StoreModel,
    described: SourceTrackView,
    matched: Option<EntityId>,
    ids: Seq<EntityId>,
    now: i64,
) -> Ingested<EntityId> {
    match ingested_artists(model, described.artists, ids.skip(1), now) {
        Err(why) => Err(why),
        Ok((credited, artists)) => {
            let track = match matched {
                Some(track) => track,
                None => ids[0],
            };
            let binding = match matched {
                Some(_) => by_isrc(described.source),
                None => direct(described.source),
            };
            let refusal = match matched {
                Some(_) => None,
                None => credited.track_refusal(track, new_track(described, artists)),
            };
            let added = match matched {
                Some(_) => credited,
                None => credited.with_track(track, new_track(described, artists)),
            };
            if refusal is Some {
                Err(refusal->0)
            } else {
                match added.bind_refusal(EntityKind::Track, track, described.source) {
                    Some(why) => Err(why),
                    None => placed_on_album(
                        added.with_binding(EntityKind::Track, track, binding, now),
                        described,
                        track,
                        ids.skip(1 + described.artists.len() as int),
                        now,
                    ),
                }
            }
        },
    }
}

/// The first track carrying the ISRC of the description, if it has one.
pub open spec fn isrc_match(model: StoreModel, described: SourceTrackView) -> Option<EntityId> {
    match described.isrc {
        Some(isrc) => {
            let all = model.tracks_with_isrc(isrc);
            if all.len() > 0 {
                Some(all[0])
            } else {
                None
            }
        },
        None => None,
    }
}

/// The track a service's description names, creating what the library doesn't know yet.
pub open spec fn ingested_track(
    model: StoreModel,
    described: SourceTrackView,
    ids: Seq<EntityId>,
    now: i64,
) -> Ingested<EntityId> {
    if key_of(described.source) is None {
        Err(no_key(described.source))
    } else {
        match model.bound(EntityKind::Track, described.source) {
            Some(known) => Ok((model, known)),
            None => ingested_unbound(model, described, isrc_match(model, described), ids, now),
        }
    }
}

/// Whether `described` carries one of the ISRCs of a track the library knows.
pub open spec fn is_the_recording(known: TrackModel, described: SourceTrackView) -> bool {
    described.isrc is Some && exists|i: int|
        0 <= i < known.isrcs.len() && same_but_case(#[trigger] known.isrcs[i], described.isrc->0)
}

/// `track` bound to `described`, a copy of the same recording found by its ISRC. Comes to whether
/// the track is now bound to it.
pub open spec fn isrc_bound(
    model: StoreModel,
    track: EntityId,
    described: SourceTrackView,
    ids: Seq<EntityId>,
    now: i64,
) -> Ingested<bool> {
    match model.track(track) {
        None => Err(not_found("track "@, track)),
        Some(known) => if !is_the_recording(known, described) {
            Ok((model, false))
        } else if key_of(described.source) is None {
            Err(no_key(described.source))
        } else {
            match model.bound(EntityKind::Track, described.source) {
                Some(owner) => Ok((model, owner == track)),
                None => match ingested_unbound(model, described, Some(track), ids, now) {
                    Err(why) => Err(why),
                    Ok((after, _)) => Ok((after, true)),
                },
            }
        },
    }
}

/// The entries of a listing's first `n` tracks: each where the service lists it, or in the order
/// listed on the first disc.
pub open spec fn ingested_entries(
    model: StoreModel,
    tracks: Seq<SourceTrackView>,
    ids: Seq<Seq<EntityId>>,
    now: i64,
) -> Ingested<Seq<AlbumTrack>>
    decreases tracks.len(),
{
    if tracks.len() == 0 {
        Ok((model, Seq::empty()))
    } else {
        match ingested_entries(model, tracks.drop_last(), ids, now) {
            Err(why) => Err(why),
            Ok((so_far, entries)) => {
                let described = tracks.last();
                match ingested_track(so_far, described, ids[tracks.len() - 1], now) {
                    Err(why) => Err(why),
                    Ok((after, track)) => Ok(
                        (
                            after,
                            entries.push(
                                AlbumTrack {
                                    disc: match described.disc {
                                        Some(disc) => disc,
                                        None => 1,
                                    },
                                    position: match described.position {
                                        Some(position) => position,
                                        None => if tracks.len() > u32::MAX {
                                            u32::MAX
                                        } else {
                                            tracks.len() as u32
                                        },
                                    },
                                    track,
                                },
                            ),
                        ),
                    ),
                }
            },
        }
    }
}

/// An album with its whole tracklist, as a service lists it. The tracklist replaces whatever the
/// library had pieced together from single tracks.
pub open spec fn ingested_listing(
    model: StoreModel,
    listing: AlbumListingView,
    album_ids: Seq<EntityId>,
    track_ids: Seq<Seq<EntityId>>,
    now: i64,
) -> Ingested<EntityId> {
    match ingested_album(model, listing.album, album_ids, now) {
        Err(why) => Err(why),
        Ok((after, album)) => match ingested_entries(after, listing.tracks, track_ids, now) {
            Err(why) => Err(why),
            Ok((filled, entries)) => match filled.tracklist_refusal(
                album,
                entries,
                entries.len() as int,
            ) {
                Some(why) => Err(why),
                None => Ok((filled.with_tracklist(album, entries), album)),
            },
        },
    }
}

/// How many identifiers ingesting an album may need.
pub open spec fn album_needs(described: SourceAlbumView) -> int {
    1 + described.artists.len() as int
}

/// How many identifiers ingesting a track may need.
pub open spec fn track_needs(described: SourceTrackView) -> int {
    1 + described.artists.len() as int + match described.album {
        Some(album) => album_needs(album),
        None => 0,
    }
}

/// The credit as displayed, from a service's list of artists.
pub fn credit(artists: &Vec<SourceArtist>) -> (text: String)
    ensures
        text@ == credit_of(credits_view(artists@)),
{
    let names = names_of(artists);
    join(&names, ", ")
}

/// Whether two texts are the same but for the case of ASCII letters.
pub fn equal_but_case(a: &str, b: &str) -> (r: bool)
    ensures
        r == same_but_case(a@, b@),
{
    let left = chars_of(a);
    let right = chars_of(b);
    if left.len() != right.len() {
        return false;
    }
    let mut i: usize = 0;
    while i < left.len()
        invariant
            i <= left@.len(),
            left@ == a@,
            right@ == b@,
            left@.len() == right@.len(),
            forall|k: int| 0 <= k < i ==> folded(#[trigger] left@[k]) == folded(right@[k]),
        decreases left.len() - i,
    {
        if crate::shelf::fold(left[i]) != crate::shelf::fold(right[i]) {
            assert(folded(a@[i as int]) != folded(b@[i as int]));
            return false;
        }
        i = i + 1;
    }
    true
}

/// Whether two albums say the same.
fn same_album(a: &Album, b: &Album) -> (r: bool)
    ensures
        r == (a@ == b@),
{
    let r: bool = a.title == b.title && a.credit == b.credit && same_ids(&a.artists, &b.artists)
        && same_opt(&a.release_date, &b.release_date) && same_opt(&a.barcode, &b.barcode)
        && crate::store::same_mbid(a.mbid, b.mbid) && crate::store::same_mbid(
        a.group_mbid,
        b.group_mbid,
    ) && same_opt(&a.artwork_url, &b.artwork_url);
    r
}

/// `first` where there is one, else `second`.
fn or_kept(first: &Option<String>, second: &Option<String>) -> (r: Option<String>)
    ensures
        opt_text(r) == if opt_text(*first) is Some {
            opt_text(*first)
        } else {
            opt_text(*second)
        },
{
    if first.is_some() {
        clone_opt(first)
    } else {
        clone_opt(second)
    }
}

/// `count` random identifiers.
pub(crate) fn draw_ids(count: usize) -> (ids: Vec<EntityId>)
    ensures
        ids@.len() == count,
{
    let mut ids: Vec<EntityId> = Vec::new();
    let mut i: usize = 0;
    while i < count
        invariant
            i <= count,
            ids@.len() == i,
        decreases count - i,
    {
        ids.push(EntityId::new());
        i = i + 1;
    }
    ids
}

impl Store {
    /// Ingest an artist, drawing on `id` if it is new. What was written before a failure stays.
    pub(crate) fn put_artist(&mut self, described: &SourceArtist, id: EntityId, now: i64) -> (done: Result<
        EntityId,
    >)
        ensures
            match done {
                Ok(found) => ingested_artist(old(self)@, described@, id, now) == Ok::<
                    (StoreModel, EntityId),
                    ErrorView,
                >((final(self)@, found)),
                Err(e) => ingested_artist(old(self)@, described@, id, now) == Err::<
                    (StoreModel, EntityId),
                    ErrorView,
                >(e@),
            },
    {
        if let Some(source) = &described.source {
            match self.bound(EntityKind::Artist, source) {
                Err(e) => {
                    return Err(e);
                },
                Ok(Some(known)) => {
                    return Ok(known);
                },
                Ok(None) => {},
            }
        }
        let artist = Artist { name: described.name.clone(), sort_name: None, mbid: None };
        assert(artist@ == named_artist(described@.name));
        match self.insert_artist(id, &artist) {
            Err(e) => {
                return Err(e);
            },
            Ok(_) => {},
        }
        if let Some(source) = &described.source {
            let binding = Binding::direct(source.clone());
            match self.bind_at(EntityKind::Artist, id, &binding, now) {
                Err(e) => {
                    return Err(e);
                },
                Ok(_) => {},
            }
        }
        Ok(id)
    }

    /// Ingest artists in order, drawing on `ids` from `skip` on for those that are new.
    fn put_artists(
        &mut self,
        described: &Vec<SourceArtist>,
        ids: &Vec<EntityId>,
        skip: usize,
        now: i64,
    ) -> (done: Result<Vec<EntityId>>)
        requires
            skip + described@.len() <= ids@.len(),
        ensures
            match done {
                Ok(found) => ingested_artists(
                    old(self)@,
                    credits_view(described@),
                    ids@.skip(skip as int),
                    now,
                ) == Ok::<(StoreModel, Seq<EntityId>), ErrorView>((final(self)@, found@)),
                Err(e) => ingested_artists(
                    old(self)@,
                    credits_view(described@),
                    ids@.skip(skip as int),
                    now,
                ) == Err::<(StoreModel, Seq<EntityId>), ErrorView>(e@),
            },
    {
        let ghost before = self@;
        let ghost supply = ids@.skip(skip as int);
        let total: usize = ids.len();
        let mut found: Vec<EntityId> = Vec::new();
        let mut i: usize = 0;
        while i < described.len()
            invariant
                i <= described@.len(),
                before == old(self)@,
                total == ids@.len(),
                skip + described@.len() <= total,
                supply == ids@.skip(skip as int),
                ingested_artists(before, credits_view(described@.take(i as int)), supply, now)
                    == Ok::<(StoreModel, Seq<EntityId>), ErrorView>((self@, found@)),
            decreases described.len() - i,
        {
            let ghost upto = credits_view(described@.take(i + 1));
            assert(upto.drop_last() =~= credits_view(described@.take(i as int)));
            assert(upto.last() == described@[i as int]@);
            assert(supply[i as int] == ids@[skip + i]);
            match self.put_artist(&described[i], ids[skip + i], now) {
                Ok(id) => {
                    found.push(id);
                },
                Err(e) => {
                    proof {
                        assert(credits_view(described@).take(i + 1) =~= upto);
                        artist_failures_stand(
                            before,
                            credits_view(described@),
                            supply,
                            now,
                            i + 1,
                        );
                    }
                    return Err(e);
                },
            }
            i = i + 1;
        }
        assert(described@.take(i as int) =~= described@);
        Ok(found)
    }

    /// Tell a known album more. What was written before a failure stays.
    fn merge_album(
        &mut self,
        id: EntityId,
        described: &SourceAlbum,
        ids: &Vec<EntityId>,
        skip: usize,
        now: i64,
    ) -> (done: Result<EntityId>)
        requires
            skip + described.artists@.len() <= ids@.len(),
        ensures
            match done {
                Ok(found) => merged_album(
                    old(self)@,
                    id,
                    described@,
                    ids@.skip(skip as int),
                    now,
                ) == Ok::<(StoreModel, EntityId), ErrorView>((final(self)@, found)),
                Err(e) => merged_album(
                    old(self)@,
                    id,
                    described@,
                    ids@.skip(skip as int),
                    now,
                ) == Err::<(StoreModel, EntityId), ErrorView>(e@),
            },
    {
        let album = match self.album(id) {
            Some(album) => album,
            None => {
                return Err(no_such("album ", id));
            },
        };
        let found = match self.put_artists(&described.artists, ids, skip, now) {
            Ok(found) => found,
            Err(e) => {
                return Err(e);
            },
        };
        let credited: bool = described.artists.len() > 0;
        let more = Album {
            title: if described.title.as_str().is_empty() {
                album.title.clone()
            } else {
                described.title.clone()
            },
            credit: if credited {
                credit(&described.artists)
            } else {
                album.credit.clone()
            },
            artists: if credited {
                clone_ids(&found)
            } else {
                clone_ids(&album.artists)
            },
            release_date: or_kept(&described.release_date, &album.release_date),
            barcode: or_kept(&described.barcode, &album.barcode),
            mbid: album.mbid,
            group_mbid: album.group_mbid,
            artwork_url: or_kept(&described.artwork_url, &album.artwork_url),
        };
        assert(more@ =~= merged(album@, described@, found@));
        if !same_album(&more, &album) {
            match self.update_album(id, &more) {
                Ok(_) => {},
                Err(e) => {
                    return Err(e);
                },
            }
        }
        Ok(id)
    }

    /// Ingest an album, drawing on `ids` from `skip` on. What was written before a failure stays.
    pub(crate) fn put_album(
        &mut self,
        described: &SourceAlbum,
        ids: &Vec<EntityId>,
        skip: usize,
        now: i64,
    ) -> (done: Result<EntityId>)
        requires
            skip + album_needs(described@) <= ids@.len(),
        ensures
            match done {
                Ok(found) => ingested_album(old(self)@, described@, ids@.skip(skip as int), now)
                    == Ok::<(StoreModel, EntityId), ErrorView>((final(self)@, found)),
                Err(e) => ingested_album(old(self)@, described@, ids@.skip(skip as int), now)
                    == Err::<(StoreModel, EntityId), ErrorView>(e@),
            },
    {
        let total: usize = ids.len();
        assert(credits_view(described.artists@).len() == described.artists@.len());
        assert(ids@.skip(skip as int).skip(1) =~= ids@.skip(skip + 1));
        if let Some(source) = &described.source {
            match self.bound(EntityKind::Album, source) {
                Err(e) => {
                    return Err(e);
                },
                Ok(Some(known)) => {
                    return self.merge_album(known, described, ids, skip + 1, now);
                },
                Ok(None) => {},
            }
        }
        let found = match self.put_artists(&described.artists, ids, skip + 1, now) {
            Ok(found) => found,
            Err(e) => {
                return Err(e);
            },
        };
        let album = Album {
            title: described.title.clone(),
            credit: credit(&described.artists),
            artists: found,
            release_date: clone_opt(&described.release_date),
            barcode: clone_opt(&described.barcode),
            mbid: None,
            group_mbid: None,
            artwork_url: clone_opt(&described.artwork_url),
        };
        assert(album@ =~= new_album(described@, found@));
        let id = ids[skip];
        match self.insert_album(id, &album) {
            Ok(_) => {},
            Err(e) => {
                return Err(e);
            },
        }
        if let Some(source) = &described.source {
            let binding = Binding::direct(source.clone());
            match self.bind_at(EntityKind::Album, id, &binding, now) {
                Ok(_) => {},
                Err(e) => {
                    return Err(e);
                },
            }
        }
        Ok(id)
    }

    /// Put `track` on the album its description names. What was written before a failure stays.
    fn put_on_album(
        &mut self,
        described: &SourceTrack,
        track: EntityId,
        ids: &Vec<EntityId>,
        skip: usize,
        now: i64,
    ) -> (done: Result<EntityId>)
        requires
            skip + match described@.album {
                Some(album) => album_needs(album),
                None => 0,
            } <= ids@.len(),
        ensures
            match done {
                Ok(found) => placed_on_album(
                    old(self)@,
                    described@,
                    track,
                    ids@.skip(skip as int),
                    now,
                ) == Ok::<(StoreModel, EntityId), ErrorView>((final(self)@, found)),
                Err(e) => placed_on_album(
                    old(self)@,
                    described@,
                    track,
                    ids@.skip(skip as int),
                    now,
                ) == Err::<(StoreModel, EntityId), ErrorView>(e@),
            },
    {
        if let Some(album) = &described.album {
            let album = match self.put_album(album, ids, skip, now) {
                Ok(album) => album,
                Err(e) => {
                    return Err(e);
                },
            };
            if let (Some(disc), Some(position)) = (described.disc, described.position) {
                match self.place(album, AlbumTrack { disc, position, track }) {
                    Ok(_) => {},
                    Err(e) => {
                        return Err(e);
                    },
                }
            }
        }
        Ok(track)
    }

    /// Ingest a track whose binding the library doesn't have yet. What was written before a
    /// failure stays.
    fn put_unbound(
        &mut self,
        described: &SourceTrack,
        matched: Option<EntityId>,
        ids: &Vec<EntityId>,
        now: i64,
    ) -> (done: Result<EntityId>)
        requires
            track_needs(described@) <= ids@.len(),
        ensures
            match done {
                Ok(found) => ingested_unbound(old(self)@, described@, matched, ids@, now) == Ok::<
                    (StoreModel, EntityId),
                    ErrorView,
                >((final(self)@, found)),
                Err(e) => ingested_unbound(old(self)@, described@, matched, ids@, now) == Err::<
                    (StoreModel, EntityId),
                    ErrorView,
                >(e@),
            },
    {
        let total: usize = ids.len();
        assert(credits_view(described.artists@).len() == described.artists@.len());
        let found = match self.put_artists(&described.artists, ids, 1, now) {
            Ok(found) => found,
            Err(e) => {
                return Err(e);
            },
        };
        let (track, binding) = match matched {
            Some(track) => (
                track,
                Binding {
                    source: described.source.clone(),
                    provenance: Provenance::Isrc,
                    confidence: Confidence::certain(),
                },
            ),
            None => {
                let mut isrcs: Vec<String> = Vec::new();
                if let Some(isrc) = &described.isrc {
                    isrcs.push(isrc.clone());
                }
                let track = Track {
                    title: described.title.clone(),
                    credit: credit(&described.artists),
                    artists: found,
                    duration_ms: described.duration_ms,
                    isrcs,
                    mbid: None,
                };
                assert(texts(isrcs@) =~= new_track(described@, found@).isrcs);
                assert(track@ =~= new_track(described@, found@));
                let id = ids[0];
                match self.insert_track(id, &track) {
                    Ok(_) => {},
                    Err(e) => {
                        return Err(e);
                    },
                }
                (id, Binding::direct(described.source.clone()))
            },
        };
        match self.bind_at(EntityKind::Track, track, &binding, now) {
            Ok(_) => {},
            Err(e) => {
                return Err(e);
            },
        }
        self.put_on_album(described, track, ids, 1 + described.artists.len(), now)
    }

    /// Ingest a track. What was written before a failure stays.
    pub(crate) fn put_track(&mut self, described: &SourceTrack, ids: &Vec<EntityId>, now: i64) -> (done:
        Result<EntityId>)
        requires
            track_needs(described@) <= ids@.len(),
        ensures
            match done {
                Ok(found) => ingested_track(old(self)@, described@, ids@, now) == Ok::<
                    (StoreModel, EntityId),
                    ErrorView,
                >((final(self)@, found)),
                Err(e) => ingested_track(old(self)@, described@, ids@, now) == Err::<
                    (StoreModel, EntityId),
                    ErrorView,
                >(e@),
            },
    {
        match self.bound(EntityKind::Track, &described.source) {
            Err(e) => {
                return Err(e);
            },
            Ok(Some(known)) => {
                return Ok(known);
            },
            Ok(None) => {},
        }
        let matched: Option<EntityId> = match &described.isrc {
            Some(isrc) => {
                let all = self.tracks_with_isrc(isrc.as_str());
                if all.len() > 0 {
                    Some(all[0])
                } else {
                    None
                }
            },
            None => None,
        };
        self.put_unbound(described, matched, ids, now)
    }

    /// The artist a service credits, found by its binding or created as `id`, as of `now`.
    pub fn ingest_artist_as(&mut self, described: &SourceArtist, id: EntityId, now: i64) -> (done:
        Result<EntityId>)
        ensures
            match done {
                Ok(found) => ingested_artist(old(self)@, described@, id, now) == Ok::<
                    (StoreModel, EntityId),
                    ErrorView,
                >((final(self)@, found)),
                Err(e) => ingested_artist(old(self)@, described@, id, now) == Err::<
                    (StoreModel, EntityId),
                    ErrorView,
                >(e@) && final(self)@ == old(self)@,
            },
    {
        let before = self.copy();
        match self.put_artist(described, id, now) {
            Ok(found) => Ok(found),
            Err(e) => {
                *self = before;
                Err(e)
            },
        }
    }

    /// The artist a service credits, found by its binding or created.
    pub fn ingest_artist(&mut self, described: &SourceArtist) -> (done: Result<EntityId>)
        ensures
            exists|id: EntityId, now: i64| #[trigger]
                artist_outcome(old(self)@, final(self)@, described@, id, now, done),
    {
        let id = EntityId::new();
        let now: i64 = now_ms();
        let done = self.ingest_artist_as(described, id, now);
        assert(artist_outcome(old(self)@, self@, described@, id, now, done));
        done
    }

    /// The album a service's listing names, created from `ids` if the library doesn't know it, as
    /// of `now`.
    pub fn ingest_album_as(&mut self, described: &SourceAlbum, ids: &Vec<EntityId>, now: i64) -> (
        done: Result<EntityId>)
        requires
            album_needs(described@) <= ids@.len(),
        ensures
            album_outcome(old(self)@, final(self)@, described@, ids@, now, done),
    {
        let before = self.copy();
        assert(ids@.skip(0) =~= ids@);
        match self.put_album(described, ids, 0, now) {
            Ok(found) => Ok(found),
            Err(e) => {
                *self = before;
                Err(e)
            },
        }
    }

    /// The album a service's listing names, created if the library doesn't know it.
    pub fn ingest_album(&mut self, described: &SourceAlbum) -> (done: Result<EntityId>)
        requires
            album_needs(described@) <= usize::MAX,
        ensures
            exists|ids: Seq<EntityId>, now: i64|
                ids.len() == album_needs(described@) && #[trigger] album_outcome(
                    old(self)@,
                    final(self)@,
                    described@,
                    ids,
                    now,
                    done,
                ),
    {
        let ids = draw_ids(ids_for_album(described));
        let now: i64 = now_ms();
        self.ingest_album_as(described, &ids, now)
    }

    /// The track a service's description names, creating from `ids` what the library doesn't know
    /// yet, as of `now`.
    pub fn ingest_track_as(&mut self, described: &SourceTrack, ids: &Vec<EntityId>, now: i64) -> (
        done: Result<EntityId>)
        requires
            track_needs(described@) <= ids@.len(),
        ensures
            track_outcome(old(self)@, final(self)@, described@, ids@, now, done),
    {
        match self.bound(EntityKind::Track, &described.source) {
            Err(e) => {
                return Err(e);
            },
            Ok(Some(known)) => {
                return Ok(known);
            },
            Ok(None) => {},
        }
        let before = self.copy();
        match self.put_track(described, ids, now) {
            Ok(found) => Ok(found),
            Err(e) => {
                *self = before;
                Err(e)
            },
        }
    }

    /// The track a service's description names, creating what the library doesn't know yet.
    ///
    /// In order: a binding the library already has wins outright; failing that, a track with the
    /// same ISRC *is* this recording, and gains the binding; failing that, the track is new. Its
    /// artists and album are found by their own bindings, or created, and the track is placed on
    /// the album where the service lists it.
    pub fn ingest_track(&mut self, described: &SourceTrack) -> (done: Result<EntityId>)
        requires
            track_needs(described@) <= usize::MAX,
        ensures
            exists|ids: Seq<EntityId>, now: i64|
                ids.len() == track_needs(described@) && #[trigger] track_outcome(
                    old(self)@,
                    final(self)@,
                    described@,
                    ids,
                    now,
                    done,
                ),
    {
        let ids = draw_ids(ids_for_track(described));
        let now: i64 = now_ms();
        self.ingest_track_as(described, &ids, now)
    }

    /// Bind `track` to `described`, a copy of the same recording on some service found by its
    /// ISRC, and bring in its album and artists, drawing on `ids`, as of `now`.
    pub fn bind_isrc_match_as(
        &mut self,
        track: EntityId,
        described: &SourceTrack,
        ids: &Vec<EntityId>,
        now: i64,
    ) -> (done: Result<bool>)
        requires
            track_needs(described@) <= ids@.len(),
        ensures
            match_outcome(old(self)@, final(self)@, track, described@, ids@, now, done),
    {
        let known = match self.track(track) {
            Some(known) => known,
            None => {
                return Err(no_such("track ", track));
            },
        };
        let mut same_recording: bool = false;
        if let Some(isrc) = &described.isrc {
            let mut i: usize = 0;
            while i < known.isrcs.len()
                invariant
                    i <= known.isrcs@.len(),
                    described@.isrc == Some(isrc@),
                    same_recording == (exists|k: int|
                        0 <= k < i && same_but_case(#[trigger] known@.isrcs[k], isrc@)),
                decreases known.isrcs.len() - i,
            {
                assert(known@.isrcs[i as int] == known.isrcs@[i as int]@);
                if equal_but_case(known.isrcs[i].as_str(), isrc.as_str()) {
                    same_recording = true;
                }
                i = i + 1;
            }
            assert(known@.isrcs.len() == known.isrcs@.len());
        }
        if !same_recording {
            return Ok(false);
        }
        match self.bound(EntityKind::Track, &described.source) {
            Err(e) => Err(e),
            Ok(Some(owner)) => Ok(owner.0 == track.0),
            Ok(None) => {
                let before = self.copy();
                match self.put_unbound(described, Some(track), ids, now) {
                    Ok(_) => Ok(true),
                    Err(e) => {
                        *self = before;
                        Err(e)
                    },
                }
            },
        }
    }

    /// Bind `track` to `described`, a copy of the same recording on some service found by its
    /// ISRC. This names the track to bind rather than taking the first with that ISRC, so a
    /// library that holds the recording twice still binds the one asked about.
    ///
    /// Returns whether `track` is now bound to it: `false`, with nothing written, when `described`
    /// doesn't carry one of the track's ISRCs, or its binding already belongs to another track.
    pub fn bind_isrc_match(&mut self, track: EntityId, described: &SourceTrack) -> (done: Result<
        bool,
    >)
        requires
            track_needs(described@) <= usize::MAX,
        ensures
            exists|ids: Seq<EntityId>, now: i64|
                ids.len() == track_needs(described@) && #[trigger] match_outcome(
                    old(self)@,
                    final(self)@,
                    track,
                    described@,
                    ids,
                    now,
                    done,
                ),
    {
        let ids = draw_ids(ids_for_track(described));
        let now: i64 = now_ms();
        self.bind_isrc_match_as(track, described, &ids, now)
    }

    /// Ingest the tracks of a listing in order. What was written before a failure stays.
    fn put_entries(
        &mut self,
        tracks: &Vec<SourceTrack>,
        ids: &Vec<Vec<EntityId>>,
        now: i64,
    ) -> (done: Result<Vec<AlbumTrack>>)
        requires
            tracks@.len() <= ids@.len(),
            forall|i: int|
                0 <= i < tracks@.len() ==> track_needs((#[trigger] tracks@[i])@) <= ids@[i]@.len(),
        ensures
            match done {
                Ok(entries) => ingested_entries(
                    old(self)@,
                    described_view(tracks@),
                    supplies(ids@),
                    now,
                ) == Ok::<(StoreModel, Seq<AlbumTrack>), ErrorView>((final(self)@, entries@)),
                Err(e) => ingested_entries(
                    old(self)@,
                    described_view(tracks@),
                    supplies(ids@),
                    now,
                ) == Err::<(StoreModel, Seq<AlbumTrack>), ErrorView>(e@),
            },
    {
        let ghost before = self@;
        let mut entries: Vec<AlbumTrack> = Vec::new();
        let mut i: usize = 0;
        while i < tracks.len()
            invariant
                i <= tracks@.len(),
                before == old(self)@,
                tracks@.len() <= ids@.len(),
                forall|i: int|
                    0 <= i < tracks@.len() ==> track_needs((#[trigger] tracks@[i])@)
                        <= ids@[i]@.len(),
                ingested_entries(before, described_view(tracks@.take(i as int)), supplies(ids@), now)
                    == Ok::<(StoreModel, Seq<AlbumTrack>), ErrorView>((self@, entries@)),
            decreases tracks.len() - i,
        {
            let ghost upto = described_view(tracks@.take(i + 1));
            assert(upto.drop_last() =~= described_view(tracks@.take(i as int)));
            assert(upto.last() == tracks@[i as int]@);
            assert(supplies(ids@)[i as int] == ids@[i as int]@);
            let described = &tracks[i];
            assert(track_needs(described@) <= ids@[i as int]@.len());
            match self.put_track(described, &ids[i], now) {
                Ok(track) => {
                    let fallback: u32 = if i >= u32::MAX as usize {
                        u32::MAX
                    } else {
                        (i + 1) as u32
                    };
                    entries.push(
                        AlbumTrack {
                            disc: match described.disc {
                                Some(disc) => disc,
                                None => 1,
                            },
                            position: match described.position {
                                Some(position) => position,
                                None => fallback,
                            },
                            track,
                        },
                    );
                },
                Err(e) => {
                    proof {
                        assert(described_view(tracks@).take(i + 1) =~= upto);
                        entry_failures_stand(
                            before,
                            described_view(tracks@),
                            supplies(ids@),
                            now,
                            i + 1,
                        );
                    }
                    return Err(e);
                },
            }
            i = i + 1;
        }
        assert(tracks@.take(i as int) =~= tracks@);
        Ok(entries)
    }

    /// An album with its whole tracklist, drawing on `album_ids` and, track by track, on
    /// `track_ids`, as of `now`.
    pub fn ingest_album_listing_as(
        &mut self,
        listing: &AlbumListing,
        album_ids: &Vec<EntityId>,
        track_ids: &Vec<Vec<EntityId>>,
        now: i64,
    ) -> (done: Result<EntityId>)
        requires
            album_needs(listing.album@) <= album_ids@.len(),
            listing.tracks@.len() <= track_ids@.len(),
            forall|i: int|
                0 <= i < listing.tracks@.len() ==> track_needs((#[trigger] listing.tracks@[i])@)
                    <= track_ids@[i]@.len(),
        ensures
            listing_outcome(
                old(self)@,
                final(self)@,
                listing@,
                album_ids@,
                supplies(track_ids@),
                now,
                done,
            ),
    {
        let before = self.copy();
        assert(album_ids@.skip(0) =~= album_ids@);
        let album = match self.put_album(&listing.album, album_ids, 0, now) {
            Ok(album) => album,
            Err(e) => {
                *self = before;
                return Err(e);
            },
        };
        let entries = match self.put_entries(&listing.tracks, track_ids, now) {
            Ok(entries) => entries,
            Err(e) => {
                *self = before;
                return Err(e);
            },
        };
        match self.set_tracklist(album, &entries) {
            Ok(_) => Ok(album),
            Err(e) => {
                *self = before;
                Err(e)
            },
        }
    }

    /// An album with its whole tracklist, as a service lists it. The tracklist replaces whatever
    /// the library had pieced together from single tracks.
    pub fn ingest_album_listing(&mut self, listing: &AlbumListing) -> (done: Result<EntityId>)
        requires
            album_needs(listing.album@) <= usize::MAX,
            forall|i: int|
                0 <= i < listing.tracks@.len() ==> track_needs((#[trigger] listing.tracks@[i])@)
                    <= usize::MAX,
        ensures
            exists|album_ids: Seq<EntityId>, track_ids: Seq<Seq<EntityId>>, now: i64|
                album_ids.len() == album_needs(listing.album@) && track_ids.len()
                    == listing.tracks@.len() && #[trigger] listing_outcome(
                    old(self)@,
                    final(self)@,
                    listing@,
                    album_ids,
                    track_ids,
                    now,
                    done,
                ),
    {
        let album_ids = draw_ids(ids_for_album(&listing.album));
        let mut track_ids: Vec<Vec<EntityId>> = Vec::new();
        let mut i: usize = 0;
        while i < listing.tracks.len()
            invariant
                i <= listing.tracks@.len(),
                track_ids@.len() == i,
                forall|i: int|
                    0 <= i < listing.tracks@.len() ==> track_needs((#[trigger] listing.tracks@[i])@)
                        <= usize::MAX,
                forall|j: int|
                    0 <= j < i ==> track_needs((#[trigger] listing.tracks@[j])@)
                        <= track_ids@[j]@.len(),
            decreases listing.tracks.len() - i,
        {
            assert(track_needs(listing.tracks@[i as int]@) <= usize::MAX);
            track_ids.push(draw_ids(ids_for_track(&listing.tracks[i])));
            i = i + 1;
        }
        let now: i64 = now_ms();
        self.ingest_album_listing_as(listing, &album_ids, &track_ids, now)
    }
}

/// How many identifiers ingesting `described` may need.
pub(crate) fn ids_for_album(described: &SourceAlbum) -> (count: usize)
    requires
        album_needs(described@) <= usize::MAX,
    ensures
        count == album_needs(described@),
{
    assert(credits_view(described.artists@).len() == described.artists@.len());
    1 + described.artists.len()
}

/// How many identifiers ingesting `described` may need.
pub(crate) fn ids_for_track(described: &SourceTrack) -> (count: usize)
    requires
        track_needs(described@) <= usize::MAX,
    ensures
        count == track_needs(described@),
{
    assert(credits_view(described.artists@).len() == described.artists@.len());
    match &described.album {
        Some(album) => 1 + described.artists.len() + ids_for_album(album),
        None => 1 + described.artists.len(),
    }
}

/// The identifiers drawn for each of several tracks.
pub open spec fn supplies(ids: Seq<Vec<EntityId>>) -> Seq<Seq<EntityId>> {
    ids.map_values(|v: Vec<EntityId>| v@)
}

/// Ingesting an artist led from `before` to `after` and came to `done`; a failure left the tables
/// as they were.
pub open spec fn artist_outcome(
    before: StoreModel,
    after: StoreModel,
    described: SourceArtistView,
    id: EntityId,
    now: i64,
    done: Result<EntityId>,
) -> bool {
    match done {
        Ok(found) => ingested_artist(before, described, id, now) == Ok::<
            (StoreModel, EntityId),
            ErrorView,
        >((after, found)),
        Err(e) => ingested_artist(before, described, id, now) == Err::<
            (StoreModel, EntityId),
            ErrorView,
        >(e@) && after == before,
    }
}

/// Ingesting an album led from `before` to `after` and came to `done`; a failure left the tables
/// as they were.
pub open spec fn album_outcome(
    before: StoreModel,
    after: StoreModel,
    described: SourceAlbumView,
    ids: Seq<EntityId>,
    now: i64,
    done: Result<EntityId>,
) -> bool {
    match done {
        Ok(found) => ingested_album(before, described, ids, now) == Ok::<
            (StoreModel, EntityId),
            ErrorView,
        >((after, found)),
        Err(e) => ingested_album(before, described, ids, now) == Err::<
            (StoreModel, EntityId),
            ErrorView,
        >(e@) && after == before,
    }
}

/// Ingesting a track led from `before` to `after` and came to `done`; a failure left the tables
/// as they were.
pub open spec fn track_outcome(
    before: StoreModel,
    after: StoreModel,
    described: SourceTrackView,
    ids: Seq<EntityId>,
    now: i64,
    done: Result<EntityId>,
) -> bool {
    match done {
        Ok(found) => ingested_track(before, described, ids, now) == Ok::<
            (StoreModel, EntityId),
            ErrorView,
        >((after, found)),
        Err(e) => ingested_track(before, described, ids, now) == Err::<
            (StoreModel, EntityId),
            ErrorView,
        >(e@) && after == before,
    }
}

/// Matching a track led from `before` to `after` and came to `done`; a failure left the tables as
/// they were.
pub open spec fn match_outcome(
    before: StoreModel,
    after: StoreModel,
    track: EntityId,
    described: SourceTrackView,
    ids: Seq<EntityId>,
    now: i64,
    done: Result<bool>,
) -> bool {
    match done {
        Ok(bound) => isrc_bound(before, track, described, ids, now) == Ok::<
            (StoreModel, bool),
            ErrorView,
        >((after, bound)),
        Err(e) => isrc_bound(before, track, described, ids, now) == Err::<
            (StoreModel, bool),
            ErrorView,
        >(e@) && after == before,
    }
}

/// Ingesting a listing led from `before` to `after` and came to `done`; a failure left the tables
/// as they were.
pub open spec fn listing_outcome(
    before: StoreModel,
    after: StoreModel,
    listing: AlbumListingView,
    album_ids: Seq<EntityId>,
    track_ids: Seq<Seq<EntityId>>,
    now: i64,
    done: Result<EntityId>,
) -> bool {
    match done {
        Ok(found) => ingested_listing(before, listing, album_ids, track_ids, now) == Ok::<
            (StoreModel, EntityId),
            ErrorView,
        >((after, found)),
        Err(e) => ingested_listing(before, listing, album_ids, track_ids, now) == Err::<
            (StoreModel, EntityId),
            ErrorView,
        >(e@) && after == before,
    }
}

/// Once one artist of a list cannot be ingested, the list cannot be, for the same reason.
proof fn artist_failures_stand(
    model: StoreModel,
    described: Seq<SourceArtistView>,
    ids: Seq<EntityId>,
    now: i64,
    n: int,
)
    requires
        0 <= n <= described.len(),
        ingested_artists(model, described.take(n), ids, now) is Err,
    ensures
        ingested_artists(model, described, ids, now) == ingested_artists(
            model,
            described.take(n),
            ids,
            now,
        ),
    decreases described.len() - n,
{
    if n < described.len() {
        assert(described.take(n + 1).drop_last() =~= described.take(n));
        artist_failures_stand(model, described, ids, now, n + 1);
    } else {
        assert(described.take(n) =~= described);
    }
}

/// Once one track of a listing cannot be ingested, the listing cannot be, for the same reason.
proof fn entry_failures_stand(
    model: StoreModel,
    tracks: Seq<SourceTrackView>,
    ids: Seq<Seq<EntityId>>,
    now: i64,
    n: int,
)
    requires
        0 <= n <= tracks.len(),
        ingested_entries(model, tracks.take(n), ids, now) is Err,
    ensures
        ingested_entries(model, tracks, ids, now) == ingested_entries(
            model,
            tracks.take(n),
            ids,
            now,
        ),
    decreases tracks.len() - n,
{
    if n < tracks.len() {
        assert(tracks.take(n + 1).drop_last() =~= tracks.take(n));
        entry_failures_stand(model, tracks, ids, now, n + 1);
    } else {
        assert(tracks.take(n) =~= tracks);
    }
}

/// What ingesting artists and albums never touches: the tracks, their ISRCs, what is saved, the
/// playlists, and which track a key names.
pub open spec fn keeps_tracks(before: StoreModel, after: StoreModel) -> bool {
    &&& after.tracks == before.tracks
    &&& after.isrcs == before.isrcs
    &&& after.saved == before.saved
    &&& after.playlists == before.playlists
    &&& forall|s: SourceView|
        #[trigger] after.bound(EntityKind::Track, s) == before.bound(EntityKind::Track, s)
}

proof fn an_artist_keeps_tracks(
    model: StoreModel,
    described: SourceArtistView,
    id: EntityId,
    now: i64,
)
    requires
        ingested_artist(model, described, id, now) is Ok,
    ensures
        keeps_tracks(model, ingested_artist(model, described, id, now)->Ok_0.0),
        model.artists.is_prefix_of(ingested_artist(model, described, id, now)->Ok_0.0.artists),
        model.bindings.is_prefix_of(ingested_artist(model, described, id, now)->Ok_0.0.bindings),
        ingested_artist(model, described, id, now)->Ok_0.0.albums == model.albums,
        ingested_artist(model, described, id, now)->Ok_0.0.slots == model.slots,
{
    let after = ingested_artist(model, described, id, now)->Ok_0.0;
    let added = model.with_artist(id, named_artist(described.name));
    assert forall|s: SourceView| #[trigger]
        after.bound(EntityKind::Track, s) == model.bound(EntityKind::Track, s) by {
        assert(added.bound(EntityKind::Track, s) == model.bound(EntityKind::Track, s));
        if described.source is Some && model.bound(
            EntityKind::Artist,
            described.source->0,
        ) is None {
            binding_leaves_other_keys_alone(
                added,
                EntityKind::Artist,
                id,
                direct(described.source->0),
                now,
                EntityKind::Track,
                s,
            );
        }
    }
}

proof fn artists_keep_tracks(
    model: StoreModel,
    described: Seq<SourceArtistView>,
    ids: Seq<EntityId>,
    now: i64,
)
    requires
        ingested_artists(model, described, ids, now) is Ok,
    ensures
        keeps_tracks(model, ingested_artists(model, described, ids, now)->Ok_0.0),
        model.artists.is_prefix_of(ingested_artists(model, described, ids, now)->Ok_0.0.artists),
        model.bindings.is_prefix_of(ingested_artists(model, described, ids, now)->Ok_0.0.bindings),
        ingested_artists(model, described, ids, now)->Ok_0.0.albums == model.albums,
        ingested_artists(model, described, ids, now)->Ok_0.0.slots == model.slots,
    decreases described.len(),
{
    if described.len() > 0 {
        artists_keep_tracks(model, described.drop_last(), ids, now);
        let so_far = ingested_artists(model, described.drop_last(), ids, now)->Ok_0.0;
        an_artist_keeps_tracks(so_far, described.last(), ids[described.len() - 1], now);
        let after = ingested_artists(model, described, ids, now)->Ok_0.0;
        assert forall|s: SourceView| #[trigger]
            after.bound(EntityKind::Track, s) == model.bound(EntityKind::Track, s) by {
            assert(so_far.bound(EntityKind::Track, s) == model.bound(EntityKind::Track, s));
        }
    }
}

proof fn an_album_keeps_tracks(
    model: StoreModel,
    described: SourceAlbumView,
    ids: Seq<EntityId>,
    now: i64,
)
    requires
        ingested_album(model, described, ids, now) is Ok,
    ensures
        keeps_tracks(model, ingested_album(model, described, ids, now)->Ok_0.0),
        model.artists.is_prefix_of(ingested_album(model, described, ids, now)->Ok_0.0.artists),
        model.bindings.is_prefix_of(ingested_album(model, described, ids, now)->Ok_0.0.bindings),
        model.albums.len() <= ingested_album(model, described, ids, now)->Ok_0.0.albums.len(),
{
    let after = ingested_album(model, described, ids, now)->Ok_0.0;
    artists_keep_tracks(model, described.artists, ids.skip(1), now);
    let credited = ingested_artists(model, described.artists, ids.skip(1), now)->Ok_0.0;
    let found = ingested_artists(model, described.artists, ids.skip(1), now)->Ok_0.1;
    let known = match described.source {
        Some(source) => model.bound(EntityKind::Album, source),
        None => None,
    };
    assert forall|s: SourceView| #[trigger]
        after.bound(EntityKind::Track, s) == model.bound(EntityKind::Track, s) by {
        assert(credited.bound(EntityKind::Track, s) == model.bound(EntityKind::Track, s));
        if known is None {
            let added = credited.with_album(ids[0], new_album(described, found));
            assert(added.bound(EntityKind::Track, s) == credited.bound(EntityKind::Track, s));
            if described.source is Some {
                binding_leaves_other_keys_alone(
                    added,
                    EntityKind::Album,
                    ids[0],
                    direct(described.source->0),
                    now,
                    EntityKind::Track,
                    s,
                );
            }
        } else {
            assert(after.bindings == credited.bindings);
        }
    }
    if known is None && described.source is Some {
        let added = credited.with_album(ids[0], new_album(described, found));
        assert(credited.bindings.is_prefix_of(after.bindings)) by {
            let source = described.source->0;
            let key = key_of(source)->0;
            if added.binding_at(EntityKind::Album, source.service(), key) is Some {
                artists_keep_album_keys(model, described.artists, ids.skip(1), now, source);
            }
        }
    }
}

/// Ingesting artists changes no album's key.
proof fn artists_keep_album_keys(
    model: StoreModel,
    described: Seq<SourceArtistView>,
    ids: Seq<EntityId>,
    now: i64,
    source: SourceView,
)
    requires
        ingested_artists(model, described, ids, now) is Ok,
    ensures
        ingested_artists(model, described, ids, now)->Ok_0.0.bound(EntityKind::Album, source)
            == model.bound(EntityKind::Album, source),
    decreases described.len(),
{
    if described.len() > 0 {
        artists_keep_album_keys(model, described.drop_last(), ids, now, source);
        let so_far = ingested_artists(model, described.drop_last(), ids, now)->Ok_0.0;
        let last = described.last();
        let id = ids[described.len() - 1];
        let added = so_far.with_artist(id, named_artist(last.name));
        assert(added.bound(EntityKind::Album, source) == so_far.bound(EntityKind::Album, source));
        if last.source is Some && so_far.bound(EntityKind::Artist, last.source->0) is None {
            binding_leaves_other_keys_alone(
                added,
                EntityKind::Artist,
                id,
                direct(last.source->0),
                now,
                EntityKind::Album,
                source,
            );
        }
    }
}

/// Once a track is ingested, its key names it.
pub proof fn an_ingested_key_names_its_track(
    model: StoreModel,
    described: SourceTrackView,
    ids: Seq<EntityId>,
    now: i64,
)
    requires
        ingested_track(model, described, ids, now) is Ok,
    ensures
        ({
            let (after, id) = ingested_track(model, described, ids, now)->Ok_0;
            after.bound(EntityKind::Track, described.source) == Some(id)
        }),
{
    if model.bound(EntityKind::Track, described.source) is None {
        an_unbound_key_comes_to_name_its_track(
            model,
            described,
            isrc_match(model, described),
            ids,
            now,
        );
    }
}

proof fn an_unbound_key_comes_to_name_its_track(
    model: StoreModel,
    described: SourceTrackView,
    matched: Option<EntityId>,
    ids: Seq<EntityId>,
    now: i64,
)
    requires
        key_of(described.source) is Some,
        ingested_unbound(model, described, matched, ids, now) is Ok,
    ensures
        ({
            let (after, id) = ingested_unbound(model, described, matched, ids, now)->Ok_0;
            &&& after.bound(EntityKind::Track, described.source) == Some(id)
            &&& matched is Some ==> id == matched->0 && after.tracks == model.tracks
                && after.isrcs == model.isrcs
        }),
{
    artists_keep_tracks(model, described.artists, ids.skip(1), now);
    let (credited, artists) = ingested_artists(model, described.artists, ids.skip(1), now)->Ok_0;
    let track = match matched {
        Some(track) => track,
        None => ids[0],
    };
    let binding = match matched {
        Some(_) => by_isrc(described.source),
        None => direct(described.source),
    };
    let added = match matched {
        Some(_) => credited,
        None => credited.with_track(track, new_track(described, artists)),
    };
    a_bound_key_names_the_entity(added, EntityKind::Track, track, binding, now);
    let bound = added.with_binding(EntityKind::Track, track, binding, now);
    match described.album {
        Some(album) => {
            let rest = ids.skip(1 + described.artists.len() as int);
            an_album_keeps_tracks(bound, album, rest, now);
            let filled = ingested_album(bound, album, rest, now)->Ok_0.0;
            assert(filled.bound(EntityKind::Track, described.source) == bound.bound(
                EntityKind::Track,
                described.source,
            ));
            let after = ingested_unbound(model, described, matched, ids, now)->Ok_0.0;
            assert(after.bindings == filled.bindings);
        },
        None => {},
    }
}

/// One binding is one track: ingesting what is already ingested finds the same track and writes
/// nothing.
pub proof fn ingesting_twice_is_one_track(
    model: StoreModel,
    described: SourceTrackView,
    ids: Seq<EntityId>,
    now: i64,
    more_ids: Seq<EntityId>,
    later: i64,
)
    requires
        ingested_track(model, described, ids, now) is Ok,
    ensures
        ({
            let (after, id) = ingested_track(model, described, ids, now)->Ok_0;
            ingested_track(after, described, more_ids, later) == Ok::<
                (StoreModel, EntityId),
                ErrorView,
            >((after, id))
        }),
{
    an_ingested_key_names_its_track(model, described, ids, now);
}

/// The same recording under another key is found by its ISRC: it gains the new binding instead of
/// becoming a second track.
pub proof fn the_same_isrc_is_the_same_recording(
    model: StoreModel,
    described: SourceTrackView,
    ids: Seq<EntityId>,
    now: i64,
)
    requires
        described.isrc is Some,
        model.tracks_with_isrc(described.isrc->0).len() > 0,
        model.bound(EntityKind::Track, described.source) is None,
        ingested_track(model, described, ids, now) is Ok,
    ensures
        ({
            let (after, id) = ingested_track(model, described, ids, now)->Ok_0;
            &&& id == model.tracks_with_isrc(described.isrc->0)[0]
            &&& after.tracks == model.tracks
            &&& after.bound(EntityKind::Track, described.source) == Some(id)
        }),
{
    an_unbound_key_comes_to_name_its_track(
        model,
        described,
        isrc_match(model, described),
        ids,
        now,
    );
}

/// A match never moves a binding, nor lands one on a different recording: unless it comes to
/// `true` the tables are as they were, and when it does the copy carries one of the track's
/// ISRCs and its key names the track.
pub proof fn a_match_binds_only_the_named_recording(
    model: StoreModel,
    track: EntityId,
    described: SourceTrackView,
    ids: Seq<EntityId>,
    now: i64,
)
    requires
        isrc_bound(model, track, described, ids, now) is Ok,
    ensures
        ({
            let (after, bound) = isrc_bound(model, track, described, ids, now)->Ok_0;
            &&& !bound ==> after == model
            &&& bound ==> model.track(track) is Some && is_the_recording(
                model.track(track)->0,
                described,
            )
            &&& bound ==> after.bound(EntityKind::Track, described.source) == Some(track)
            &&& model.bound(EntityKind::Track, described.source) is Some ==> after == model
        }),
{
    let (after, bound) = isrc_bound(model, track, described, ids, now)->Ok_0;
    if bound && model.bound(EntityKind::Track, described.source) is None {
        an_unbound_key_comes_to_name_its_track(model, described, Some(track), ids, now);
    }
}

/// Matching again what is already matched comes to `true` and writes nothing.
pub proof fn matching_is_idempotent(
    model: StoreModel,
    track: EntityId,
    described: SourceTrackView,
    ids: Seq<EntityId>,
    now: i64,
    more_ids: Seq<EntityId>,
    later: i64,
)
    requires
        isrc_bound(model, track, described, ids, now) is Ok,
        isrc_bound(model, track, described, ids, now)->Ok_0.1,
    ensures
        ({
            let after = isrc_bound(model, track, described, ids, now)->Ok_0.0;
            isrc_bound(after, track, described, more_ids, later) == Ok::<
                (StoreModel, bool),
                ErrorView,
            >((after, true))
        }),
{
    a_match_binds_only_the_named_recording(model, track, described, ids, now);
    let after = isrc_bound(model, track, described, ids, now)->Ok_0.0;
    if model.bound(EntityKind::Track, described.source) is None {
        an_unbound_key_comes_to_name_its_track(model, described, Some(track), ids, now);
        assert(after.track(track) == model.track(track));
    }
}

/// Two texts are the same but for case where each letter of one is the letter of the other, or its
/// capital, and every other character is the same.
pub proof fn the_same_but_for_case(a: Seq<char>, b: Seq<char>)
    ensures
        same_but_case(a, b) <==> a.len() == b.len() && forall|i: int|
            0 <= i < a.len() ==> #[trigger] a[i] == b[i] || ('A' <= a[i] <= 'Z' && b[i] as int
                == a[i] as int + 32) || ('A' <= b[i] <= 'Z' && a[i] as int == b[i] as int + 32),
        same_but_case(a, a),
        same_but_case(a, b) ==> same_but_case(b, a),
{
    if same_but_case(a, b) {
        assert forall|i: int| 0 <= i < a.len() implies #[trigger] a[i] == b[i] || ('A' <= a[i]
            <= 'Z' && b[i] as int == a[i] as int + 32) || ('A' <= b[i] <= 'Z' && a[i] as int
            == b[i] as int + 32) by {
            letters_fold_alike(a[i], b[i]);
        }
        assert forall|i: int| 0 <= i < b.len() implies folded(#[trigger] b[i]) == folded(a[i]) by {
            assert(folded(a[i]) == folded(b[i]));
        }
    }
    if a.len() == b.len() && forall|i: int|
        0 <= i < a.len() ==> #[trigger] a[i] == b[i] || ('A' <= a[i] <= 'Z' && b[i] as int
            == a[i] as int + 32) || ('A' <= b[i] <= 'Z' && a[i] as int == b[i] as int + 32) {
        assert forall|i: int| 0 <= i < a.len() implies folded(#[trigger] a[i]) == folded(b[i]) by {
            letters_fold_alike(a[i], b[i]);
        }
    }
}

proof fn letters_fold_alike(x: char, y: char)
    ensures
        folded(x) == folded(y) <==> x == y || ('A' <= x <= 'Z' && y as int == x as int + 32) || (
        'A' <= y <= 'Z' && x as int == y as int + 32),
{
    crate::shelf::only_capitals_fold(x);
    crate::shelf::only_capitals_fold(y);
}

} // verus!
