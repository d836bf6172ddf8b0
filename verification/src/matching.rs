//! Matching: how a track known only from one service comes to play from another, by ISRC.

use vstd::prelude::*;

use crate::binding::now_ms;
use crate::catalog::described_view;
use crate::error::{ErrorView, Result};
use crate::id::{opt_source, sources_view, EntityId, Service, SourceRef, SourceView};
use crate::ingest::{
    a_match_binds_only_the_named_recording, is_the_recording, isrc_bound, supplies, track_needs,
    Ingested,
};
use crate::intake::{countable_tracks, led, serves_tracks};
use crate::library::{first_on, is_on, Library};
use crate::model::EntityKind;
use crate::rows::{
    first_at, first_at_matches, found_first, found_none, in_order, in_order_holds_the_same,
    in_order_is_sorted, keeping, put_in_order, Rank,
};
use crate::source::{not_browsable, Sources, SourcesModel};
use crate::store::{no_such, not_found, StoreModel};
use crate::text::texts;
use crate::track::{opt_track, SourceTrack, SourceTrackView, TrackRef, TrackRefView};
use crate::tracklist::rows_stay_in_bounds;

verus! {

/// What to do to match a track onto a service.
pub enum MatchPlan {
    /// It is bound there already.
    Bound(SourceRef),
    /// It has no ISRC to look it up by (fuzzy matching is not attempted).
    NoIsrc,
    /// Look each ISRC up there, in order, until one of the copies found is bound. `want` is the
    /// track's length, which tells the copies apart.
    Look { isrcs: Vec<String>, want: Option<u64> },
}

/// What a [`MatchPlan`] says.
pub enum MatchPlanView {
    Bound(SourceView),
    NoIsrc,
    Look { isrcs: Seq<Seq<char>>, want: Option<u64> },
}

impl View for MatchPlan {
    type V = MatchPlanView;

    open spec fn view(&self) -> MatchPlanView {
        match self {
            MatchPlan::Bound(source) => MatchPlanView::Bound(source@),
            MatchPlan::NoIsrc => MatchPlanView::NoIsrc,
            MatchPlan::Look { isrcs, want } => MatchPlanView::Look {
                isrcs: texts(isrcs@),
                want: *want,
            },
        }
    }
}

/// What to do to match `track` onto `service`.
pub open spec fn match_plan(
    model: StoreModel,
    sources: SourcesModel,
    track: EntityId,
    service: Service,
) -> std::result::Result<MatchPlanView, ErrorView> {
    match model.track(track) {
        None => Err(not_found("track "@, track)),
        Some(known) => match first_on(service, model.sources_of(track)) {
            Some(source) => Ok(MatchPlanView::Bound(source)),
            None => if known.isrcs.len() == 0 {
                Ok(MatchPlanView::NoIsrc)
            } else if !sources.browses(service) {
                Err(not_browsable(service))
            } else {
                Ok(MatchPlanView::Look { isrcs: known.isrcs, want: known.duration_ms })
            },
        },
    }
}

/// How far a copy of length `duration_ms` is from the length wanted; one of unknown length is as
/// far as can be.
pub open spec fn distance(duration_ms: Option<u64>, want: u64) -> int {
    match duration_ms {
        Some(d) => if d >= want {
            d - want
        } else {
            want - d
        },
        None => u64::MAX as int,
    }
}

/// Where copy `i` comes among the closest in length; without a length to go by, where it is.
pub open spec fn closeness(copies: Seq<SourceTrackView>, want: Option<u64>, i: int) -> Rank {
    Rank {
        first: match want {
            Some(want) => distance(copies[i].duration_ms, want) as i128,
            None => 0,
        },
        second: 0,
        third: 0,
        row: i as usize,
    }
}

/// The places of `copies`, closest in length first, and otherwise in the order found.
pub open spec fn closest_first(copies: Seq<SourceTrackView>, want: Option<u64>) -> Seq<Rank> {
    in_order(Seq::new(copies.len(), |i: int| closeness(copies, want, i)))
}

/// `track` bound to the first of `copies`, from place `k` of `order` on, that is the same
/// recording and not bound to another track.
pub open spec fn bound_to_first(
    model: StoreModel,
    track: EntityId,
    copies: Seq<SourceTrackView>,
    order: Seq<Rank>,
    ids: Seq<Seq<EntityId>>,
    now: i64,
    k: int,
) -> Ingested<Option<SourceView>>
    decreases order.len() - k,
{
    if k >= order.len() {
        Ok((model, None))
    } else {
        let row = order[k].row as int;
        match isrc_bound(model, track, copies[row], ids[row], now) {
            Err(why) => Err(why),
            Ok((after, true)) => Ok((after, Some(copies[row].source))),
            Ok((after, false)) => bound_to_first(after, track, copies, order, ids, now, k + 1),
        }
    }
}

/// What a binding that may be missing, or may have failed to come about, says.
pub open spec fn binding_result(done: Result<Option<SourceRef>>) -> std::result::Result<
    Option<SourceView>,
    ErrorView,
> {
    match done {
        Ok(source) => Ok(opt_source(source)),
        Err(e) => Err(e@),
    }
}

/// The places of `copies`, closest in length first.
fn by_closeness(copies: &Vec<SourceTrack>, want: Option<u64>) -> (order: Vec<Rank>)
    ensures
        order@ == closest_first(described_view(copies@), want),
        order@.len() == copies@.len(),
        forall|k: int| 0 <= k < order@.len() ==> (#[trigger] order@[k]).row < copies@.len(),
{
    let ghost all = described_view(copies@);
    let mut ranks: Vec<Rank> = Vec::new();
    let mut i: usize = 0;
    while i < copies.len()
        invariant
            i <= copies@.len(),
            all == described_view(copies@),
            ranks@.len() == i,
            forall|k: int| 0 <= k < i ==> #[trigger] ranks@[k] == closeness(all, want, k),
            forall|k: int| 0 <= k < i ==> (#[trigger] ranks@[k]).row < copies@.len(),
        decreases copies.len() - i,
    {
        assert(all[i as int] == copies@[i as int]@);
        let first: i128 = match want {
            Some(want) => match copies[i].duration_ms {
                Some(d) => if d >= want {
                    (d - want) as i128
                } else {
                    (want - d) as i128
                },
                None => u64::MAX as i128,
            },
            None => 0,
        };
        ranks.push(Rank { first, second: 0, third: 0, row: i });
        i = i + 1;
    }
    assert(ranks@ =~= Seq::new(all.len(), |i: int| closeness(all, want, i)));
    proof {
        in_order_is_sorted(ranks@);
        rows_stay_in_bounds(ranks@, copies@.len() as int);
    }
    put_in_order(&ranks)
}

impl Library {
    /// What to do to match `track` onto `service`: an existing binding there is taken without
    /// asking it anything; otherwise each of the track's ISRCs is to be looked up.
    pub fn match_onto(&self, sources: &Sources, track: EntityId, service: Service) -> (plan: Result<
        MatchPlan,
    >)
        ensures
            crate::intake::seen(plan) == match_plan(self@, sources@, track, service),
    {
        let known = match self.store.track(track) {
            Some(known) => known,
            None => {
                return Err(no_such("track ", track));
            },
        };
        let bindings = self.store.sources(track);
        let ghost all = sources_view(bindings@);
        let ghost p = is_on(service);
        let mut i: usize = 0;
        while i < bindings.len()
            invariant
                i <= bindings@.len(),
                all == sources_view(bindings@),
                all == self@.sources_of(track),
                p == is_on(service),
                self@.track(track) is Some,
                forall|k: int| 0 <= k < i ==> !p(#[trigger] all[k]),
            decreases bindings.len() - i,
        {
            assert(all[i as int] == bindings@[i as int]@);
            if bindings[i].service() == service {
                proof {
                    found_first(all, p, i as int);
                }
                return Ok(MatchPlan::Bound(bindings[i].clone()));
            }
            i = i + 1;
        }
        proof {
            found_none(all, p);
        }
        assert(known@.isrcs.len() == known.isrcs@.len());
        if known.isrcs.len() == 0 {
            return Ok(MatchPlan::NoIsrc);
        }
        match sources.catalog(service) {
            Ok(_) => Ok(MatchPlan::Look { isrcs: known.isrcs, want: known.duration_ms }),
            Err(e) => Err(e),
        }
    }

    /// Bind `track` to one of the `copies` a service has of one of its ISRCs, drawing on `ids`, as
    /// of `now`. Of several copies (the album, a compilation), the one closest in length to the
    /// track is preferred: the same ISRC can sit on edits a few seconds apart.
    pub fn bind_copy_as(
        &mut self,
        track: EntityId,
        want: Option<u64>,
        copies: &Vec<SourceTrack>,
        ids: &Vec<Vec<EntityId>>,
        now: i64,
    ) -> (done: Result<Option<SourceRef>>)
        requires
            serves_tracks(supplies(ids@), described_view(copies@)),
        ensures
            led(
                bound_to_first(
                    old(self)@,
                    track,
                    described_view(copies@),
                    closest_first(described_view(copies@), want),
                    supplies(ids@),
                    now,
                    0,
                ),
                old(self)@,
                final(self)@,
                binding_result(done),
            ),
    {
        let ghost before = self@;
        let ghost all = described_view(copies@);
        let order = by_closeness(copies, want);
        let mut k: usize = 0;
        while k < order.len()
            invariant
                k <= order@.len(),
                before == old(self)@,
                self@ == before,
                all == described_view(copies@),
                order@ == closest_first(all, want),
                forall|k: int| 0 <= k < order@.len() ==> (#[trigger] order@[k]).row < copies@.len(),
                serves_tracks(supplies(ids@), all),
                bound_to_first(before, track, all, order@, supplies(ids@), now, 0)
                    == bound_to_first(before, track, all, order@, supplies(ids@), now, k as int),
            decreases order.len() - k,
        {
            let row: usize = order[k].row;
            assert(all[row as int] == copies@[row as int]@);
            assert(supplies(ids@)[row as int] == ids@[row as int]@);
            assert(track_needs(all[row as int]) <= ids@[row as int]@.len());
            match self.store.bind_isrc_match_as(track, &copies[row], &ids[row], now) {
                Ok(true) => {
                    return Ok(Some(copies[row].source.clone()));
                },
                Ok(false) => {
                    proof {
                        a_match_binds_only_the_named_recording(
                            before,
                            track,
                            all[row as int],
                            ids@[row as int]@,
                            now,
                        );
                    }
                },
                Err(e) => {
                    return Err(e);
                },
            }
            k = k + 1;
        }
        Ok(None)
    }

    /// Bind `track` to one of the `copies` a service has of one of its ISRCs, the one closest in
    /// length first.
    pub fn bind_copy(&mut self, track: EntityId, want: Option<u64>, copies: &Vec<SourceTrack>) -> (
        done: Result<Option<SourceRef>>)
        requires
            countable_tracks(described_view(copies@)),
        ensures
            exists|ids: Seq<Seq<EntityId>>, now: i64|
                serves_tracks(ids, described_view(copies@)) && led(
                    #[trigger] bound_to_first(
                        old(self)@,
                        track,
                        described_view(copies@),
                        closest_first(described_view(copies@), want),
                        ids,
                        now,
                        0,
                    ),
                    old(self)@,
                    final(self)@,
                    binding_result(done),
                ),
    {
        let ids = crate::intake::draw_for_tracks(copies);
        let now: i64 = now_ms();
        self.bind_copy_as(track, want, copies, &ids, now)
    }
}

/// Whether the entry at `i` was asked about `id`.
pub open spec fn asked(id: EntityId) -> spec_fn((EntityId, Option<TrackRefView>)) -> bool {
    |t: (EntityId, Option<TrackRefView>)| t.0 == id
}

/// What asking about `id` came to, if it was asked about.
pub open spec fn answered(
    tried: Seq<(EntityId, Option<TrackRefView>)>,
    id: EntityId,
) -> Option<Option<TrackRefView>> {
    match first_at(tried, asked(id)) {
        Some(i) => Some(tried[i].1),
        None => None,
    }
}

/// Whether `track` has to be matched before it can play: there is somewhere to match it onto, and
/// nothing it is bound to can be streamed.
pub open spec fn needs_match(
    sources: SourcesModel,
    targets: Seq<Service>,
    track: TrackRefView,
) -> bool {
    targets.len() > 0 && sources.plays_from(track.sources) is None
}

/// The streaming services that can be browsed, in the order to prefer them.
pub open spec fn match_targets(sources: SourcesModel) -> Seq<Service> {
    keeping(sources.streaming(), |s: Service| sources.browses(s))
}

/// `track` as it is to be queued: as it is, or as matching it left it.
pub open spec fn made_playable(
    sources: SourcesModel,
    tried: Seq<(EntityId, Option<TrackRefView>)>,
    track: TrackRefView,
) -> TrackRefView {
    if !needs_match(sources, match_targets(sources), track) {
        track
    } else {
        match answered(tried, track.id) {
            Some(Some(matched)) => matched,
            _ => track,
        }
    }
}

/// What several answers say.
pub open spec fn tried_view(tried: Seq<(EntityId, Option<TrackRef>)>) -> Seq<
    (EntityId, Option<TrackRefView>),
> {
    tried.map_values(|t: (EntityId, Option<TrackRef>)| (t.0, opt_track(t.1)))
}

/// Making tracks playable, one at a time: each given a binding that can be streamed if it has
/// none. One that matches nowhere comes out as it went in, to fail with the honest reason when
/// opened. A track listed twice is matched once.
pub struct Matching {
    pub sources: Sources,
    pub targets: Vec<Service>,
    pub tracks: Vec<TrackRef>,
    pub tried: Vec<(EntityId, Option<TrackRef>)>,
    pub playable: Vec<TrackRef>,
}

impl Matching {
    /// What has come out so far is what went in, made playable; and no track was asked about
    /// twice.
    pub open spec fn wf(self) -> bool {
        &&& self.targets@ == match_targets(self.sources@)
        &&& self.playable@.len() <= self.tracks@.len()
        &&& forall|i: int|
            0 <= i < self.playable@.len() ==> (#[trigger] self.playable@[i])@ == made_playable(
                self.sources@,
                tried_view(self.tried@),
                self.tracks@[i]@,
            )
        &&& forall|i: int|
            0 <= i < self.playable@.len() && needs_match(
                self.sources@,
                self.targets@,
                (#[trigger] self.tracks@[i])@,
            ) ==> answered(tried_view(self.tried@), self.tracks@[i].id) is Some
        &&& forall|i: int, j: int|
            0 <= i < j < self.tried@.len() ==> (#[trigger] self.tried@[i]).0 != (
            #[trigger] self.tried@[j]).0
    }

    /// Start on `tracks`.
    pub fn new(sources: &Sources, tracks: Vec<TrackRef>) -> (matching: Self)
        ensures
            matching.wf(),
            matching.sources@ == sources@,
            matching.tracks@ == tracks@,
            matching.playable@.len() == 0,
            matching.tried@.len() == 0,
    {
        let streaming = sources.streaming_services();
        let ghost p = |s: Service| sources@.browses(s);
        let mut targets: Vec<Service> = Vec::new();
        let mut i: usize = 0;
        while i < streaming.len()
            invariant
                i <= streaming@.len(),
                p == (|s: Service| sources@.browses(s)),
                targets@ == keeping(streaming@.take(i as int), p),
            decreases streaming.len() - i,
        {
            assert(streaming@.take(i + 1).drop_last() =~= streaming@.take(i as int));
            if sources.browses(streaming[i]) {
                targets.push(streaming[i]);
            }
            i = i + 1;
        }
        assert(streaming@.take(i as int) =~= streaming@);
        Matching {
            sources: sources.clone(),
            targets,
            tracks,
            tried: Vec::new(),
            playable: Vec::new(),
        }
    }

    /// What asking about `id` came to, if it was asked about.
    fn answer_for(&self, id: EntityId) -> (answer: Option<Option<TrackRef>>)
        ensures
            match answer {
                Some(track) => answered(tried_view(self.tried@), id) == Some(opt_track(track)),
                None => answered(tried_view(self.tried@), id) is None,
            },
    {
        let ghost all = tried_view(self.tried@);
        let ghost p = asked(id);
        let mut i: usize = 0;
        while i < self.tried.len()
            invariant
                i <= self.tried@.len(),
                all == tried_view(self.tried@),
                p == asked(id),
                forall|k: int| 0 <= k < i ==> !p(#[trigger] all[k]),
            decreases self.tried.len() - i,
        {
            assert(all[i as int].0 == self.tried@[i as int].0);
            if self.tried[i].0.0 == id.0 {
                proof {
                    found_first(all, p, i as int);
                }
                return match &self.tried[i].1 {
                    Some(track) => Some(Some(track.clone())),
                    None => Some(None),
                };
            }
            i = i + 1;
        }
        proof {
            found_none(all, p);
        }
        None
    }

    /// Go on until a track has to be matched: which one, or `None` when every track is done. What
    /// can be streamed already is passed through without asking anything.
    pub fn next(&mut self) -> (ask: Option<EntityId>)
        requires
            old(self).wf(),
        ensures
            final(self).wf(),
            final(self).sources@ == old(self).sources@,
            final(self).targets@ == old(self).targets@,
            final(self).tracks == old(self).tracks,
            final(self).tried == old(self).tried,
            match ask {
                Some(id) => {
                    let i = final(self).playable@.len() as int;
                    &&& i < final(self).tracks@.len()
                    &&& id == final(self).tracks@[i].id
                    &&& needs_match(
                        final(self).sources@,
                        final(self).targets@,
                        final(self).tracks@[i]@,
                    )
                    &&& answered(tried_view(final(self).tried@), id) is None
                },
                None => final(self).playable@.len() == final(self).tracks@.len(),
            },
    {
        while self.playable.len() < self.tracks.len()
            invariant
                self.wf(),
                self.sources@ == old(self).sources@,
                self.targets@ == old(self).targets@,
                self.tracks == old(self).tracks,
                self.tried == old(self).tried,
            decreases self.tracks.len() - self.playable.len(),
        {
            let i: usize = self.playable.len();
            let id = self.tracks[i].id;
            let plays = self.sources.plays_from(&self.tracks[i].sources);
            if self.targets.len() == 0 || plays.is_some() {
                let track = self.tracks[i].clone();
                self.playable.push(track);
            } else {
                match self.answer_for(id) {
                    Some(Some(matched)) => {
                        self.playable.push(matched);
                    },
                    Some(None) => {
                        let track = self.tracks[i].clone();
                        self.playable.push(track);
                    },
                    None => {
                        return Some(id);
                    },
                }
            }
        }
        None
    }

    /// What asking about the track came to: the track with its new binding, or nothing.
    pub fn answer(&mut self, matched: Option<TrackRef>)
        requires
            old(self).wf(),
            old(self).playable@.len() < old(self).tracks@.len(),
            answered(
                tried_view(old(self).tried@),
                old(self).tracks@[old(self).playable@.len() as int].id,
            ) is None,
        ensures
            final(self).wf(),
            final(self).sources@ == old(self).sources@,
            final(self).targets@ == old(self).targets@,
            final(self).tracks == old(self).tracks,
            final(self).playable == old(self).playable,
            final(self).tried@ == old(self).tried@.push(
                (old(self).tracks@[old(self).playable@.len() as int].id, matched),
            ),
            answered(
                tried_view(final(self).tried@),
                old(self).tracks@[old(self).playable@.len() as int].id,
            ) == Some(opt_track(matched)),
    {
        let ghost before = tried_view(self.tried@);
        let id = self.tracks[self.playable.len()].id;
        let ghost tried = self.tried@;
        self.tried.push((id, matched));
        proof {
            let after = tried_view(self.tried@);
            assert(after =~= before.push((id, opt_track(matched))));
            assert forall|other: EntityId| answered(before, other) is Some implies answered(
                after,
                other,
            ) == #[trigger] answered(before, other) by {
                crate::rows::first_at_push(before, (id, opt_track(matched)), asked(other));
                first_at_matches(before, asked(other));
            }
            crate::rows::first_at_push(before, (id, opt_track(matched)), asked(id));
            first_at_matches(before, asked(id));
            assert forall|i: int| 0 <= i < tried.len() implies (#[trigger] tried[i]).0 != id by {
                assert(before[i].0 == tried[i].0);
                assert(!asked(id)(before[i]));
            }
            assert forall|i: int| 0 <= i < self.playable@.len() implies (
            #[trigger] self.playable@[i])@ == made_playable(
                self.sources@,
                after,
                self.tracks@[i]@,
            ) by {
                assert(self.playable@[i]@ == made_playable(
                    self.sources@,
                    before,
                    self.tracks@[i]@,
                ));
                if needs_match(self.sources@, self.targets@, self.tracks@[i]@) {
                    assert(answered(before, self.tracks@[i].id) is Some);
                }
            }
            assert forall|i: int, j: int| 0 <= i < j < self.tried@.len() implies (
            #[trigger] self.tried@[i]).0 != (#[trigger] self.tried@[j]).0 by {
                assert(self.tried@[i] == tried[i]);
                if j < tried.len() {
                    assert(self.tried@[j] == tried[j]);
                }
            }
        }
    }
}

/// Several places asked in turn until one of them answers: the ISRCs of a track on a service, or
/// the services it may be found on.
pub struct InTurn {
    /// How many places there are.
    pub places: usize,
    /// How many have been asked and had nothing.
    pub asked: usize,
    /// Whether the one asked last had it.
    pub found: bool,
}

/// Where asking `places` in turn stands after these replies.
pub open spec fn after_replies(places: usize, replies: Seq<bool>) -> InTurn
    decreases replies.len(),
{
    if replies.len() == 0 {
        InTurn { places, asked: 0, found: false }
    } else {
        let before = after_replies(places, replies.drop_last());
        if before.found || before.asked >= places {
            before
        } else if replies.last() {
            InTurn { found: true, ..before }
        } else {
            InTurn { asked: (before.asked + 1) as usize, ..before }
        }
    }
}

impl InTurn {
    pub fn new(places: usize) -> (turn: Self)
        ensures
            turn == after_replies(places, Seq::empty()),
    {
        InTurn { places, asked: 0, found: false }
    }

    /// The place to ask next: the first not asked yet, unless one has answered.
    pub fn next(&self) -> (place: Option<usize>)
        ensures
            place == if self.found || self.asked >= self.places {
                None
            } else {
                Some(self.asked)
            },
    {
        if self.found || self.asked >= self.places {
            None
        } else {
            Some(self.asked)
        }
    }

    /// What the place asked had to say.
    pub fn answer(&mut self, found: bool)
        ensures
            forall|replies: Seq<bool>|
                *old(self) == #[trigger] after_replies(old(self).places, replies) ==> *final(self)
                    == after_replies(old(self).places, replies.push(found)),
            *final(self) == if old(self).found || old(self).asked >= old(self).places {
                *old(self)
            } else if found {
                InTurn { found: true, ..*old(self) }
            } else {
                InTurn { asked: (old(self).asked + 1) as usize, ..*old(self) }
            },
    {
        let ghost before = *self;
        if !self.found && self.asked < self.places {
            if found {
                self.found = true;
            } else {
                self.asked = self.asked + 1;
            }
        }
        proof {
            assert forall|replies: Seq<bool>|
                before == #[trigger] after_replies(before.places, replies) implies *self
                == after_replies(before.places, replies.push(found)) by {
                assert(replies.push(found).drop_last() =~= replies);
            }
        }
    }
}

/// Places are asked in order, each at most once, until one answers: as long as none of the
/// replies so far was that it had it, the one asked next is the one after them, and once one had
/// it no other is asked.
pub proof fn the_first_to_answer_settles_it(places: usize, replies: Seq<bool>)
    requires
        replies.len() <= places,
    ensures
        ({
            let turn = after_replies(places, replies);
            &&& turn.places == places
            &&& turn.found <==> replies.contains(true)
            &&& turn.found ==> turn.asked < replies.len() && replies[turn.asked as int] && forall|
                i: int,
            |
                0 <= i < turn.asked ==> !(#[trigger] replies[i])
            &&& !turn.found ==> turn.asked == replies.len()
        }),
    decreases replies.len(),
{
    if replies.len() > 0 {
        let earlier = replies.drop_last();
        the_first_to_answer_settles_it(places, earlier);
        let before = after_replies(places, earlier);
        assert forall|i: int| 0 <= i < earlier.len() implies earlier[i] == replies[i] by {}
        if before.found {
            assert(replies[before.asked as int]);
        } else {
            assert forall|i: int| 0 <= i < earlier.len() implies !(#[trigger] replies[i]) by {
                assert(earlier[i] == replies[i]);
                if earlier[i] {
                    assert(earlier.contains(true));
                }
            }
            if replies.last() {
                assert(replies[replies.len() - 1]);
            }
        }
    }
}

/// Matching a track onto another service binds one of the copies tried, one that carries the
/// track's ISRC, or none; and where none will do, nothing is written.
pub proof fn matching_binds_one_copy_or_nothing(
    model: StoreModel,
    track: EntityId,
    copies: Seq<SourceTrackView>,
    order: Seq<Rank>,
    ids: Seq<Seq<EntityId>>,
    now: i64,
    k: int,
)
    requires
        0 <= k,
        forall|i: int| 0 <= i < order.len() ==> (#[trigger] order[i]).row < copies.len(),
        bound_to_first(model, track, copies, order, ids, now, k) is Ok,
    ensures
        ({
            let (after, source) = bound_to_first(
                model,
                track,
                copies,
                order,
                ids,
                now,
                k,
            )->Ok_0;
            &&& source is None ==> after == model
            &&& source is Some ==> after.bound(EntityKind::Track, source->0) == Some(track)
                && exists|row: int|
                0 <= row < copies.len() && source->0 == (#[trigger] copies[row]).source
                    && is_the_recording(model.track(track)->0, copies[row])
        }),
    decreases order.len() - k,
{
    if k < order.len() {
        let row = order[k].row as int;
        a_match_binds_only_the_named_recording(model, track, copies[row], ids[row], now);
        let (after, bound) = isrc_bound(model, track, copies[row], ids[row], now)->Ok_0;
        if !bound {
            matching_binds_one_copy_or_nothing(after, track, copies, order, ids, now, k + 1);
        }
    }
}

/// The copies are tried closest in length first.
pub proof fn copies_are_tried_closest_first(
    copies: Seq<SourceTrackView>,
    want: u64,
    i: int,
    j: int,
)
    requires
        copies.len() <= usize::MAX,
        0 <= i < j < closest_first(copies, Some(want)).len(),
    ensures
        ({
            let order = closest_first(copies, Some(want));
            distance(copies[order[i].row as int].duration_ms, want) <= distance(
                copies[order[j].row as int].duration_ms,
                want,
            )
        }),
{
    broadcast use vstd::seq_lib::group_to_multiset_ensures;

    let unsorted = Seq::new(copies.len(), |i: int| closeness(copies, Some(want), i));
    let order = closest_first(copies, Some(want));
    in_order_is_sorted(unsorted);
    assert(order.to_multiset().count(order[i]) > 0 && order.to_multiset().count(order[j]) > 0);
    assert(unsorted.contains(order[i]) && unsorted.contains(order[j]));
    let a = choose|a: int| 0 <= a < unsorted.len() && unsorted[a] == order[i];
    let b = choose|b: int| 0 <= b < unsorted.len() && unsorted[b] == order[j];
    assert(order[i] == closeness(copies, Some(want), a));
    assert(order[j] == closeness(copies, Some(want), b));
    assert(!order[j].before(order[i]));
}

/// Every copy is tried at some point.
pub proof fn a_copy_is_tried(copies: Seq<SourceTrackView>, want: Option<u64>, row: int) -> (k: int)
    requires
        0 <= row < copies.len() <= usize::MAX,
    ensures
        0 <= k < closest_first(copies, want).len(),
        closest_first(copies, want)[k].row == row,
{
    let unsorted = Seq::new(copies.len(), |i: int| closeness(copies, want, i));
    let order = closest_first(copies, want);
    in_order_holds_the_same(unsorted);
    assert(unsorted.contains(unsorted[row]));
    assert(order.contains(unsorted[row]));
    choose|k: int| 0 <= k < order.len() && order[k] == unsorted[row]
}

/// As many copies are tried as there are, and none twice.
pub proof fn every_copy_is_tried_once(copies: Seq<SourceTrackView>, want: Option<u64>)
    requires
        copies.len() <= usize::MAX,
    ensures
        closest_first(copies, want).len() == copies.len(),
        forall|k: int|
            0 <= k < copies.len() ==> (#[trigger] closest_first(copies, want)[k]).row
                < copies.len(),
        forall|k: int, l: int|
            0 <= k < l < copies.len() ==> (#[trigger] closest_first(copies, want)[k]).row != (
            #[trigger] closest_first(copies, want)[l]).row,
{
    let unsorted = Seq::new(copies.len(), |i: int| closeness(copies, want, i));
    let order = closest_first(copies, want);
    in_order_holds_the_same(unsorted);
    assert forall|k: int| 0 <= k < order.len() implies (#[trigger] order[k]).row
        < copies.len() by {
        assert(order.contains(order[k]));
        let a = choose|a: int| 0 <= a < unsorted.len() && unsorted[a] == order[k];
        assert(unsorted[a].row == a);
    }
    assert forall|i: int, j: int| 0 <= i < j < unsorted.len() implies (#[trigger] unsorted[i]).row
        != (#[trigger] unsorted[j]).row by {
        assert(unsorted[i].row == i && unsorted[j].row == j);
    }
    assert(order == in_order(unsorted));
    assert forall|k: int, l: int| 0 <= k < l < order.len() implies (#[trigger] order[k]).row != (
    #[trigger] order[l]).row by {
        assert(in_order(unsorted)[k].row != in_order(unsorted)[l].row);
    }
}

/// Of two copies of known length, the one tried first differs less, or as much, in length from
/// what is wanted; where both differ alike, the one listed first is tried first. A copy of unknown
/// length is tried after one of known length, unless that one is as far off as can be.
pub proof fn copies_are_tried_by_how_little_they_differ(
    copies: Seq<SourceTrackView>,
    want: u64,
    i: int,
    j: int,
)
    requires
        copies.len() <= usize::MAX,
        0 <= i < j < copies.len(),
    ensures
        ({
            let order = closest_first(copies, Some(want));
            let (r, s) = (order[i].row as int, order[j].row as int);
            let (a, b) = (copies[r].duration_ms, copies[s].duration_ms);
            &&& a is Some && b is Some ==> {
                let first = a->0 as int - want as int;
                let second = b->0 as int - want as int;
                let off = if first < 0 {
                    -first
                } else {
                    first
                };
                let further = if second < 0 {
                    -second
                } else {
                    second
                };
                off <= further && (off == further ==> r < s)
            }
            &&& a is None && b is Some ==> (b->0 as int - want as int == u64::MAX || want as int
                - b->0 as int == u64::MAX)
            &&& a is None && b is None ==> r < s
        }),
{
    let unsorted = Seq::new(copies.len(), |i: int| closeness(copies, Some(want), i));
    let order = closest_first(copies, Some(want));
    in_order_is_sorted(unsorted);
    in_order_holds_the_same(unsorted);
    every_copy_is_tried_once(copies, Some(want));
    assert(order.contains(order[i]) && order.contains(order[j]));
    let a = choose|a: int| 0 <= a < unsorted.len() && unsorted[a] == order[i];
    let b = choose|b: int| 0 <= b < unsorted.len() && unsorted[b] == order[j];
    assert(order[i] == closeness(copies, Some(want), a));
    assert(order[j] == closeness(copies, Some(want), b));
    assert(order[i].row != order[j].row);
    assert(!order[j].before(order[i]));
}

/// With no length to go by, the copies are tried as they are listed.
pub proof fn without_a_length_copies_are_tried_as_listed(copies: Seq<SourceTrackView>, i: int, j: int)
    requires
        copies.len() <= usize::MAX,
        0 <= i < j < copies.len(),
    ensures
        closest_first(copies, None)[i].row < closest_first(copies, None)[j].row,
{
    let unsorted = Seq::new(copies.len(), |i: int| closeness(copies, None, i));
    let order = closest_first(copies, None);
    in_order_is_sorted(unsorted);
    in_order_holds_the_same(unsorted);
    every_copy_is_tried_once(copies, None);
    assert(order.contains(order[i]) && order.contains(order[j]));
    let a = choose|a: int| 0 <= a < unsorted.len() && unsorted[a] == order[i];
    let b = choose|b: int| 0 <= b < unsorted.len() && unsorted[b] == order[j];
    assert(order[i] == closeness(copies, None, a));
    assert(order[j] == closeness(copies, None, b));
    assert(order[i].row != order[j].row);
    assert(!order[j].before(order[i]));
}

/// A copy that carries one of the track's ISRCs and is nobody's yet.
pub open spec fn is_free_copy(model: StoreModel, track: EntityId, copy: SourceTrackView) -> bool {
    &&& model.track(track) is Some
    &&& copy.isrc is Some
    &&& model.track(track)->0.isrcs.contains(copy.isrc->0)
    &&& model.bound(EntityKind::Track, copy.source) is None
}

proof fn a_free_copy_is_not_passed_over(
    model: StoreModel,
    track: EntityId,
    copy: SourceTrackView,
    ids: Seq<EntityId>,
    now: i64,
)
    requires
        is_free_copy(model, track, copy),
    ensures
        isrc_bound(model, track, copy, ids, now) is Ok ==> isrc_bound(
            model,
            track,
            copy,
            ids,
            now,
        )->Ok_0.1,
{
    let known = model.track(track)->0;
    let i = choose|i: int| 0 <= i < known.isrcs.len() && known.isrcs[i] == copy.isrc->0;
    assert(crate::ingest::same_but_case(known.isrcs[i], copy.isrc->0));
    assert(is_the_recording(known, copy));
}

/// Trying goes on past a copy only where it will not do, and leaves everything as it was.
proof fn trying_stops_at_the_first_that_will_do(
    model: StoreModel,
    track: EntityId,
    copies: Seq<SourceTrackView>,
    order: Seq<Rank>,
    ids: Seq<Seq<EntityId>>,
    now: i64,
    k: int,
)
    requires
        0 <= k <= order.len(),
        bound_to_first(model, track, copies, order, ids, now, k) is Ok,
    ensures
        ({
            let (after, source) = bound_to_first(
                model,
                track,
                copies,
                order,
                ids,
                now,
                k,
            )->Ok_0;
            match source {
                Some(source) => exists|m: int|
                    #![trigger order[m]]
                    k <= m < order.len() && copies[order[m].row as int].source == source && (
                    forall|l: int|
                        k <= l < m ==> !is_free_copy(
                            model,
                            track,
                            copies[(#[trigger] order[l]).row as int],
                        )),
                None => forall|l: int|
                    k <= l < order.len() ==> !is_free_copy(
                        model,
                        track,
                        copies[(#[trigger] order[l]).row as int],
                    ),
            }
        }),
    decreases order.len() - k,
{
    if k < order.len() {
        let row = order[k].row as int;
        a_match_binds_only_the_named_recording(model, track, copies[row], ids[row], now);
        let (after, bound) = isrc_bound(model, track, copies[row], ids[row], now)->Ok_0;
        if bound {
            assert(copies[order[k].row as int].source == copies[row].source);
        } else {
            if is_free_copy(model, track, copies[row]) {
                a_free_copy_is_not_passed_over(model, track, copies[row], ids[row], now);
            }
            trying_stops_at_the_first_that_will_do(
                after,
                track,
                copies,
                order,
                ids,
                now,
                k + 1,
            );
            let source = bound_to_first(model, track, copies, order, ids, now, k)->Ok_0.1;
            if source is Some {
                let m = choose|m: int|
                    #![trigger order[m]]
                    k + 1 <= m < order.len() && copies[order[m].row as int].source == source->0 && (
                    forall|l: int|
                        k + 1 <= l < m ==> !is_free_copy(
                            model,
                            track,
                            copies[(#[trigger] order[l]).row as int],
                        ));
                assert(order[m] == order[m]);
            }
        }
    }
}

/// A track is bound to a copy that is at least as close in length as every copy it could have been
/// bound to; and where there is one it could be bound to, it is bound to one.
pub proof fn the_copy_bound_is_the_closest_there_is(
    model: StoreModel,
    track: EntityId,
    want: u64,
    copies: Seq<SourceTrackView>,
    ids: Seq<Seq<EntityId>>,
    now: i64,
    other: int,
)
    requires
        copies.len() <= usize::MAX,
        0 <= other < copies.len(),
        model.track(track) is Some,
        copies[other].isrc is Some,
        model.track(track)->0.isrcs.contains(copies[other].isrc->0),
        model.bound(EntityKind::Track, copies[other].source) is None,
        bound_to_first(
            model,
            track,
            copies,
            closest_first(copies, Some(want)),
            ids,
            now,
            0,
        ) is Ok,
    ensures
        ({
            let (after, source) = bound_to_first(
                model,
                track,
                copies,
                closest_first(copies, Some(want)),
                ids,
                now,
                0,
            )->Ok_0;
            &&& source is Some
            &&& after.bound(EntityKind::Track, source->0) == Some(track)
            &&& exists|row: int|
                #![trigger copies[row]]
                {
                    &&& 0 <= row < copies.len()
                    &&& copies[row].source == source->0
                    &&& copies[row].duration_ms is Some && copies[other].duration_ms is Some ==> {
                        let off = copies[row].duration_ms->0 as int - want as int;
                        let further = copies[other].duration_ms->0 as int - want as int;
                        (if off < 0 {
                            -off
                        } else {
                            off
                        }) <= (if further < 0 {
                            -further
                        } else {
                            further
                        })
                    }
                }
        }),
{
    let order = closest_first(copies, Some(want));
    every_copy_is_tried_once(copies, Some(want));
    let at = a_copy_is_tried(copies, Some(want), other);
    assert(is_free_copy(model, track, copies[order[at].row as int]));
    trying_stops_at_the_first_that_will_do(model, track, copies, order, ids, now, 0);
    matching_binds_one_copy_or_nothing(model, track, copies, order, ids, now, 0);
    let source = bound_to_first(model, track, copies, order, ids, now, 0)->Ok_0.1;
    let m = choose|m: int|
        #![trigger order[m]]
        0 <= m < order.len() && copies[order[m].row as int].source == source->0 && (forall|l: int|
            0 <= l < m ==> !is_free_copy(model, track, copies[(#[trigger] order[l]).row as int]));
    assert(m <= at);
    if m < at {
        copies_are_tried_by_how_little_they_differ(copies, want, m, at);
    }
    let row = order[m].row as int;
    assert(copies[row].source == source->0);
}

/// What matching a track onto a service comes to: a copy it is already bound to there is taken;
/// otherwise its own ISRCs are looked up, and its own length is what is wanted.
pub proof fn a_match_goes_by_the_tracks_own_isrcs(
    model: StoreModel,
    sources: SourcesModel,
    track: EntityId,
    service: Service,
)
    ensures
        match match_plan(model, sources, track, service) {
            Ok(MatchPlanView::Bound(source)) => {
                &&& source.service() == service
                &&& model.sources_of(track).contains(source)
            },
            Ok(MatchPlanView::NoIsrc) => {
                &&& model.track(track) is Some
                &&& model.track(track)->0.isrcs.len() == 0
            },
            Ok(MatchPlanView::Look { isrcs, want }) => {
                &&& model.track(track) is Some
                &&& isrcs == model.track(track)->0.isrcs
                &&& isrcs.len() > 0
                &&& want == model.track(track)->0.duration_ms
                &&& forall|i: int|
                    0 <= i < model.sources_of(track).len() ==> (
                    #[trigger] model.sources_of(track)[i]).service() != service
            },
            Err(_) => model.track(track) is None || !sources.browses(service),
        },
{
    let all = model.sources_of(track);
    let p = is_on(service);
    first_at_matches(all, p);
    if let Some(i) = first_at(all, p) {
        assert(p(all[i]));
        assert(all.contains(all[i]));
    } else {
        assert forall|i: int| 0 <= i < all.len() implies (#[trigger] all[i]).service()
            != service by {
            assert(!p(all[i]));
        }
    }
}

/// A track that plays as it is stays as it is; one that does not becomes what it was matched to, if
/// it was matched to anything. Either way it takes its own place in the queue.
pub proof fn a_track_is_matched_only_to_be_played(
    sources: SourcesModel,
    tried: Seq<(EntityId, Option<TrackRefView>)>,
    track: TrackRefView,
    at: int,
)
    requires
        0 <= at < tried.len(),
        tried[at].0 == track.id,
        forall|i: int| 0 <= i < at ==> (#[trigger] tried[i]).0 != track.id,
    ensures
        sources.plays_from(track.sources) is Some ==> made_playable(sources, tried, track) == track,
        sources.plays_from(track.sources) is None && match_targets(sources).len() > 0 ==> (
        made_playable(sources, tried, track) == match tried[at].1 {
            Some(matched) => matched,
            None => track,
        }),
{
    found_first(tried, asked(track.id), at);
}

} // verus!
