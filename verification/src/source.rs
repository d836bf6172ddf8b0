//! Which services can be played from and browsed, and the policy for choosing among a track's
//! bindings.

use vstd::prelude::*;
use vstd::string::*;

use crate::error::{Error, ErrorView, Result};
use crate::id::{sources_view, Service, SourceRef, SourceView};
use crate::rows::{keeping, keeping_keeps_the_matches, keeping_keeps_the_order};
use crate::text::{concat, join, joined, texts};
use crate::track::{TrackRef, TrackRefView};

verus! {

/// Every service with a source that can open its bindings, and every service with a catalog that
/// can be browsed, each in the order registered.
#[derive(Debug, PartialEq, Eq)]
pub struct Sources {
    pub playing: Vec<Service>,
    pub browsing: Vec<Service>,
}

/// The services registered in a [`Sources`].
#[verifier::ext_equal]
pub struct SourcesModel {
    pub playing: Seq<Service>,
    pub browsing: Seq<Service>,
}

impl View for Sources {
    type V = SourcesModel;

    open spec fn view(&self) -> SourcesModel {
        SourcesModel { playing: self.playing@, browsing: self.browsing@ }
    }
}

impl Default for Sources {
    fn default() -> (sources: Self)
        ensures
            sources@ == (SourcesModel { playing: Seq::empty(), browsing: Seq::empty() }),
    {
        Sources::new()
    }
}

/// `all` with `service` registered.
pub open spec fn registered(all: Seq<Service>, service: Service) -> Seq<Service> {
    if all.contains(service) {
        all
    } else {
        all.push(service)
    }
}

/// A file on this machine, on a service `playing` holds.
pub open spec fn plays_locally(playing: Seq<Service>) -> spec_fn(SourceView) -> bool {
    |s: SourceView| s.service() == Service::Local && playing.contains(s.service())
}

/// A binding on a streaming service `playing` holds.
pub open spec fn plays_remotely(playing: Seq<Service>) -> spec_fn(SourceView) -> bool {
    |s: SourceView| s.service() != Service::Local && playing.contains(s.service())
}

pub open spec fn is_local() -> spec_fn(Service) -> bool {
    |s: Service| s == Service::Local
}

pub open spec fn is_remote() -> spec_fn(Service) -> bool {
    |s: Service| s != Service::Local
}

impl SourcesModel {
    /// Whether a source can open bindings on `service`.
    pub open spec fn plays(self, service: Service) -> bool {
        self.playing.contains(service)
    }

    /// Whether `service` can be browsed.
    pub open spec fn browses(self, service: Service) -> bool {
        self.browsing.contains(service)
    }

    /// The bindings that can be opened, in the order to try them: local files before any
    /// streaming service (they need no network and no account), and otherwise in the order
    /// listed.
    pub open spec fn candidates(self, bindings: Seq<SourceView>) -> Seq<SourceView> {
        keeping(bindings, plays_locally(self.playing)) + keeping(
            bindings,
            plays_remotely(self.playing),
        )
    }

    /// The service a track with these bindings plays from.
    pub open spec fn plays_from(self, bindings: Seq<SourceView>) -> Option<Service> {
        if self.candidates(bindings).len() > 0 {
            Some(self.candidates(bindings)[0].service())
        } else {
            None
        }
    }

    /// The services that can be played from, in the order to prefer them.
    pub open spec fn streaming(self) -> Seq<Service> {
        keeping(self.playing, is_local()) + keeping(self.playing, is_remote())
    }
}

/// There is no browsing `service`.
pub open spec fn not_browsable(service: Service) -> ErrorView {
    ErrorView::Unsupported(service.name() + " can't be browsed"@)
}

/// There is no source for `service`.
pub open spec fn no_source(service: Service) -> ErrorView {
    ErrorView::Source("no "@ + service.name() + " source is available"@)
}

/// The names of the services of several bindings.
pub open spec fn service_names(bindings: Seq<SourceView>) -> Seq<Seq<char>> {
    bindings.map_values(|s: SourceView| s.service().name())
}

/// What several failures say, each under the service it came from.
pub open spec fn failure_lines(failures: Seq<(Service, Error)>) -> Seq<Seq<char>> {
    failures.map_values(|f: (Service, Error)| f.0.name() + ": "@ + f.1@.message())
}

/// Why nothing played. One failure is kept as it was, so its kind (an expired login, say)
/// survives; several are summarised together.
pub open spec fn unplayable_error(
    track: TrackRefView,
    failures: Seq<(Service, Error)>,
) -> ErrorView {
    if failures.len() == 1 {
        failures[0].1@
    } else if failures.len() == 0 {
        ErrorView::Source(
            "no source can play this track (bindings: "@ + if track.sources.len() == 0 {
                "none"@
            } else {
                joined(service_names(track.sources), ", "@)
            } + ")"@,
        )
    } else {
        ErrorView::Source(joined(failure_lines(failures), "; "@))
    }
}

fn is_among(all: &Vec<Service>, service: Service) -> (r: bool)
    ensures
        r == all@.contains(service),
{
    let mut i: usize = 0;
    while i < all.len()
        invariant
            i <= all@.len(),
            forall|k: int| 0 <= k < i ==> all@[k] != service,
        decreases all.len() - i,
    {
        if all[i] == service {
            assert(all@[i as int] == service);
            return true;
        }
        i = i + 1;
    }
    false
}

fn copy_services(all: &Vec<Service>) -> (copy: Vec<Service>)
    ensures
        copy@ == all@,
{
    let mut copy: Vec<Service> = Vec::new();
    let mut i: usize = 0;
    while i < all.len()
        invariant
            i <= all@.len(),
            copy@ == all@.take(i as int),
        decreases all.len() - i,
    {
        copy.push(all[i]);
        assert(all@.take(i + 1) =~= all@.take(i as int).push(all@[i as int]));
        i = i + 1;
    }
    assert(all@.take(i as int) =~= all@);
    copy
}

impl Clone for Sources {
    fn clone(&self) -> (copy: Self)
        ensures
            copy@ == self@,
    {
        Sources {
            playing: copy_services(&self.playing),
            browsing: copy_services(&self.browsing),
        }
    }
}

impl Sources {
    /// Nothing registered.
    pub fn new() -> (sources: Self)
        ensures
            sources@ == (SourcesModel { playing: Seq::empty(), browsing: Seq::empty() }),
    {
        Sources { playing: Vec::new(), browsing: Vec::new() }
    }

    /// Register a source for `service`, replacing any earlier one.
    pub fn with(self, service: Service) -> (sources: Self)
        ensures
            sources@ == (SourcesModel { playing: registered(self@.playing, service), ..self@ }),
    {
        let mut sources = self;
        if !is_among(&sources.playing, service) {
            sources.playing.push(service);
        }
        sources
    }

    /// Register a catalog for `service`, replacing any earlier one.
    pub fn with_catalog(self, service: Service) -> (sources: Self)
        ensures
            sources@ == (SourcesModel { browsing: registered(self@.browsing, service), ..self@ }),
    {
        let mut sources = self;
        if !is_among(&sources.browsing, service) {
            sources.browsing.push(service);
        }
        sources
    }

    /// Whether a source can open bindings on `service`.
    pub fn plays(&self, service: Service) -> (r: bool)
        ensures
            r == self@.plays(service),
    {
        is_among(&self.playing, service)
    }

    /// Whether `service` can be browsed.
    pub fn browses(&self, service: Service) -> (r: bool)
        ensures
            r == self@.browses(service),
    {
        is_among(&self.browsing, service)
    }

    /// That `service` has a catalog to ask.
    pub fn catalog(&self, service: Service) -> (there: Result<()>)
        ensures
            match there {
                Ok(_) => self@.browses(service),
                Err(e) => !self@.browses(service) && e@ == not_browsable(service),
            },
    {
        if is_among(&self.browsing, service) {
            Ok(())
        } else {
            Err(Error::Unsupported(concat(service.as_str(), " can't be browsed")))
        }
    }

    /// That the service behind `binding` has a source to ask what it says about it.
    pub fn describe(&self, binding: &SourceRef) -> (there: Result<()>)
        ensures
            match there {
                Ok(_) => self@.plays(binding@.service()),
                Err(e) => !self@.plays(binding@.service()) && e@ == no_source(binding@.service()),
            },
    {
        let service = binding.service();
        if is_among(&self.playing, service) {
            Ok(())
        } else {
            let mut text = concat("no ", service.as_str());
            text.append(" source is available");
            Err(Error::Source(text))
        }
    }

    /// The bindings that can be opened, in the order to try them: local files before any
    /// streaming service, and otherwise in the order listed.
    pub fn candidates(&self, bindings: &Vec<SourceRef>) -> (chosen: Vec<SourceRef>)
        ensures
            sources_view(chosen@) == self@.candidates(sources_view(bindings@)),
    {
        let mut local: Vec<SourceRef> = Vec::new();
        let mut remote: Vec<SourceRef> = Vec::new();
        let mut i: usize = 0;
        while i < bindings.len()
            invariant
                i <= bindings@.len(),
                sources_view(local@) == keeping(
                    sources_view(bindings@.take(i as int)),
                    plays_locally(self@.playing),
                ),
                sources_view(remote@) == keeping(
                    sources_view(bindings@.take(i as int)),
                    plays_remotely(self@.playing),
                ),
            decreases bindings.len() - i,
        {
            let ghost upto = sources_view(bindings@.take(i + 1));
            assert(upto.drop_last() =~= sources_view(bindings@.take(i as int)));
            assert(upto.last() == bindings@[i as int]@);
            let ghost locals = local@;
            let ghost remotes = remote@;
            let service = bindings[i].service();
            if is_among(&self.playing, service) {
                if service == Service::Local {
                    local.push(bindings[i].clone());
                    assert(sources_view(local@) =~= sources_view(locals).push(upto.last()));
                } else {
                    remote.push(bindings[i].clone());
                    assert(sources_view(remote@) =~= sources_view(remotes).push(upto.last()));
                }
            }
            i = i + 1;
        }
        assert(bindings@.take(i as int) =~= bindings@);
        let ghost locals = local@;
        let ghost remotes = remote@;
        local.append(&mut remote);
        assert(sources_view(local@) =~= sources_view(locals) + sources_view(remotes));
        local
    }

    /// The service a track with these bindings plays from, if it plays at all.
    pub fn plays_from(&self, bindings: &Vec<SourceRef>) -> (service: Option<Service>)
        ensures
            service == self@.plays_from(sources_view(bindings@)),
    {
        let chosen = self.candidates(bindings);
        if chosen.len() > 0 {
            assert(sources_view(chosen@)[0] == chosen@[0]@);
            Some(chosen[0].service())
        } else {
            None
        }
    }

    /// The services that can be played from, in the order to prefer them.
    pub fn streaming_services(&self) -> (services: Vec<Service>)
        ensures
            services@ == self@.streaming(),
    {
        let mut local: Vec<Service> = Vec::new();
        let mut remote: Vec<Service> = Vec::new();
        let mut i: usize = 0;
        while i < self.playing.len()
            invariant
                i <= self.playing@.len(),
                local@ == keeping(self.playing@.take(i as int), is_local()),
                remote@ == keeping(self.playing@.take(i as int), is_remote()),
            decreases self.playing.len() - i,
        {
            assert(self.playing@.take(i + 1).drop_last() =~= self.playing@.take(i as int));
            let service = self.playing[i];
            if service == Service::Local {
                local.push(service);
            } else {
                remote.push(service);
            }
            i = i + 1;
        }
        assert(self.playing@.take(i as int) =~= self.playing@);
        local.append(&mut remote);
        local
    }

    /// Why nothing played.
    pub fn unplayable(track: &TrackRef, failures: &Vec<(Service, Error)>) -> (e: Error)
        ensures
            e@ == unplayable_error(track@, failures@),
    {
        if failures.len() == 1 {
            return failures[0].1.clone();
        }
        if failures.len() == 0 {
            let mut names: Vec<String> = Vec::new();
            let mut i: usize = 0;
            while i < track.sources.len()
                invariant
                    i <= track.sources@.len(),
                    names@.len() == i,
                    forall|k: int|
                        0 <= k < i ==> (#[trigger] names@[k])@
                            == track.sources@[k]@.service().name(),
                decreases track.sources.len() - i,
            {
                names.push(track.sources[i].service().as_str().to_owned());
                i = i + 1;
            }
            assert(texts(names@) =~= service_names(track@.sources));
            let listed: String = if names.len() == 0 {
                "none".to_owned()
            } else {
                join(&names, ", ")
            };
            let mut text = concat("no source can play this track (bindings: ", listed.as_str());
            text.append(")");
            return Error::Source(text);
        }
        let mut lines: Vec<String> = Vec::new();
        let mut i: usize = 0;
        while i < failures.len()
            invariant
                i <= failures@.len(),
                lines@.len() == i,
                forall|k: int|
                    0 <= k < i ==> (#[trigger] lines@[k])@ == failures@[k].0.name() + ": "@
                        + failures@[k].1@.message(),
            decreases failures.len() - i,
        {
            let mut line = concat(failures[i].0.as_str(), ": ");
            line.append(failures[i].1.message().as_str());
            lines.push(line);
            i = i + 1;
        }
        assert(texts(lines@) =~= failure_lines(failures@));
        Error::Source(join(&lines, "; "))
    }
}

/// Working through a track's bindings until one opens.
#[derive(Debug, PartialEq, Eq)]
pub struct Attempts {
    pub track: TrackRef,
    /// The bindings to try, in order.
    pub candidates: Vec<SourceRef>,
    /// How each of those tried so far failed.
    pub failures: Vec<(Service, Error)>,
}

/// What to do next.
#[derive(Debug, PartialEq, Eq)]
pub enum Attempt {
    /// Try this binding.
    Try(SourceRef),
    /// Nothing is left to try.
    GiveUp(Error),
}

impl Attempts {
    /// Each failure belongs to the binding tried in its place.
    pub open spec fn wf(self) -> bool {
        &&& self.failures@.len() <= self.candidates@.len()
        &&& forall|i: int|
            0 <= i < self.failures@.len() ==> (#[trigger] self.failures@[i]).0
                == self.candidates@[i]@.service()
    }

    /// Nothing tried yet.
    pub fn new(sources: &Sources, track: &TrackRef) -> (attempts: Self)
        ensures
            attempts.wf(),
            attempts.track@ == track@,
            sources_view(attempts.candidates@) == sources@.candidates(track@.sources),
            attempts.failures@.len() == 0,
    {
        Attempts {
            track: track.clone(),
            candidates: sources.candidates(&track.sources),
            failures: Vec::new(),
        }
    }

    /// What to do next: the first binding not tried yet, or why nothing played.
    pub fn next(&self) -> (next: Attempt)
        requires
            self.wf(),
        ensures
            match next {
                Attempt::Try(source) => self.failures@.len() < self.candidates@.len() && source
                    == self.candidates@[self.failures@.len() as int],
                Attempt::GiveUp(e) => self.failures@.len() == self.candidates@.len() && e@
                    == unplayable_error(self.track@, self.failures@),
            },
    {
        if self.failures.len() < self.candidates.len() {
            Attempt::Try(self.candidates[self.failures.len()].clone())
        } else {
            Attempt::GiveUp(Sources::unplayable(&self.track, &self.failures))
        }
    }

    /// The binding being tried failed.
    pub fn failed(&mut self, e: Error)
        requires
            old(self).wf(),
            old(self).failures@.len() < old(self).candidates@.len(),
        ensures
            final(self).wf(),
            final(self).track == old(self).track,
            final(self).candidates == old(self).candidates,
            final(self).failures@ == old(self).failures@.push(
                (old(self).candidates@[old(self).failures@.len() as int]@.service(), e),
            ),
    {
        let service = self.candidates[self.failures.len()].service();
        self.failures.push((service, e));
    }
}

/// A local file is preferred over streaming, whatever the order listed.
pub proof fn a_local_file_is_preferred(
    sources: SourcesModel,
    bindings: Seq<SourceView>,
    local: SourceView,
)
    requires
        bindings.contains(local),
        local.service() == Service::Local,
        sources.plays(Service::Local),
    ensures
        sources.candidates(bindings).len() > 0,
        sources.candidates(bindings)[0].service() == Service::Local,
        sources.plays_from(bindings) == Some(Service::Local),
{
    let p = plays_locally(sources.playing);
    keeping_keeps_the_matches(bindings, p);
    let i = choose|i: int| 0 <= i < bindings.len() && bindings[i] == local;
    assert(p(bindings[i]));
    assert(keeping(bindings, p).contains(local));
    assert(p(keeping(bindings, p)[0]));
}

/// Only bindings the track has, on services with a source, are ever tried; and every such binding
/// is.
pub proof fn candidates_are_the_playable_bindings(
    sources: SourcesModel,
    bindings: Seq<SourceView>,
    s: SourceView,
)
    ensures
        sources.candidates(bindings).contains(s) <==> bindings.contains(s) && sources.plays(
            s.service(),
        ),
{
    let p = plays_locally(sources.playing);
    let q = plays_remotely(sources.playing);
    keeping_keeps_the_matches(bindings, p);
    keeping_keeps_the_matches(bindings, q);
    let near = keeping(bindings, p);
    let far = keeping(bindings, q);
    let all = sources.candidates(bindings);
    if all.contains(s) {
        let k = choose|k: int| 0 <= k < all.len() && all[k] == s;
        if k < near.len() {
            assert(p(near[k]) && bindings.contains(near[k]));
        } else {
            assert(q(far[k - near.len()]) && bindings.contains(far[k - near.len()]));
        }
    }
    if bindings.contains(s) && sources.plays(s.service()) {
        let i = choose|i: int| 0 <= i < bindings.len() && bindings[i] == s;
        if s.service() == Service::Local {
            assert(p(bindings[i]));
            let k = choose|k: int| 0 <= k < near.len() && near[k] == s;
            assert(all[k] == s);
        } else {
            assert(q(bindings[i]));
            let k = choose|k: int| 0 <= k < far.len() && far[k] == s;
            assert(all[near.len() + k] == s);
        }
    }
}

/// A track plays from somewhere exactly where one of its bindings can be opened.
pub proof fn a_track_plays_where_a_binding_opens(sources: SourcesModel, bindings: Seq<SourceView>)
    ensures
        sources.plays_from(bindings) is Some <==> exists|i: int|
            0 <= i < bindings.len() && sources.plays((#[trigger] bindings[i]).service()),
{
    let all = sources.candidates(bindings);
    if all.len() > 0 {
        candidates_are_the_playable_bindings(sources, bindings, all[0]);
        assert(all.contains(all[0]));
        let i = choose|i: int| 0 <= i < bindings.len() && bindings[i] == all[0];
        assert(sources.plays(bindings[i].service()));
    }
    if exists|i: int|
        0 <= i < bindings.len() && sources.plays((#[trigger] bindings[i]).service()) {
        let i = choose|i: int|
            0 <= i < bindings.len() && sources.plays((#[trigger] bindings[i]).service());
        candidates_are_the_playable_bindings(sources, bindings, bindings[i]);
        assert(all.contains(bindings[i]));
    }
}

/// A track's own files are tried before anything that streams, and otherwise its bindings are
/// tried in the order they are listed.
pub proof fn bindings_are_tried_in_order(
    sources: SourcesModel,
    bindings: Seq<SourceView>,
    i: int,
    j: int,
) -> (was: (int, int))
    requires
        0 <= i < j < sources.candidates(bindings).len(),
    ensures
        ({
            let tried = sources.candidates(bindings);
            let (a, b) = was;
            &&& 0 <= a < bindings.len() && 0 <= b < bindings.len()
            &&& bindings[a] == tried[i] && bindings[b] == tried[j]
            &&& tried[j].service() == Service::Local ==> tried[i].service() == Service::Local
            &&& (tried[i].service() == Service::Local) == (tried[j].service() == Service::Local)
                ==> a < b
        }),
{
    let local = keeping(bindings, plays_locally(sources.playing));
    let remote = keeping(bindings, plays_remotely(sources.playing));
    let n = local.len() as int;
    keeping_keeps_the_matches(bindings, plays_locally(sources.playing));
    keeping_keeps_the_matches(bindings, plays_remotely(sources.playing));
    if j < n {
        keeping_keeps_the_order(bindings, plays_locally(sources.playing), i, j)
    } else if i >= n {
        assert(plays_remotely(sources.playing)(remote[i - n]));
        assert(plays_remotely(sources.playing)(remote[j - n]));
        keeping_keeps_the_order(bindings, plays_remotely(sources.playing), i - n, j - n)
    } else {
        assert(plays_locally(sources.playing)(local[i]));
        assert(plays_remotely(sources.playing)(remote[j - n]));
        assert(bindings.contains(local[i]) && bindings.contains(remote[j - n]));
        let a = choose|a: int| 0 <= a < bindings.len() && bindings[a] == local[i];
        let b = choose|b: int| 0 <= b < bindings.len() && bindings[b] == remote[j - n];
        (a, b)
    }
}

/// Local files come first among what streams, and the others in the order they were registered.
pub proof fn streaming_services_keep_their_order(sources: SourcesModel, i: int, j: int) -> (was: (
    int,
    int,
))
    requires
        0 <= i < j < sources.streaming().len(),
    ensures
        ({
            let all = sources.streaming();
            let (a, b) = was;
            &&& 0 <= a < sources.playing.len() && 0 <= b < sources.playing.len()
            &&& sources.playing[a] == all[i] && sources.playing[b] == all[j]
            &&& all[j] == Service::Local ==> all[i] == Service::Local
            &&& (all[i] == Service::Local) == (all[j] == Service::Local) ==> a < b
        }),
{
    let local = keeping(sources.playing, is_local());
    let remote = keeping(sources.playing, is_remote());
    let n = local.len() as int;
    keeping_keeps_the_matches(sources.playing, is_local());
    keeping_keeps_the_matches(sources.playing, is_remote());
    if j < n {
        keeping_keeps_the_order(sources.playing, is_local(), i, j)
    } else if i >= n {
        assert(is_remote()(remote[i - n]));
        assert(is_remote()(remote[j - n]));
        keeping_keeps_the_order(sources.playing, is_remote(), i - n, j - n)
    } else {
        assert(is_local()(local[i]));
        assert(is_remote()(remote[j - n]));
        assert(sources.playing.contains(local[i]) && sources.playing.contains(remote[j - n]));
        let a = choose|a: int| 0 <= a < sources.playing.len() && sources.playing[a] == local[i];
        let b = choose|b: int| 0 <= b < sources.playing.len() && sources.playing[b] == remote[j - n];
        (a, b)
    }
}

/// Every service that plays is one to stream from, and no other.
pub proof fn every_playing_service_streams(sources: SourcesModel, service: Service)
    ensures
        sources.streaming().contains(service) <==> sources.playing.contains(service),
{
    let local = keeping(sources.playing, is_local());
    let remote = keeping(sources.playing, is_remote());
    let all = sources.streaming();
    keeping_keeps_the_matches(sources.playing, is_local());
    keeping_keeps_the_matches(sources.playing, is_remote());
    if sources.playing.contains(service) {
        let k = choose|k: int| 0 <= k < sources.playing.len() && sources.playing[k] == service;
        if service == Service::Local {
            assert(is_local()(sources.playing[k]));
            let m = choose|m: int| 0 <= m < local.len() && local[m] == service;
            assert(all[m] == service);
        } else {
            assert(is_remote()(sources.playing[k]));
            let m = choose|m: int| 0 <= m < remote.len() && remote[m] == service;
            assert(all[local.len() + m] == service);
        }
    }
    if all.contains(service) {
        let k = choose|k: int| 0 <= k < all.len() && all[k] == service;
        if k < local.len() {
            assert(sources.playing.contains(local[k]));
        } else {
            assert(sources.playing.contains(remote[k - local.len()]));
        }
    }
}

/// Registering a service puts it among those registered, behind those there were, and never twice.
pub proof fn a_service_is_registered_once(all: Seq<Service>, service: Service, other: Service)
    ensures
        registered(all, service).contains(service),
        other != service ==> (registered(all, service).contains(other) <==> all.contains(other)),
        all.contains(service) ==> registered(all, service) == all,
        !all.contains(service) ==> registered(all, service).len() == all.len() + 1,
        all.no_duplicates() ==> registered(all, service).no_duplicates(),
        forall|k: int| 0 <= k < all.len() ==> #[trigger] registered(all, service)[k] == all[k],
{
    let after = registered(all, service);
    if !all.contains(service) {
        assert(after[all.len() as int] == service);
    }
    if all.contains(other) {
        let k = choose|k: int| 0 <= k < all.len() && all[k] == other;
        assert(after[k] == other);
    }
}

/// A track that the only place it could play from failed on fails as that place did; one that
/// could play nowhere is a source failure.
pub proof fn a_single_failure_is_passed_on(track: TrackRefView, failures: Seq<(Service, Error)>)
    ensures
        failures.len() == 1 ==> unplayable_error(track, failures) == failures[0].1@,
        failures.len() != 1 ==> unplayable_error(track, failures) is Source,
{
}

} // verus!
