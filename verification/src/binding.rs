//! Bindings: which entity a service's key names, and how much to trust it.

use vstd::prelude::*;
use vstd::string::*;

use crate::error::{Error, ErrorView, Result};
use crate::id::{sources_view, uuid_text, EntityId, LocalPath, Service, SourceRef, SourceView};
use crate::model::{Binding, BindingModel, Confidence, EntityKind, Provenance};
use crate::rows::{
    first_at, first_at_matches, first_at_push, found_first, found_none, in_order,
    in_order_is_sorted, places, places_are_the_matches, put_in_order, Rank,
};
use crate::store::{binding_is, BindingEntry, BindingRow, Store, StoreModel};
use crate::text::{concat, same};
use crate::tracklist::rows_stay_in_bounds;

verus! {

/// The key a pointer is known by on its service. A path that is not text has none.
pub open spec fn key_of(source: SourceView) -> Option<Seq<char>> {
    match source {
        SourceView::LocalText(path) => Some(path),
        SourceView::LocalOpaque(_) => None,
        SourceView::Tidal(id) => Some(id),
        SourceView::Spotify(id) => Some(id),
    }
}

/// Why a pointer has no key.
pub open spec fn no_key(source: SourceView) -> ErrorView {
    match source {
        SourceView::LocalOpaque(shown) => ErrorView::Library("not a UTF-8 path: "@ + shown),
        _ => ErrorView::Library(Seq::empty()),
    }
}

/// The pointer `key` is on `service`.
pub open spec fn pointer(service: Service, key: Seq<char>) -> SourceView {
    match service {
        Service::Local => SourceView::LocalText(key),
        Service::Tidal => SourceView::Tidal(key),
        Service::Spotify => SourceView::Spotify(key),
    }
}

/// A key is already another entity's.
pub open spec fn bound_elsewhere(
    kind: EntityKind,
    service: Service,
    key: Seq<char>,
    owner: EntityId,
) -> ErrorView {
    ErrorView::Library(
        service.name() + " "@ + kind.name() + " "@ + key + " is already bound to "@ + uuid_text(
            owner.0,
        ),
    )
}

/// Where a binding comes among an entity's: by confidence, then provenance, then age.
pub open spec fn trust_rank(rows: Seq<BindingEntry>, i: int) -> Rank {
    Rank {
        first: (u32::MAX - rows[i].confidence.bits) as i128,
        second: rows[i].provenance.doubt() as i128,
        third: rows[i].created_at as i128,
        row: i as usize,
    }
}

/// What a row says about the entity it binds.
pub open spec fn binding_of(row: BindingEntry) -> BindingModel {
    BindingModel {
        source: pointer(row.service, row.key),
        provenance: row.provenance,
        confidence: row.confidence,
    }
}

pub open spec fn binds(entity: EntityId) -> spec_fn(BindingEntry) -> bool {
    |r: BindingEntry| r.entity == entity
}

/// What a row of service, key, provenance and confidence says, if it can be read.
pub open spec fn readable_row(row: (String, String, String, Confidence)) -> Option<BindingModel> {
    match (Service::named(row.0@), Provenance::named(row.2@)) {
        (Some(service), Some(provenance)) => Some(
            BindingModel { source: pointer(service, row.1@), provenance, confidence: row.3 },
        ),
        _ => None,
    }
}

/// What those of `rows` that can be read say, in order.
pub open spec fn readable_rows(rows: Seq<(String, String, String, Confidence)>) -> Seq<BindingModel>
    decreases rows.len(),
{
    if rows.len() == 0 {
        Seq::empty()
    } else {
        match readable_row(rows.last()) {
            Some(binding) => readable_rows(rows.drop_last()).push(binding),
            None => readable_rows(rows.drop_last()),
        }
    }
}

/// What several bindings say.
pub open spec fn bindings_view(all: Seq<Binding>) -> Seq<BindingModel> {
    all.map_values(|b: Binding| b@)
}

impl StoreModel {
    /// Where the binding of `key` is.
    pub open spec fn binding_at(
        self,
        kind: EntityKind,
        service: Service,
        key: Seq<char>,
    ) -> Option<int> {
        first_at(self.bindings, binding_is(kind, service, key))
    }

    /// The entity of `kind` a pointer is bound to.
    pub open spec fn bound(self, kind: EntityKind, source: SourceView) -> Option<EntityId> {
        match key_of(source) {
            Some(key) => match self.binding_at(kind, source.service(), key) {
                Some(i) => Some(self.bindings[i].entity),
                None => None,
            },
            None => None,
        }
    }

    /// Why `entity` cannot be bound to `source`, if it cannot: the pointer has no key, or its key
    /// names a different entity of the kind.
    pub open spec fn bind_refusal(
        self,
        kind: EntityKind,
        entity: EntityId,
        source: SourceView,
    ) -> Option<ErrorView> {
        match key_of(source) {
            None => Some(no_key(source)),
            Some(key) => match self.bound(kind, source) {
                Some(owner) => if owner != entity {
                    Some(bound_elsewhere(kind, source.service(), key, owner))
                } else {
                    None
                },
                None => None,
            },
        }
    }

    /// The tables with `entity` bound as `binding` says, as of `now`. What is already bound to
    /// the same entity keeps the more certain of the two provenances.
    pub open spec fn with_binding(
        self,
        kind: EntityKind,
        entity: EntityId,
        binding: BindingModel,
        now: i64,
    ) -> StoreModel {
        let service = binding.source.service();
        let key = key_of(binding.source)->0;
        match self.binding_at(kind, service, key) {
            Some(i) => if self.bindings[i].provenance.doubt() < binding.provenance.doubt() {
                self
            } else {
                StoreModel {
                    bindings: self.bindings.update(
                        i,
                        BindingEntry {
                            provenance: binding.provenance,
                            confidence: binding.confidence,
                            ..self.bindings[i]
                        },
                    ),
                    ..self
                }
            },
            None => StoreModel {
                bindings: self.bindings.push(
                    BindingEntry {
                        kind,
                        service,
                        key,
                        entity,
                        provenance: binding.provenance,
                        confidence: binding.confidence,
                        created_at: now,
                    },
                ),
                ..self
            },
        }
    }

    /// The tables without the binding of `source`.
    pub open spec fn without_binding(self, kind: EntityKind, source: SourceView) -> StoreModel {
        match self.binding_at(kind, source.service(), key_of(source)->0) {
            Some(i) => StoreModel { bindings: self.bindings.remove(i), ..self },
            None => self,
        }
    }

    /// The bindings of `entity`, ranked.
    pub open spec fn trust_ranks(self, entity: EntityId) -> Seq<Rank> {
        places(self.bindings, binds(entity), self.bindings.len() as int).map_values(
            |i: int| trust_rank(self.bindings, i),
        )
    }

    /// `entity`'s bindings, most trusted first.
    pub open spec fn bindings_of(self, entity: EntityId) -> Seq<BindingModel> {
        in_order(self.trust_ranks(entity)).map_values(
            |r: Rank| binding_of(self.bindings[r.row as int]),
        )
    }

    /// The row that entry `k` of `entity`'s bindings is read from.
    pub open spec fn row_listed(self, entity: EntityId, k: int) -> int {
        in_order(self.trust_ranks(entity))[k].row as int
    }

    /// Where `entity` can be had from, most trusted first.
    pub open spec fn sources_of(self, entity: EntityId) -> Seq<SourceView> {
        self.bindings_of(entity).map_values(|b: BindingModel| b.source)
    }

    /// A service key names exactly one entity of a kind.
    pub open spec fn keys_are_unique(self) -> bool {
        forall|i: int, j: int|
            0 <= i < j < self.bindings.len() ==> {
                let a = #[trigger] self.bindings[i];
                let b = #[trigger] self.bindings[j];
                !(a.kind == b.kind && a.service == b.service && a.key == b.key)
            }
    }
}

/// `SystemTime::elapsed` of the Unix epoch: the seconds and nanoseconds since then, or nothing if
/// the clock is set before it. It depends on the clock, so all that is claimed is that the
/// nanoseconds stay under a second.
#[verifier::external_body]
fn since_the_epoch() -> (elapsed: Option<(u64, u32)>)
    ensures
        elapsed is Some ==> (elapsed->0).1 < 1_000_000_000,
{
    std::time::UNIX_EPOCH.elapsed().ok().map(|d| (d.as_secs(), d.subsec_nanos()))
}

/// The whole milliseconds in some seconds and nanoseconds.
pub fn whole_millis(elapsed: Option<(u64, u32)>) -> (ms: Option<u128>)
    ensures
        match elapsed {
            Some((secs, nanos)) => ms is Some && ms->0 == secs * 1000 + nanos as int / 1_000_000,
            None => ms is None,
        },
{
    match elapsed {
        Some((secs, nanos)) => Some(secs as u128 * 1000 + (nanos / 1_000_000) as u128),
        None => None,
    }
}

/// A reading of the clock as the tables keep it: 0 before the epoch, and as far as can be counted.
pub fn as_kept(reading: Option<u128>) -> (ms: i64)
    ensures
        ms == match reading {
            Some(ms) => if ms <= i64::MAX {
                ms as int
            } else {
                i64::MAX as int
            },
            None => 0,
        },
{
    match reading {
        Some(ms) => if ms <= i64::MAX as u128 {
            ms as i64
        } else {
            i64::MAX
        },
        None => 0,
    }
}

/// The time, as the tables keep it.
pub fn now_ms() -> (ms: i64)
    ensures
        ms >= 0,
{
    as_kept(whole_millis(since_the_epoch()))
}

/// A binding's service and its key there. Paths are keys too, so they must be text.
pub fn source_key(source: &SourceRef) -> (key: Result<(Service, String)>)
    ensures
        match key {
            Ok((service, k)) => service == source@.service() && key_of(source@) == Some(k@),
            Err(e) => key_of(source@) is None && e@ == no_key(source@),
        },
{
    match source {
        SourceRef::Tidal { id } => Ok((Service::Tidal, id.clone())),
        SourceRef::Spotify { id } => Ok((Service::Spotify, id.clone())),
        SourceRef::Local { path: LocalPath::Text(path) } => Ok((Service::Local, path.clone())),
        SourceRef::Local { path: LocalPath::Opaque(shown) } => Err(
            Error::Library(concat("not a UTF-8 path: ", shown.as_str())),
        ),
    }
}

/// The pointer `key` is on the service of that name, if there is such a service.
pub fn source_ref(service: &str, key: String) -> (source: Option<SourceRef>)
    ensures
        match source {
            Some(s) => Service::named(service@) == Some(s@.service()) && s@ == pointer(
                s@.service(),
                key@,
            ),
            None => Service::named(service@) is None,
        },
{
    match Service::parse(service) {
        Some(service) => Some(pointer_to(service, key)),
        None => None,
    }
}

/// The bindings that rows of service, key, provenance and confidence hold, in order. A row that
/// cannot be read (it names a service or a provenance that is not known here) is skipped.
pub fn readable(rows: Vec<(String, String, String, Confidence)>) -> (kept: Vec<Binding>)
    ensures
        bindings_view(kept@) == readable_rows(rows@),
{
    let mut kept: Vec<Binding> = Vec::new();
    let mut i: usize = 0;
    assert(bindings_view(kept@) =~= readable_rows(rows@.take(0)));
    while i < rows.len()
        invariant
            i <= rows@.len(),
            bindings_view(kept@) == readable_rows(rows@.take(i as int)),
        decreases rows.len() - i,
    {
        assert(rows@.take(i + 1).drop_last() =~= rows@.take(i as int));
        let ghost before = kept@;
        let (service, key, provenance, confidence) = &rows[i];
        match (source_ref(service.as_str(), key.clone()), Provenance::parse(provenance.as_str())) {
            (Some(source), Some(provenance)) => {
                let binding = Binding { source, provenance, confidence: *confidence };
                kept.push(binding);
                assert(bindings_view(kept@) =~= bindings_view(before).push(binding@));
            },
            _ => {},
        }
        i = i + 1;
    }
    assert(rows@.take(i as int) =~= rows@);
    kept
}

/// The pointer `key` is on `service`.
pub fn pointer_to(service: Service, key: String) -> (source: SourceRef)
    ensures
        source@ == pointer(service, key@),
{
    match service {
        Service::Local => SourceRef::Local { path: LocalPath::Text(key) },
        Service::Tidal => SourceRef::Tidal { id: key },
        Service::Spotify => SourceRef::Spotify { id: key },
    }
}

fn is_bound_elsewhere(kind: EntityKind, service: Service, key: &str, owner: EntityId) -> (e: Error)
    ensures
        e@ == bound_elsewhere(kind, service, key@, owner),
{
    let mut text = concat(service.as_str(), " ");
    text.append(kind.as_str());
    text.append(" ");
    text.append(key);
    text.append(" is already bound to ");
    let shown = owner.text();
    text.append(shown.as_str());
    Error::Library(text)
}

impl Store {
    /// Where the binding of `key` is.
    fn find_binding(&self, kind: EntityKind, service: Service, key: &str) -> (at: Option<usize>)
        ensures
            match at {
                Some(i) => self@.binding_at(kind, service, key@) == Some(i as int) && i
                    < self.bindings@.len(),
                None => self@.binding_at(kind, service, key@) is None,
            },
    {
        let ghost p = binding_is(kind, service, key@);
        let mut i: usize = 0;
        while i < self.bindings.len()
            invariant
                i <= self.bindings.len(),
                p == binding_is(kind, service, key@),
                forall|j: int| 0 <= j < i ==> !p(#[trigger] self@.bindings[j]),
            decreases self.bindings.len() - i,
        {
            assert(self@.bindings[i as int] == self.bindings@[i as int]@);
            let row = &self.bindings[i];
            if row.kind == kind && row.service == service && same(row.key.as_str(), key) {
                proof {
                    found_first(self@.bindings, p, i as int);
                }
                return Some(i);
            }
            i = i + 1;
        }
        proof {
            found_none(self@.bindings, p);
        }
        None
    }

    /// Bind `entity` to a service's key for it, as of `now`.
    ///
    /// Binding again what is already bound to the same entity keeps the more certain of the two
    /// provenances. A key bound to a *different* entity of the kind is refused: moving it is a
    /// correction for someone to make deliberately, not a side effect.
    pub fn bind_at(
        &mut self,
        kind: EntityKind,
        entity: EntityId,
        binding: &Binding,
        now: i64,
    ) -> (done: Result<()>)
        ensures
            match done {
                Ok(_) => old(self)@.bind_refusal(kind, entity, binding@.source) is None
                    && final(self)@ == old(self)@.with_binding(kind, entity, binding@, now),
                Err(e) => old(self)@.bind_refusal(kind, entity, binding@.source) == Some(e@)
                    && final(self)@ == old(self)@,
            },
    {
        let (service, key) = match source_key(&binding.source) {
            Ok(found) => found,
            Err(e) => {
                return Err(e);
            },
        };
        let ghost before = self@;
        match self.find_binding(kind, service, key.as_str()) {
            Some(i) => {
                assert(before.bindings[i as int] == self.bindings@[i as int]@);
                let owner = self.bindings[i].entity;
                if owner.0 != entity.0 {
                    return Err(is_bound_elsewhere(kind, service, key.as_str(), owner));
                }
                if self.bindings[i].provenance.rank() < binding.provenance.rank() {
                    return Ok(());
                }
                let row = BindingRow {
                    kind,
                    service,
                    key: self.bindings[i].key.clone(),
                    entity,
                    provenance: binding.provenance,
                    confidence: binding.confidence,
                    created_at: self.bindings[i].created_at,
                };
                proof {
                    first_at_matches(before.bindings, binding_is(kind, service, key@));
                }
                self.bindings.set(i, row);
                assert(self@.bindings =~= before.bindings.update(
                    i as int,
                    BindingEntry {
                        provenance: binding@.provenance,
                        confidence: binding@.confidence,
                        ..before.bindings[i as int]
                    },
                ));
                Ok(())
            },
            None => {
                let row = BindingRow {
                    kind,
                    service,
                    key,
                    entity,
                    provenance: binding.provenance,
                    confidence: binding.confidence,
                    created_at: now,
                };
                self.bindings.push(row);
                assert(self@.bindings =~= before.bindings.push(row@));
                Ok(())
            },
        }
    }

    /// Bind `entity` to a service's key for it, as of now.
    pub fn bind(&mut self, kind: EntityKind, entity: EntityId, binding: &Binding) -> (done: Result<
        (),
    >)
        ensures
            match done {
                Ok(_) => old(self)@.bind_refusal(kind, entity, binding@.source) is None && exists|
                    now: i64,
                |
                    now >= 0 && final(self)@ == #[trigger] old(self)@.with_binding(
                        kind,
                        entity,
                        binding@,
                        now,
                    ),
                Err(e) => old(self)@.bind_refusal(kind, entity, binding@.source) == Some(e@)
                    && final(self)@ == old(self)@,
            },
    {
        let now: i64 = now_ms();
        self.bind_at(kind, entity, binding, now)
    }

    /// Forget a binding. Returns whether there was one.
    pub fn unbind(&mut self, kind: EntityKind, source: &SourceRef) -> (removed: Result<bool>)
        ensures
            match removed {
                Ok(there_was) => key_of(source@) is Some && there_was == (old(self)@.bound(
                    kind,
                    source@,
                ) is Some) && final(self)@ == old(self)@.without_binding(kind, source@),
                Err(e) => key_of(source@) is None && e@ == no_key(source@) && final(self)@
                    == old(self)@,
            },
    {
        let (service, key) = match source_key(source) {
            Ok(found) => found,
            Err(e) => {
                return Err(e);
            },
        };
        match self.find_binding(kind, service, key.as_str()) {
            Some(i) => {
                let _gone = self.bindings.remove(i);
                assert(self@.bindings =~= old(self)@.bindings.remove(i as int));
                Ok(true)
            },
            None => Ok(false),
        }
    }

    /// The entity of `kind` a service key is bound to.
    pub fn bound(&self, kind: EntityKind, source: &SourceRef) -> (entity: Result<Option<EntityId>>)
        ensures
            match entity {
                Ok(found) => key_of(source@) is Some && found == self@.bound(kind, source@),
                Err(e) => key_of(source@) is None && e@ == no_key(source@),
            },
    {
        let (service, key) = match source_key(source) {
            Ok(found) => found,
            Err(e) => {
                return Err(e);
            },
        };
        match self.find_binding(kind, service, key.as_str()) {
            Some(i) => {
                assert(self@.bindings[i as int] == self.bindings@[i as int]@);
                Ok(Some(self.bindings[i].entity))
            },
            None => Ok(None),
        }
    }

    /// `entity`'s bindings, most trusted first: by confidence, then provenance, then age.
    pub fn bindings(&self, entity: EntityId) -> (bindings: Vec<Binding>)
        ensures
            bindings_view(bindings@) == self@.bindings_of(entity),
    {
        let ghost p = binds(entity);
        let ghost pick = |i: int| trust_rank(self@.bindings, i);
        let mut ranks: Vec<Rank> = Vec::new();
        let mut i: usize = 0;
        assert(ranks@ =~= places(self@.bindings, p, 0).map_values(pick));
        while i < self.bindings.len()
            invariant
                i <= self.bindings.len(),
                p == binds(entity),
                pick == (|i: int| trust_rank(self@.bindings, i)),
                ranks@ == places(self@.bindings, p, i as int).map_values(pick),
                forall|k: int| 0 <= k < ranks@.len() ==> (#[trigger] ranks@[k]).row < i,
            decreases self.bindings.len() - i,
        {
            assert(self@.bindings[i as int] == self.bindings@[i as int]@);
            let row = &self.bindings[i];
            if row.entity.0 == entity.0 {
                ranks.push(
                    Rank {
                        first: (u32::MAX - row.confidence.bits) as i128,
                        second: row.provenance.rank() as i128,
                        third: row.created_at as i128,
                        row: i,
                    },
                );
                assert(places(self@.bindings, p, i + 1).map_values(pick) =~= places(
                    self@.bindings,
                    p,
                    i as int,
                ).map_values(pick).push(pick(i as int)));
            }
            i = i + 1;
        }
        proof {
            rows_stay_in_bounds(ranks@, self.bindings@.len() as int);
        }
        let sorted = put_in_order(&ranks);
        let ghost show = |r: Rank| binding_of(self@.bindings[r.row as int]);
        let mut out: Vec<Binding> = Vec::new();
        let mut j: usize = 0;
        assert(bindings_view(out@) =~= sorted@.take(0).map_values(show));
        while j < sorted.len()
            invariant
                j <= sorted.len(),
                show == (|r: Rank| binding_of(self@.bindings[r.row as int])),
                forall|k: int|
                    0 <= k < sorted@.len() ==> (#[trigger] sorted@[k]).row < self.bindings@.len(),
                bindings_view(out@) == sorted@.take(j as int).map_values(show),
            decreases sorted.len() - j,
        {
            let at: usize = sorted[j].row;
            assert(self@.bindings[at as int] == self.bindings@[at as int]@);
            let row = &self.bindings[at];
            let ghost before = bindings_view(out@);
            out.push(
                Binding {
                    source: pointer_to(row.service, row.key.clone()),
                    provenance: row.provenance,
                    confidence: row.confidence,
                },
            );
            assert(bindings_view(out@) =~= before.push(binding_of(self@.bindings[at as int])));
            assert(sorted@.take(j + 1).map_values(show) =~= sorted@.take(j as int).map_values(
                show,
            ).push(show(sorted@[j as int])));
            j = j + 1;
        }
        assert(sorted@.take(j as int) =~= sorted@);
        out
    }

    /// Where `entity` can be had from, most trusted first.
    pub fn sources(&self, entity: EntityId) -> (sources: Vec<SourceRef>)
        ensures
            sources_view(sources@) == self@.sources_of(entity),
    {
        let bindings = self.bindings(entity);
        let mut out: Vec<SourceRef> = Vec::new();
        let mut i: usize = 0;
        while i < bindings.len()
            invariant
                i <= bindings.len(),
                out@.len() == i,
                forall|j: int| 0 <= j < i ==> (#[trigger] out@[j])@ == bindings@[j].source@,
            decreases bindings.len() - i,
        {
            out.push(bindings[i].source.clone());
            i = i + 1;
        }
        assert(sources_view(out@) =~= bindings_view(bindings@).map_values(
            |b: BindingModel| b.source,
        ));
        out
    }
}

/// A pointer read back from its service and key is the same pointer.
pub proof fn a_key_reads_back_as_its_pointer(source: SourceView)
    requires
        key_of(source) is Some,
    ensures
        pointer(source.service(), key_of(source)->0) == source,
{
}

/// A key bound to one entity is never handed to another: the attempt is refused, and the key
/// stays with its owner.
pub proof fn a_binding_names_one_entity(
    model: StoreModel,
    kind: EntityKind,
    entity: EntityId,
    source: SourceView,
)
    requires
        model.bound(kind, source) is Some,
        model.bound(kind, source)->0 != entity,
    ensures
        model.bind_refusal(kind, entity, source) is Some,
{
}

/// Once bound, a key names the entity.
pub proof fn a_bound_key_names_the_entity(
    model: StoreModel,
    kind: EntityKind,
    entity: EntityId,
    binding: BindingModel,
    now: i64,
)
    requires
        model.bind_refusal(kind, entity, binding.source) is None,
    ensures
        model.with_binding(kind, entity, binding, now).bound(kind, binding.source) == Some(entity),
{
    let service = binding.source.service();
    let key = key_of(binding.source)->0;
    let p = binding_is(kind, service, key);
    let after = model.with_binding(kind, entity, binding, now);
    first_at_matches(model.bindings, p);
    match model.binding_at(kind, service, key) {
        Some(i) => {
            if model.bindings[i].provenance.doubt() >= binding.provenance.doubt() {
                assert forall|j: int| 0 <= j < i implies !p(#[trigger] after.bindings[j]) by {
                    assert(!p(model.bindings[j]));
                }
                found_first(after.bindings, p, i);
            }
        },
        None => {
            first_at_push(model.bindings, after.bindings.last(), p);
        },
    }
}

/// Binding keeps the keys unique.
pub proof fn binding_keeps_keys_unique(
    model: StoreModel,
    kind: EntityKind,
    entity: EntityId,
    binding: BindingModel,
    now: i64,
)
    requires
        model.keys_are_unique(),
        model.bind_refusal(kind, entity, binding.source) is None,
    ensures
        model.with_binding(kind, entity, binding, now).keys_are_unique(),
{
    let service = binding.source.service();
    let key = key_of(binding.source)->0;
    let p = binding_is(kind, service, key);
    let after = model.with_binding(kind, entity, binding, now);
    first_at_matches(model.bindings, p);
    match model.binding_at(kind, service, key) {
        Some(i) => {
            if model.bindings[i].provenance.doubt() >= binding.provenance.doubt() {
                assert forall|j: int| 0 <= j < i implies !p(#[trigger] after.bindings[j]) by {
                    assert(!p(model.bindings[j]));
                }
                found_first(after.bindings, p, i);
                assert(after.keys_are_unique());
            }
        },
        None => {
            let row = after.bindings.last();
            first_at_push(model.bindings, row, p);
            assert forall|i: int, j: int|
                0 <= i < j < after.bindings.len() implies ({
                let a = #[trigger] after.bindings[i];
                let b = #[trigger] after.bindings[j];
                !(a.kind == b.kind && a.service == b.service && a.key == b.key)
            }) by {
                if j == model.bindings.len() {
                    assert(!p(model.bindings[i]));
                }
            }
        },
    }
}

/// Binding one key leaves every other key naming what it named.
pub proof fn binding_leaves_other_keys_alone(
    model: StoreModel,
    kind: EntityKind,
    entity: EntityId,
    binding: BindingModel,
    now: i64,
    other_kind: EntityKind,
    other: SourceView,
)
    requires
        model.bind_refusal(kind, entity, binding.source) is None,
        other_kind != kind || key_of(other) != key_of(binding.source) || other.service()
            != binding.source.service(),
    ensures
        model.with_binding(kind, entity, binding, now).bound(other_kind, other) == model.bound(
            other_kind,
            other,
        ),
{
    if key_of(other) is Some {
        let service = binding.source.service();
        let key = key_of(binding.source)->0;
        let p = binding_is(kind, service, key);
        let q = binding_is(other_kind, other.service(), key_of(other)->0);
        let after = model.with_binding(kind, entity, binding, now);
        first_at_matches(model.bindings, p);
        first_at_matches(model.bindings, q);
        match model.binding_at(kind, service, key) {
            Some(i) => {
                match first_at(model.bindings, q) {
                    Some(k) => {
                        assert forall|j: int| 0 <= j < k implies !q(#[trigger] after.bindings[j]) by {
                            assert(!q(model.bindings[j]));
                        }
                        found_first(after.bindings, q, k);
                    },
                    None => {
                        assert forall|j: int|
                            0 <= j < after.bindings.len() implies !q(
                            #[trigger] after.bindings[j],
                        ) by {
                            assert(!q(model.bindings[j]));
                        }
                        found_none(after.bindings, q);
                    },
                }
            },
            None => {
                first_at_push(model.bindings, after.bindings.last(), q);
            },
        }
    }
}

/// A weaker re-binding never downgrades a stronger one.
pub proof fn a_weaker_rebinding_never_downgrades(
    model: StoreModel,
    kind: EntityKind,
    entity: EntityId,
    binding: BindingModel,
    now: i64,
)
    requires
        model.bind_refusal(kind, entity, binding.source) is None,
        model.bound(kind, binding.source) is Some,
        ({
            let i = model.binding_at(kind, binding.source.service(), key_of(binding.source)->0)->0;
            model.bindings[i].provenance.doubt() < binding.provenance.doubt()
        }),
    ensures
        model.with_binding(kind, entity, binding, now) == model,
{
}

/// Forgetting a binding frees its key for any entity.
pub proof fn unbinding_frees_the_key(model: StoreModel, kind: EntityKind, source: SourceView)
    requires
        model.keys_are_unique(),
        key_of(source) is Some,
    ensures
        model.without_binding(kind, source).bound(kind, source) is None,
        model.without_binding(kind, source).keys_are_unique(),
        forall|entity: EntityId|
            #[trigger] model.without_binding(kind, source).bind_refusal(
                kind,
                entity,
                source,
            ) is None,
{
    let p = binding_is(kind, source.service(), key_of(source)->0);
    let after = model.without_binding(kind, source);
    first_at_matches(model.bindings, p);
    match model.binding_at(kind, source.service(), key_of(source)->0) {
        Some(i) => {
            assert forall|j: int| 0 <= j < after.bindings.len() implies !p(
                #[trigger] after.bindings[j],
            ) by {
                if j < i {
                    assert(!p(model.bindings[j]));
                } else {
                    assert(after.bindings[j] == model.bindings[j + 1]);
                    assert(p(model.bindings[i]));
                }
            }
            found_none(after.bindings, p);
            assert forall|a: int, b: int|
                0 <= a < b < after.bindings.len() implies ({
                let x = #[trigger] after.bindings[a];
                let y = #[trigger] after.bindings[b];
                !(x.kind == y.kind && x.service == y.service && x.key == y.key)
            }) by {
                let c = if a < i {
                    a
                } else {
                    a + 1
                };
                let d = if b < i {
                    b
                } else {
                    b + 1
                };
                assert(after.bindings[a] == model.bindings[c]);
                assert(after.bindings[b] == model.bindings[d]);
            }
        },
        None => {
            found_none(model.bindings, p);
        },
    }
}

/// Forgetting one key leaves every other key naming what it named.
pub proof fn unbinding_leaves_other_keys_alone(
    model: StoreModel,
    kind: EntityKind,
    source: SourceView,
    other_kind: EntityKind,
    other: SourceView,
)
    requires
        key_of(source) is Some,
        other_kind != kind || key_of(other) != key_of(source) || other.service()
            != source.service(),
    ensures
        model.without_binding(kind, source).bound(other_kind, other) == model.bound(
            other_kind,
            other,
        ),
{
    if key_of(other) is Some {
        let p = binding_is(kind, source.service(), key_of(source)->0);
        let q = binding_is(other_kind, other.service(), key_of(other)->0);
        let after = model.without_binding(kind, source);
        first_at_matches(model.bindings, p);
        first_at_matches(model.bindings, q);
        if let Some(i) = first_at(model.bindings, p) {
            assert(!q(model.bindings[i]));
            match first_at(model.bindings, q) {
                Some(k) => {
                    let at = if k < i {
                        k
                    } else {
                        k - 1
                    };
                    assert forall|j: int| 0 <= j < at implies !q(#[trigger] after.bindings[j]) by {
                        if j < i {
                            assert(!q(model.bindings[j]));
                        } else {
                            assert(!q(model.bindings[j + 1]));
                        }
                    }
                    found_first(after.bindings, q, at);
                },
                None => {
                    assert forall|j: int| 0 <= j < after.bindings.len() implies !q(
                        #[trigger] after.bindings[j],
                    ) by {
                        if j < i {
                            assert(!q(model.bindings[j]));
                        } else {
                            assert(!q(model.bindings[j + 1]));
                        }
                    }
                    found_none(after.bindings, q);
                },
            }
        }
    }
}

/// An entity's bindings are listed most trusted first: by confidence, then by how certain the
/// provenance is, then by age, the oldest first, and in the order they were written where even
/// that is the same.
pub proof fn bindings_are_listed_most_trusted_first(
    model: StoreModel,
    entity: EntityId,
    i: int,
    j: int,
)
    requires
        0 <= i < j < model.bindings_of(entity).len(),
        model.bindings.len() <= usize::MAX,
    ensures
        0 <= model.row_listed(entity, i) < model.bindings.len(),
        0 <= model.row_listed(entity, j) < model.bindings.len(),
        ({
            let (r, s) = (model.row_listed(entity, i), model.row_listed(entity, j));
            let (a, b) = (model.bindings[r], model.bindings[s]);
            &&& a.entity == entity && b.entity == entity
            &&& model.bindings_of(entity)[i] == binding_of(a)
            &&& model.bindings_of(entity)[j] == binding_of(b)
            &&& if a.confidence != b.confidence {
                a.confidence.bits > b.confidence.bits
            } else if a.provenance != b.provenance {
                a.provenance.doubt() < b.provenance.doubt()
            } else if a.created_at != b.created_at {
                a.created_at < b.created_at
            } else {
                r < s
            }
        }),
{
    broadcast use vstd::seq_lib::group_to_multiset_ensures;

    let ranks = model.trust_ranks(entity);
    in_order_is_sorted(ranks);
    let sorted = in_order(ranks);
    places_are_the_matches(model.bindings, binds(entity), model.bindings.len() as int);
    assert forall|k: int| 0 <= k < sorted.len() implies ({
        let r = #[trigger] sorted[k];
        &&& 0 <= r.row < model.bindings.len()
        &&& model.bindings[r.row as int].entity == entity
        &&& r == trust_rank(model.bindings, r.row as int)
    }) by {
        assert(sorted.contains(sorted[k]));
        assert(ranks.to_multiset().count(sorted[k]) > 0);
        assert(ranks.contains(sorted[k]));
        let m = choose|m: int| 0 <= m < ranks.len() && ranks[m] == sorted[k];
        let place = places(model.bindings, binds(entity), model.bindings.len() as int)[m];
        assert(ranks[m] == trust_rank(model.bindings, place));
        assert(binds(entity)(model.bindings[place]));
    }
    assert(!sorted[j].before(sorted[i]));
    let all = places(model.bindings, binds(entity), model.bindings.len() as int);
    assert forall|a: int, b: int|
        0 <= a < ranks.len() && 0 <= b < ranks.len() && a != b implies ranks[a] != ranks[b] by {
        assert(ranks[a].row == all[a] && ranks[b].row == all[b]);
        assert(if a < b {
            all[a] < all[b]
        } else {
            all[b] < all[a]
        });
    }
    ranks.lemma_multiset_has_no_duplicates();
    sorted.lemma_multiset_has_no_duplicates_conv();
    assert(sorted[i] != sorted[j]);
}

/// What a person said is trusted most, then what the entity was made from, then a shared
/// MusicBrainz id, then a shared ISRC, and a likeness least.
pub proof fn trust_follows_how_a_binding_was_made()
    ensures
        Provenance::Manual.doubt() < Provenance::Direct.doubt(),
        Provenance::Direct.doubt() < Provenance::Mbid.doubt(),
        Provenance::Mbid.doubt() < Provenance::Isrc.doubt(),
        Provenance::Isrc.doubt() < Provenance::Fuzzy.doubt(),
{
}

/// A new binding is kept as it was given. One that is made again, no less trusted than before,
/// takes up the trust it is given now, and stays the entity's, as old as it was.
pub proof fn a_binding_is_kept_as_given(
    model: StoreModel,
    kind: EntityKind,
    entity: EntityId,
    binding: BindingModel,
    now: i64,
)
    requires
        model.bind_refusal(kind, entity, binding.source) is None,
    ensures
        model.bound(kind, binding.source) is None ==> ({
            let after = model.with_binding(kind, entity, binding, now);
            let row = after.bindings.last();
            &&& after.bindings.len() == model.bindings.len() + 1
            &&& row.kind == kind && row.entity == entity
            &&& row.service == binding.source.service()
            &&& Some(row.key) == key_of(binding.source)
            &&& row.provenance == binding.provenance
            &&& row.confidence == binding.confidence
            &&& row.created_at == now
            &&& forall|k: int| 0 <= k < model.bindings.len() ==> #[trigger] after.bindings[k]
                == model.bindings[k]
        }),
        model.bound(kind, binding.source) is Some ==> ({
            let i = model.binding_at(
                kind,
                binding.source.service(),
                key_of(binding.source)->0,
            )->0;
            let after = model.with_binding(kind, entity, binding, now);
            let was = model.bindings[i];
            &&& after.bindings.len() == model.bindings.len()
            &&& after.bindings[i].entity == entity
            &&& after.bindings[i].created_at == was.created_at
            &&& binding.provenance.doubt() <= was.provenance.doubt() ==> after.bindings[i].provenance
                == binding.provenance && after.bindings[i].confidence == binding.confidence
            &&& forall|k: int|
                0 <= k < model.bindings.len() && k != i ==> #[trigger] after.bindings[k]
                    == model.bindings[k]
        }),
{
    if model.bound(kind, binding.source) is Some {
        let p = binding_is(kind, binding.source.service(), key_of(binding.source)->0);
        first_at_matches(model.bindings, p);
    }
}

/// Rows of a service or a provenance nobody knows are passed over, and the others read in order.
pub proof fn unreadable_rows_are_passed_over(
    rows: Seq<(String, String, String, Confidence)>,
    row: (String, String, String, Confidence),
)
    ensures
        Service::named(row.0@) is None || Provenance::named(row.2@) is None ==> readable_rows(
            rows.push(row),
        ) == readable_rows(rows),
        Service::named(row.0@) is Some && Provenance::named(row.2@) is Some ==> readable_rows(
            rows.push(row),
        ) == readable_rows(rows).push(
            BindingModel {
                source: pointer(Service::named(row.0@)->0, row.1@),
                provenance: Provenance::named(row.2@)->0,
                confidence: row.3,
            },
        ),
{
    assert(rows.push(row).drop_last() =~= rows);
}

} // verus!
