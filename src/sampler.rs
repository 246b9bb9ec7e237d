//! The per-tick decisions of the snapshot sampler. The caller owns the
//! schedule and the memory reads: each tick it asks `begin_tick` which
//! refresh to perform, performs it, reports the outcome, and publishes.
use vstd::prelude::*;
use crate::entities::{duplicate_all, entity_views, Entity, EntityView, RawVec3};
use crate::geometry::{RawBounds, RawMat4};
use crate::snapshot::{published, Snapshot, SlotView, SnapshotSlot};

verus! {

/// Recognized options of the sampler.
pub struct SamplerConfig {
    /// Milliseconds between two ticks.
    pub base_tick_ms: u64,
    /// Most candidate slots read by one enumeration.
    pub max_entries: usize,
    /// Ticks between two forced full refreshes.
    pub full_refresh_every_n: u32,
}

/// The last enumerated base addresses and the last resolved entities.
pub struct Cache {
    pub bases: Vec<u64>,
    pub entities: Vec<Entity>,
}

impl Default for Cache {
    fn default() -> (r: Cache)
        ensures
            r.bases@.len() == 0,
            r.entities@.len() == 0,
    {
        Cache { bases: Vec::new(), entities: Vec::new() }
    }
}

/// What a tick does before publishing.
#[derive(Clone, Copy, Debug, PartialEq, Eq, Structural)]
pub enum Refresh {
    /// Enumerate the bases again and resolve every entity.
    Full,
    /// Re-read only the positions of the cached entities.
    Incremental,
    /// Leave the cache as it is.
    Keep,
}

/// The refresh that a tick with counter `counter` performs.
pub open spec fn refresh_for(
    counter: u32,
    every_n: u32,
    bases: Seq<u64>,
    entities: Seq<EntityView>,
) -> Refresh {
    if counter % every_n == 0 || bases.len() == 0 {
        Refresh::Full
    } else if entities.len() > 0 {
        Refresh::Incremental
    } else {
        Refresh::Keep
    }
}

/// The entities after an incremental refresh: the first `min` positions are
/// replaced by the new ones, every other field and every other entity is
/// kept.
pub open spec fn moved(old: Seq<EntityView>, origins: Seq<RawVec3>) -> Seq<EntityView> {
    Seq::new(
        old.len(),
        |i: int|
            if i < origins.len() {
                EntityView { origin: origins[i], ..old[i] }
            } else {
                old[i]
            },
    )
}

pub struct Sampler {
    every_n: u32,
    max_entries: usize,
    counter: u32,
    cache: Cache,
    slot: SnapshotSlot,
}

pub struct SamplerView {
    pub every_n: u32,
    pub max_entries: usize,
    pub counter: u32,
    pub bases: Seq<u64>,
    pub entities: Seq<EntityView>,
    pub slot: SlotView,
}

impl View for Sampler {
    type V = SamplerView;

    closed spec fn view(&self) -> SamplerView {
        SamplerView {
            every_n: self.every_n,
            max_entries: self.max_entries,
            counter: self.counter,
            bases: self.cache.bases@,
            entities: entity_views(self.cache.entities@),
            slot: self.slot@,
        }
    }
}

impl Sampler {
    pub closed spec fn wf(&self) -> bool {
        self.every_n > 0
    }

    /// A sampler with an empty cache, publishing into a slot that holds
    /// `initial`.
    pub fn new(cfg: &SamplerConfig, initial: Snapshot) -> (r: Sampler)
        requires
            cfg.full_refresh_every_n > 0,
        ensures
            r.wf(),
            r@.every_n == cfg.full_refresh_every_n,
            r@.max_entries == cfg.max_entries,
            r@.counter == 0,
            r@.bases.len() == 0,
            r@.entities.len() == 0,
            r@.slot.latest == initial@,
            r@.slot.version == 0,
    {
        let cache = Cache::default();
        let r = Sampler {
            every_n: cfg.full_refresh_every_n,
            max_entries: cfg.max_entries,
            counter: 0,
            cache,
            slot: SnapshotSlot::new(initial),
        };
        assert(r@.entities =~= Seq::<EntityView>::empty());
        r
    }

    /// The most candidate slots a full refresh enumerates.
    pub fn max_entries(&self) -> (r: usize)
        ensures
            r == self@.max_entries,
    {
        self.max_entries
    }

    /// Starts a tick: counts it (wrapping) and chooses its refresh. A full
    /// refresh comes every `every_n` ticks and whenever no bases are cached;
    /// otherwise positions are refreshed when entities are cached.
    pub fn begin_tick(&mut self) -> (r: Refresh)
        requires
            old(self).wf(),
        ensures
            final(self).wf(),
            final(self)@ == (SamplerView { counter: old(self)@.counter.wrapping_add(1), ..old(self)@ }),
            r == refresh_for(
                old(self)@.counter.wrapping_add(1),
                old(self)@.every_n,
                old(self)@.bases,
                old(self)@.entities,
            ),
            r == Refresh::Full <==> (old(self)@.counter.wrapping_add(1) % old(self)@.every_n == 0
                || old(self)@.bases.len() == 0),
            r == Refresh::Incremental <==> (old(self)@.counter.wrapping_add(1) % old(self)@.every_n
                != 0 && old(self)@.bases.len() > 0 && old(self)@.entities.len() > 0),
    {
        self.counter = self.counter.wrapping_add(1);
        if self.counter % self.every_n == 0 || self.cache.bases.len() == 0 {
            Refresh::Full
        } else if self.cache.entities.len() > 0 {
            Refresh::Incremental
        } else {
            Refresh::Keep
        }
    }

    /// The cached base addresses, which an incremental refresh and the
    /// bounds pass read from.
    pub fn cached_bases(&self) -> (r: &Vec<u64>)
        ensures
            r@ == self@.bases,
    {
        &self.cache.bases
    }

    /// Ends a full refresh. With an outcome, its bases and entities replace
    /// the cache whole; without one (the refresh failed) the previous cache
    /// stays.
    pub fn apply_full(&mut self, outcome: Option<(Vec<u64>, Vec<Entity>)>)
        requires
            old(self).wf(),
        ensures
            final(self).wf(),
            match outcome {
                Some((b, e)) => final(self)@ == (SamplerView {
                    bases: b@,
                    entities: entity_views(e@),
                    ..old(self)@
                }),
                None => final(self)@ == old(self)@,
            },
    {
        match outcome {
            Some((b, e)) => {
                self.cache = Cache { bases: b, entities: e };
            },
            None => {},
        }
    }

    /// Ends an incremental refresh. With new positions, each cached entity
    /// that has one takes it and keeps every other field; without them (the
    /// read failed) the stale positions stay.
    pub fn apply_positions(&mut self, origins: Option<Vec<RawVec3>>)
        requires
            old(self).wf(),
        ensures
            final(self).wf(),
            match origins {
                Some(o) => final(self)@ == (SamplerView {
                    entities: moved(old(self)@.entities, o@),
                    ..old(self)@
                }),
                None => final(self)@ == old(self)@,
            },
    {
        match origins {
            Some(o) => {
                let n = self.cache.entities.len();
                let mut i: usize = 0;
                while i < n && i < o.len()
                    invariant
                        n == self.cache.entities@.len(),
                        n == old(self).cache.entities@.len(),
                        i <= n,
                        self.every_n == old(self).every_n,
                        self.max_entries == old(self).max_entries,
                        self.counter == old(self).counter,
                        self.cache.bases@ == old(self).cache.bases@,
                        self.slot@ == old(self).slot@,
                        forall|j: int|
                            0 <= j < n ==> #[trigger] self.cache.entities@[j]@ == if j < i && j
                                < o@.len() {
                                EntityView { origin: o@[j], ..old(self).cache.entities@[j]@ }
                            } else {
                                old(self).cache.entities@[j]@
                            },
                    decreases n - i,
                {
                    assert(self.cache.entities@[i as int]@ == old(self).cache.entities@[i as int]@);
                    let mut e = self.cache.entities[i].duplicate();
                    e.origin = o[i];
                    self.cache.entities.set(i, e);
                    i = i + 1;
                }
                assert(self@.entities =~= moved(old(self)@.entities, o@));
            },
            None => {},
        }
    }

    /// Publishes the tick's snapshot: the view transform, a copy of the
    /// cached entities and the bounds.
    pub fn publish(&mut self, view: RawMat4, aabbs: Vec<RawBounds>)
        requires
            old(self).wf(),
        ensures
            final(self).wf(),
            final(self)@.slot.latest.entities == old(self)@.entities,
            final(self)@.slot.latest.aabbs == aabbs@,
            final(self)@.slot.latest.view == view,
            final(self)@.slot == published(old(self)@.slot, final(self)@.slot.latest),
            final(self)@ == (SamplerView { slot: final(self)@.slot, ..old(self)@ }),
    {
        let entities = duplicate_all(&self.cache.entities);
        self.slot.publish(Snapshot { view, entities, aabbs });
    }

    /// The latest published snapshot.
    pub fn latest(&self) -> (r: &Snapshot)
        ensures
            r@ == self@.slot.latest,
    {
        self.slot.latest()
    }
}

} // verus!
