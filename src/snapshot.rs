//! Snapshots and the single-slot, latest-value holder they are published to.
use vstd::prelude::*;
use crate::entities::{entity_views, Entity, EntityView};
use crate::geometry::{RawBounds, RawMat4};

verus! {

/// One tick's output.
pub struct Snapshot {
    pub view: RawMat4,
    pub entities: Vec<Entity>,
    pub aabbs: Vec<RawBounds>,
}

pub struct SnapshotView {
    pub view: RawMat4,
    pub entities: Seq<EntityView>,
    pub aabbs: Seq<RawBounds>,
}

impl View for Snapshot {
    type V = SnapshotView;

    open spec fn view(&self) -> SnapshotView {
        SnapshotView { view: self.view, entities: entity_views(self.entities@), aabbs: self.aabbs@ }
    }
}

/// A slot that always holds the latest published snapshot, with the number
/// of publications so far.
pub struct SnapshotSlot {
    latest: Snapshot,
    version: u64,
}

pub struct SlotView {
    pub latest: SnapshotView,
    pub version: nat,
}

impl View for SnapshotSlot {
    type V = SlotView;

    closed spec fn view(&self) -> SlotView {
        SlotView { latest: self.latest@, version: self.version as nat }
    }
}

/// The slot after one publication: the new value replaces the old one whole,
/// and the version counts up (it stops at the largest `u64`).
pub open spec fn published(slot: SlotView, s: SnapshotView) -> SlotView {
    SlotView {
        latest: s,
        version: if slot.version < u64::MAX {
            slot.version + 1
        } else {
            slot.version
        },
    }
}

/// The slot after publishing each snapshot of `seq` in turn.
pub open spec fn published_all(slot: SlotView, seq: Seq<SnapshotView>) -> SlotView
    decreases seq.len(),
{
    if seq.len() == 0 {
        slot
    } else {
        published(published_all(slot, seq.drop_last()), seq.last())
    }
}

/// After any non-empty run of publications with no read in between, the slot
/// holds the last one published, never an earlier one.
pub proof fn lemma_latest_publication_wins(slot: SlotView, seq: Seq<SnapshotView>)
    requires
        seq.len() > 0,
    ensures
        published_all(slot, seq).latest == seq.last(),
{
}

/// Each publication raises the version by one until it reaches the largest
/// `u64`, so a reader can tell that it missed some.
pub proof fn lemma_version_counts_publications(slot: SlotView, seq: Seq<SnapshotView>)
    requires
        slot.version + seq.len() <= u64::MAX,
    ensures
        published_all(slot, seq).version == slot.version + seq.len(),
    decreases seq.len(),
{
    if seq.len() > 0 {
        lemma_version_counts_publications(slot, seq.drop_last());
    }
}

impl SnapshotSlot {
    /// A slot holding `initial`, at version zero.
    pub fn new(initial: Snapshot) -> (r: SnapshotSlot)
        ensures
            r@.latest == initial@,
            r@.version == 0,
    {
        SnapshotSlot { latest: initial, version: 0 }
    }

    /// Replaces the held snapshot with `s`.
    pub fn publish(&mut self, s: Snapshot)
        ensures
            final(self)@ == published(old(self)@, s@),
    {
        self.latest = s;
        if self.version < u64::MAX {
            self.version = self.version + 1;
        }
    }

    /// The latest snapshot.
    pub fn latest(&self) -> (r: &Snapshot)
        ensures
            r@ == self@.latest,
    {
        &self.latest
    }

    /// The number of publications so far.
    pub fn version(&self) -> (r: u64)
        ensures
            r == self@.version,
    {
        self.version
    }
}

} // verus!
