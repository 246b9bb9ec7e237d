//! The resolver's passes in their dependency order. A `Resolution` starts
//! from the base fields, names the batch to read next, absorbs what the
//! caller read, and assembles the records once every pass is done.
use vstd::prelude::*;
use crate::batch::{aligned_at, requests_match, spread_at};
use crate::entities::Entity;
use crate::resolver::{
    assemble, chain_requests, chain_results, columns_settle, descriptor_addresses, descriptors_of,
    disps_of, entries_of, name_of_read, name_ptrs_of, name_slot_requests, name_slot_results,
    nonnull_mask, offset_all, record_at, settle_base_fields, settle_names, slot_addrs, slot_mask,
    texts, BaseColumns, BaseFieldReads, DESCRIPTOR_NAME_OFFSET, DISPATCH_ENTRY_OFFSET,
    DISPLACEMENT_OFFSET,
};

verus! {

/// The pass a resolution is waiting for.
#[derive(Clone, Copy, Debug, PartialEq, Eq, Structural)]
pub enum Stage {
    /// Dispatch-table entries, read through the type pointers.
    Dispatch,
    /// Displacements, read from the entries' code.
    Displacement,
    /// Name pointers, read from the descriptors.
    DescriptorName,
    /// Kind-name bytes.
    KindName,
    /// Display-name pointers, read from the side table.
    NameSlot,
    /// Display-name bytes.
    DisplayName,
    /// Every pass has been absorbed.
    Done,
}

/// What each address of a pending batch holds.
#[derive(Clone, Copy, Debug, PartialEq, Eq, Structural)]
pub enum ReadKind {
    /// A 64-bit pointer.
    Pointer,
    /// A signed 32-bit displacement.
    Displacement,
    /// A 32-byte name buffer.
    NameBytes,
}

pub open spec fn kind_of(stage: Stage) -> Option<ReadKind> {
    match stage {
        Stage::Dispatch | Stage::DescriptorName | Stage::NameSlot => Some(ReadKind::Pointer),
        Stage::Displacement => Some(ReadKind::Displacement),
        Stage::KindName | Stage::DisplayName => Some(ReadKind::NameBytes),
        Stage::Done => None,
    }
}

pub open spec fn next_stage(stage: Stage) -> Stage {
    match stage {
        Stage::Dispatch => Stage::Displacement,
        Stage::Displacement => Stage::DescriptorName,
        Stage::DescriptorName => Stage::KindName,
        Stage::KindName => Stage::NameSlot,
        Stage::NameSlot => Stage::DisplayName,
        Stage::DisplayName => Stage::Done,
        Stage::Done => Stage::Done,
    }
}

pub struct Resolution {
    bases: Vec<u64>,
    cols: BaseColumns,
    module_base: u64,
    entries: Vec<u64>,
    descriptors: Vec<u64>,
    name_ptrs: Vec<u64>,
    class_names: Vec<String>,
    slot_ptrs: Vec<u64>,
    names: Vec<String>,
    stage: Stage,
}

impl Resolution {
    pub closed spec fn stage_of(&self) -> Stage {
        self.stage
    }

    pub closed spec fn bases_of(&self) -> Seq<u64> {
        self.bases@
    }

    pub closed spec fn columns(&self) -> BaseColumns {
        self.cols
    }

    pub closed spec fn module_base_of(&self) -> u64 {
        self.module_base
    }

    pub closed spec fn entries_so_far(&self) -> Seq<u64> {
        self.entries@
    }

    pub closed spec fn descriptors_so_far(&self) -> Seq<u64> {
        self.descriptors@
    }

    pub closed spec fn name_ptrs_so_far(&self) -> Seq<u64> {
        self.name_ptrs@
    }

    pub closed spec fn kind_names_so_far(&self) -> Seq<Seq<char>> {
        texts(self.class_names@)
    }

    pub closed spec fn slot_ptrs_so_far(&self) -> Seq<u64> {
        self.slot_ptrs@
    }

    pub closed spec fn display_names_so_far(&self) -> Seq<Seq<char>> {
        texts(self.names@)
    }

    /// Begins a resolution of `bases` from the reads of the base-fields
    /// pass; the next pass reads the dispatch entries.
    pub fn start(bases: Vec<u64>, reads: &Vec<BaseFieldReads>, module_base: u64) -> (r: Resolution)
        ensures
            r.stage_of() == Stage::Dispatch,
            r.bases_of() == bases@,
            columns_settle(r.columns(), reads@),
            r.module_base_of() == module_base,
    {
        Resolution {
            bases,
            cols: settle_base_fields(reads),
            module_base,
            entries: Vec::new(),
            descriptors: Vec::new(),
            name_ptrs: Vec::new(),
            class_names: Vec::new(),
            slot_ptrs: Vec::new(),
            names: Vec::new(),
            stage: Stage::Dispatch,
        }
    }

    pub fn stage(&self) -> (r: Stage)
        ensures
            r == self.stage_of(),
    {
        self.stage
    }

    /// What the pending batch reads, or `None` once every pass is done.
    pub fn read_kind(&self) -> (r: Option<ReadKind>)
        ensures
            r == kind_of(self.stage_of()),
    {
        match self.stage {
            Stage::Dispatch | Stage::DescriptorName | Stage::NameSlot => Some(ReadKind::Pointer),
            Stage::Displacement => Some(ReadKind::Displacement),
            Stage::KindName | Stage::DisplayName => Some(ReadKind::NameBytes),
            Stage::Done => None,
        }
    }

    /// The addresses of the pending batch, in the order the reads are to be
    /// handed back: one per slot whose previous pointer (or display-name
    /// index) leads somewhere, none once every pass is done.
    pub fn requests(&self) -> (r: Vec<u64>)
        ensures
            match self.stage_of() {
                Stage::Dispatch => requests_match(
                    nonnull_mask(self.columns().type_ptrs@),
                    offset_all(self.columns().type_ptrs@, DISPATCH_ENTRY_OFFSET),
                    r@,
                ),
                Stage::Displacement => requests_match(
                    nonnull_mask(self.entries_so_far()),
                    offset_all(self.entries_so_far(), DISPLACEMENT_OFFSET),
                    r@,
                ),
                Stage::DescriptorName => requests_match(
                    nonnull_mask(self.descriptors_so_far()),
                    offset_all(self.descriptors_so_far(), DESCRIPTOR_NAME_OFFSET),
                    r@,
                ),
                Stage::KindName => requests_match(
                    nonnull_mask(self.name_ptrs_so_far()),
                    offset_all(self.name_ptrs_so_far(), 0),
                    r@,
                ),
                Stage::NameSlot => requests_match(
                    slot_mask(self.columns().name_indexes@, self.module_base_of()),
                    slot_addrs(self.columns().name_indexes@, self.module_base_of()),
                    r@,
                ),
                Stage::DisplayName => requests_match(
                    nonnull_mask(self.slot_ptrs_so_far()),
                    offset_all(self.slot_ptrs_so_far(), 0),
                    r@,
                ),
                Stage::Done => r@.len() == 0,
            },
    {
        match self.stage {
            Stage::Dispatch => chain_requests(&self.cols.type_ptrs, DISPATCH_ENTRY_OFFSET),
            Stage::Displacement => chain_requests(&self.entries, DISPLACEMENT_OFFSET),
            Stage::DescriptorName => chain_requests(&self.descriptors, DESCRIPTOR_NAME_OFFSET),
            Stage::KindName => chain_requests(&self.name_ptrs, 0),
            Stage::NameSlot => name_slot_requests(&self.cols.name_indexes, self.module_base),
            Stage::DisplayName => chain_requests(&self.slot_ptrs, 0),
            Stage::Done => Vec::new(),
        }
    }

    /// Absorbs the pointers read by the pending pass, one per request in
    /// request order; a failed read is a null pointer.
    pub fn absorb_pointers(&mut self, reads: &Vec<Option<u64>>)
        requires
            kind_of(old(self).stage_of()) == Some(ReadKind::Pointer),
        ensures
            final(self).stage_of() == next_stage(old(self).stage_of()),
            final(self).bases_of() == old(self).bases_of(),
            final(self).columns() == old(self).columns(),
            final(self).module_base_of() == old(self).module_base_of(),
            final(self).descriptors_so_far() == old(self).descriptors_so_far(),
            final(self).kind_names_so_far() == old(self).kind_names_so_far(),
            final(self).display_names_so_far() == old(self).display_names_so_far(),
            old(self).stage_of() == Stage::Dispatch ==> {
                &&& final(self).entries_so_far() == entries_of(old(self).columns().type_ptrs@, reads@)
                &&& final(self).name_ptrs_so_far() == old(self).name_ptrs_so_far()
                &&& final(self).slot_ptrs_so_far() == old(self).slot_ptrs_so_far()
            },
            old(self).stage_of() == Stage::DescriptorName ==> {
                &&& final(self).entries_so_far() == old(self).entries_so_far()
                &&& final(self).name_ptrs_so_far() == name_ptrs_of(
                    old(self).descriptors_so_far(),
                    reads@,
                )
                &&& final(self).slot_ptrs_so_far() == old(self).slot_ptrs_so_far()
            },
            old(self).stage_of() == Stage::NameSlot ==> {
                &&& final(self).entries_so_far() == old(self).entries_so_far()
                &&& final(self).name_ptrs_so_far() == old(self).name_ptrs_so_far()
                &&& final(self).slot_ptrs_so_far() == Seq::new(
                    old(self).columns().name_indexes@.len(),
                    |i: int|
                        spread_at(
                            slot_mask(old(self).columns().name_indexes@, old(self).module_base_of()),
                            reads@,
                            0u64,
                            i,
                        ),
                )
            },
    {
        match self.stage {
            Stage::Dispatch => {
                self.entries = chain_results(&self.cols.type_ptrs, reads, 0u64);
                assert(self.entries@ =~= entries_of(self.cols.type_ptrs@, reads@));
                self.stage = Stage::Displacement;
            },
            Stage::DescriptorName => {
                self.name_ptrs = chain_results(&self.descriptors, reads, 0u64);
                assert(self.name_ptrs@ =~= name_ptrs_of(old(self).descriptors@, reads@));
                self.stage = Stage::KindName;
            },
            _ => {
                let slots = name_slot_results(&self.cols.name_indexes, self.module_base, reads);
                self.slot_ptrs = slots;
                assert(self.slot_ptrs@ =~= Seq::new(
                    self.cols.name_indexes@.len(),
                    |i: int| spread_at(slot_mask(self.cols.name_indexes@, self.module_base), reads@, 0u64, i),
                ));
                self.stage = Stage::DisplayName;
            },
        }
    }

    /// Absorbs the displacements read by the pending pass and decodes the
    /// descriptor addresses; a failed read counts as a zero displacement.
    pub fn absorb_displacements(&mut self, reads: &Vec<Option<i32>>)
        requires
            old(self).stage_of() == Stage::Displacement,
        ensures
            final(self).stage_of() == Stage::DescriptorName,
            final(self).bases_of() == old(self).bases_of(),
            final(self).columns() == old(self).columns(),
            final(self).module_base_of() == old(self).module_base_of(),
            final(self).entries_so_far() == old(self).entries_so_far(),
            final(self).descriptors_so_far() == descriptors_of(
                old(self).entries_so_far(),
                disps_of(old(self).entries_so_far(), reads@),
            ),
            final(self).name_ptrs_so_far() == old(self).name_ptrs_so_far(),
            final(self).kind_names_so_far() == old(self).kind_names_so_far(),
            final(self).slot_ptrs_so_far() == old(self).slot_ptrs_so_far(),
            final(self).display_names_so_far() == old(self).display_names_so_far(),
    {
        let disps = chain_results(&self.entries, reads, 0i32);
        self.descriptors = descriptor_addresses(&self.entries, &disps);
        assert(self.descriptors@ =~= descriptors_of(self.entries@, disps_of(self.entries@, reads@)));
        self.stage = Stage::DescriptorName;
    }

    /// Absorbs the name buffers read by the pending pass; a slot that was
    /// not read, or whose read failed, gets the empty string.
    pub fn absorb_names(&mut self, reads: &Vec<Option<[u8; 32]>>)
        requires
            kind_of(old(self).stage_of()) == Some(ReadKind::NameBytes),
        ensures
            final(self).stage_of() == next_stage(old(self).stage_of()),
            final(self).bases_of() == old(self).bases_of(),
            final(self).columns() == old(self).columns(),
            final(self).module_base_of() == old(self).module_base_of(),
            final(self).entries_so_far() == old(self).entries_so_far(),
            final(self).descriptors_so_far() == old(self).descriptors_so_far(),
            final(self).name_ptrs_so_far() == old(self).name_ptrs_so_far(),
            final(self).slot_ptrs_so_far() == old(self).slot_ptrs_so_far(),
            old(self).stage_of() == Stage::KindName ==> {
                &&& final(self).kind_names_so_far() == Seq::new(
                    old(self).name_ptrs_so_far().len(),
                    |i: int|
                        name_of_read(aligned_at(nonnull_mask(old(self).name_ptrs_so_far()), reads@, i)),
                )
                &&& final(self).display_names_so_far() == old(self).display_names_so_far()
            },
            old(self).stage_of() == Stage::DisplayName ==> {
                &&& final(self).kind_names_so_far() == old(self).kind_names_so_far()
                &&& final(self).display_names_so_far() == Seq::new(
                    old(self).slot_ptrs_so_far().len(),
                    |i: int|
                        name_of_read(aligned_at(nonnull_mask(old(self).slot_ptrs_so_far()), reads@, i)),
                )
            },
    {
        if self.stage == Stage::KindName {
            self.class_names = settle_names(&self.name_ptrs, reads);
            assert(texts(self.class_names@) =~= Seq::new(
                self.name_ptrs@.len(),
                |i: int| name_of_read(aligned_at(nonnull_mask(self.name_ptrs@), reads@, i)),
            ));
            self.stage = Stage::NameSlot;
        } else {
            self.names = settle_names(&self.slot_ptrs, reads);
            assert(texts(self.names@) =~= Seq::new(
                self.slot_ptrs@.len(),
                |i: int| name_of_read(aligned_at(nonnull_mask(self.slot_ptrs@), reads@, i)),
            ));
            self.stage = Stage::Done;
        }
    }

    /// One record per base, in base order, zipped from every pass.
    pub fn finish(&self) -> (r: Vec<Entity>)
        ensures
            r@.len() == self.bases_of().len(),
            forall|i: int|
                0 <= i < self.bases_of().len() ==> r@[i]@ == record_at(
                    self.bases_of(),
                    self.columns(),
                    self.kind_names_so_far(),
                    self.display_names_so_far(),
                    i,
                ),
    {
        assemble(&self.bases, &self.cols, &self.class_names, &self.names)
    }
}

} // verus!
