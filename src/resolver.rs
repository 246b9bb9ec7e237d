//! The multi-pass pointer-chain resolver. Each pass is a pair of pure
//! functions: one lists the addresses to read, the other settles what came
//! back into an array aligned with the base-address list. Slots that were
//! null in an earlier pass carry a null placeholder forward and are never
//! read again.
use vstd::prelude::*;
use crate::batch::{aligned_at, align_reads, pick_requests, requests_match, spread_at, spread_reads};
use crate::entities::{decode_name, name_text, zero_vec, Entity, EntityView, RawVec3};
use crate::geometry::origin_addr_of;
use crate::offsets::{EntityOffsets, GlobalOffsets, PositionOffsets};

verus! {

/// Offset of the type pointer inside an entity.
pub const TYPE_PTR_OFFSET: u64 = 8 * 3;

/// Offset, inside the dispatch table, of the entry that leads to the type
/// descriptor.
pub const DISPATCH_ENTRY_OFFSET: u64 = 8 * 3;

/// Offset of the signed 32-bit displacement inside the entry's code.
pub const DISPLACEMENT_OFFSET: u64 = 3;

/// Length of the instruction the displacement is relative to.
pub const INSTRUCTION_LENGTH: u64 = 7;

/// Offset of the name pointer inside a type descriptor.
pub const DESCRIPTOR_NAME_OFFSET: u64 = 0x10;

/// Size of one display-name side-table slot.
pub const NAME_ENTRY_STRIDE: u64 = 0x18;

/// Addresses of the base fields of one entity.
#[derive(Clone, Copy, Debug, PartialEq, Eq, Structural)]
pub struct BaseFieldAddrs {
    pub origin: u64,
    pub team: u64,
    pub health: u64,
    pub shield: u64,
    pub name_index: u64,
    pub type_ptr: u64,
}

pub open spec fn base_field_addrs_of(base: u64) -> BaseFieldAddrs {
    BaseFieldAddrs {
        origin: base.wrapping_add(PositionOffsets::ORIGIN),
        team: base.wrapping_add(EntityOffsets::TEAM),
        health: base.wrapping_add(EntityOffsets::HEALTH),
        shield: base.wrapping_add(EntityOffsets::SHIELD),
        name_index: base.wrapping_add(EntityOffsets::NAME_INDEX),
        type_ptr: base.wrapping_add(TYPE_PTR_OFFSET),
    }
}

/// The reads of the base-fields pass for one entity; `None` is a failed read.
#[derive(Clone, Copy, Debug, PartialEq, Eq, Structural)]
pub struct BaseFieldReads {
    pub origin: Option<RawVec3>,
    pub team: Option<u32>,
    pub health: Option<u32>,
    pub shield: Option<u32>,
    pub name_index: Option<i32>,
    pub type_ptr: Option<u64>,
}

/// The settled base fields, one column per field, aligned with the bases.
pub struct BaseColumns {
    pub origins: Vec<RawVec3>,
    pub teams: Vec<u32>,
    pub healths: Vec<u32>,
    pub shields: Vec<u32>,
    pub name_indexes: Vec<i32>,
    pub type_ptrs: Vec<u64>,
}

pub open spec fn or_default<T>(v: Option<T>, default: T) -> T {
    match v {
        Some(x) => x,
        None => default,
    }
}

/// The columns hold, row by row, the reads with their documented defaults:
/// zero vector, zero scalars, `-1` for the name index, null type pointer.
pub open spec fn columns_settle(c: BaseColumns, reads: Seq<BaseFieldReads>) -> bool {
    &&& c.origins@.len() == reads.len()
    &&& c.teams@.len() == reads.len()
    &&& c.healths@.len() == reads.len()
    &&& c.shields@.len() == reads.len()
    &&& c.name_indexes@.len() == reads.len()
    &&& c.type_ptrs@.len() == reads.len()
    &&& forall|i: int|
        0 <= i < reads.len() ==> {
            &&& c.origins@[i] == or_default(reads[i].origin, zero_vec())
            &&& c.teams@[i] == or_default(reads[i].team, 0u32)
            &&& c.healths@[i] == or_default(reads[i].health, 0u32)
            &&& c.shields@[i] == or_default(reads[i].shield, 0u32)
            &&& c.name_indexes@[i] == or_default(reads[i].name_index, -1i32)
            &&& c.type_ptrs@[i] == or_default(reads[i].type_ptr, 0u64)
        }
}

/// The six field addresses of every base, in base order.
pub fn base_field_requests(bases: &Vec<u64>) -> (r: Vec<BaseFieldAddrs>)
    ensures
        r@.len() == bases@.len(),
        forall|i: int| 0 <= i < bases@.len() ==> r@[i] == base_field_addrs_of(bases@[i]),
{
    let mut r: Vec<BaseFieldAddrs> = Vec::new();
    let mut i: usize = 0;
    while i < bases.len()
        invariant
            i <= bases@.len(),
            r@.len() == i,
            forall|j: int| 0 <= j < i ==> r@[j] == base_field_addrs_of(bases@[j]),
        decreases bases@.len() - i,
    {
        let base = bases[i];
        r.push(
            BaseFieldAddrs {
                origin: base.wrapping_add(PositionOffsets::ORIGIN),
                team: base.wrapping_add(EntityOffsets::TEAM),
                health: base.wrapping_add(EntityOffsets::HEALTH),
                shield: base.wrapping_add(EntityOffsets::SHIELD),
                name_index: base.wrapping_add(EntityOffsets::NAME_INDEX),
                type_ptr: base.wrapping_add(TYPE_PTR_OFFSET),
            },
        );
        i = i + 1;
    }
    r
}

/// Settles the base-fields pass: each failed read becomes its default.
pub fn settle_base_fields(reads: &Vec<BaseFieldReads>) -> (r: BaseColumns)
    ensures
        columns_settle(r, reads@),
{
    let mut c = BaseColumns {
        origins: Vec::new(),
        teams: Vec::new(),
        healths: Vec::new(),
        shields: Vec::new(),
        name_indexes: Vec::new(),
        type_ptrs: Vec::new(),
    };
    let mut i: usize = 0;
    while i < reads.len()
        invariant
            i <= reads@.len(),
            columns_settle(c, reads@.take(i as int)),
        decreases reads@.len() - i,
    {
        let rd = reads[i];
        c.origins.push(
            match rd.origin {
                Some(v) => v,
                None => RawVec3::zero(),
            },
        );
        c.teams.push(
            match rd.team {
                Some(v) => v,
                None => 0,
            },
        );
        c.healths.push(
            match rd.health {
                Some(v) => v,
                None => 0,
            },
        );
        c.shields.push(
            match rd.shield {
                Some(v) => v,
                None => 0,
            },
        );
        c.name_indexes.push(
            match rd.name_index {
                Some(v) => v,
                None => -1,
            },
        );
        c.type_ptrs.push(
            match rd.type_ptr {
                Some(v) => v,
                None => 0,
            },
        );
        i = i + 1;
        assert(reads@.take(i as int).drop_last() == reads@.take(i - 1));
    }
    assert(reads@.take(reads@.len() as int) == reads@);
    c
}

/// Which slots hold a non-null pointer.
pub open spec fn nonnull_mask(ptrs: Seq<u64>) -> Seq<bool> {
    Seq::new(ptrs.len(), |i: int| ptrs[i] != 0)
}

/// Every pointer moved by `off`.
pub open spec fn offset_all(ptrs: Seq<u64>, off: u64) -> Seq<u64> {
    Seq::new(ptrs.len(), |i: int| ptrs[i].wrapping_add(off))
}

fn nonnull(ptrs: &Vec<u64>) -> (r: Vec<bool>)
    ensures
        r@ == nonnull_mask(ptrs@),
{
    let mut r: Vec<bool> = Vec::new();
    let mut i: usize = 0;
    while i < ptrs.len()
        invariant
            i <= ptrs@.len(),
            r@.len() == i,
            forall|j: int| 0 <= j < i ==> r@[j] == (ptrs@[j] != 0),
        decreases ptrs@.len() - i,
    {
        r.push(ptrs[i] != 0);
        i = i + 1;
    }
    assert(r@ == nonnull_mask(ptrs@));
    r
}

fn offset_each(ptrs: &Vec<u64>, off: u64) -> (r: Vec<u64>)
    ensures
        r@ == offset_all(ptrs@, off),
{
    let mut r: Vec<u64> = Vec::new();
    let mut i: usize = 0;
    while i < ptrs.len()
        invariant
            i <= ptrs@.len(),
            r@.len() == i,
            forall|j: int| 0 <= j < i ==> r@[j] == ptrs@[j].wrapping_add(off),
        decreases ptrs@.len() - i,
    {
        r.push(ptrs[i].wrapping_add(off));
        i = i + 1;
    }
    assert(r@ == offset_all(ptrs@, off));
    r
}

/// The requests of a pointer-following pass: `ptr + offset` for every
/// non-null pointer, in slot order; null slots ask for nothing.
pub fn chain_requests(ptrs: &Vec<u64>, offset: u64) -> (r: Vec<u64>)
    ensures
        requests_match(nonnull_mask(ptrs@), offset_all(ptrs@, offset), r@),
{
    let wanted = nonnull(ptrs);
    let addrs = offset_each(ptrs, offset);
    pick_requests(&wanted, &addrs)
}

/// Settles a pointer-following pass: slot `i` gets its read when `ptrs[i]`
/// is non-null and the read succeeded, else `default`.
pub fn chain_results<T: Copy>(ptrs: &Vec<u64>, reads: &Vec<Option<T>>, default: T) -> (r: Vec<T>)
    ensures
        r@.len() == ptrs@.len(),
        forall|i: int|
            0 <= i < ptrs@.len() ==> r@[i] == spread_at(nonnull_mask(ptrs@), reads@, default, i),
{
    let wanted = nonnull(ptrs);
    spread_reads(&wanted, reads, default)
}

/// The descriptor address decoded from a dispatch entry and the displacement
/// found in its code; a zero displacement means no descriptor.
pub open spec fn descriptor_of(entry: u64, disp: i32) -> u64 {
    if disp == 0 {
        0
    } else {
        entry.wrapping_add_signed(disp as i64).wrapping_add(INSTRUCTION_LENGTH)
    }
}

/// Decodes one descriptor address.
pub fn descriptor_address(entry: u64, disp: i32) -> (r: u64)
    ensures
        r == descriptor_of(entry, disp),
        disp == 0 ==> r == 0,
{
    if disp == 0 {
        0
    } else {
        entry.wrapping_add_signed(disp as i64).wrapping_add(INSTRUCTION_LENGTH)
    }
}

/// Decodes the descriptor address of every slot; a slot with no
/// displacement counts as a zero displacement.
pub fn descriptor_addresses(entries: &Vec<u64>, disps: &Vec<i32>) -> (r: Vec<u64>)
    ensures
        r@.len() == entries@.len(),
        forall|i: int|
            0 <= i < entries@.len() ==> r@[i] == descriptor_of(
                entries@[i],
                if i < disps@.len() {
                    disps@[i]
                } else {
                    0i32
                },
            ),
{
    let mut r: Vec<u64> = Vec::new();
    let mut i: usize = 0;
    while i < entries.len()
        invariant
            i <= entries@.len(),
            r@.len() == i,
            forall|j: int|
                0 <= j < i ==> r@[j] == descriptor_of(
                    entries@[j],
                    if j < disps@.len() {
                        disps@[j]
                    } else {
                        0i32
                    },
                ),
        decreases entries@.len() - i,
    {
        let d: i32 = if i < disps.len() {
            disps[i]
        } else {
            0
        };
        r.push(descriptor_address(entries[i], d));
        i = i + 1;
    }
    r
}

/// The text a name read yields: the decoded buffer, or the empty string for
/// a slot that was not read or whose read failed.
pub open spec fn name_of_read(read: Option<[u8; 32]>) -> Seq<char> {
    match read {
        Some(b) => name_text(b@),
        None => Seq::empty(),
    }
}

/// Settles a name-bytes pass: slot `i` gets the decoded text of its buffer
/// when `ptrs[i]` is non-null and the read succeeded, else the empty string.
pub fn settle_names(ptrs: &Vec<u64>, reads: &Vec<Option<[u8; 32]>>) -> (r: Vec<String>)
    ensures
        r@.len() == ptrs@.len(),
        forall|i: int|
            0 <= i < ptrs@.len() ==> r@[i]@ == name_of_read(
                aligned_at(nonnull_mask(ptrs@), reads@, i),
            ),
{
    let wanted = nonnull(ptrs);
    let aligned = align_reads(&wanted, reads);
    let mut r: Vec<String> = Vec::new();
    let mut i: usize = 0;
    while i < aligned.len()
        invariant
            i <= aligned@.len(),
            aligned@.len() == ptrs@.len(),
            forall|j: int|
                0 <= j < ptrs@.len() ==> aligned@[j] == aligned_at(nonnull_mask(ptrs@), reads@, j),
            r@.len() == i,
            forall|j: int| 0 <= j < i ==> r@[j]@ == name_of_read(aligned@[j]),
        decreases aligned@.len() - i,
    {
        match aligned[i] {
            Some(b) => r.push(decode_name(&b)),
            None => r.push(String::new()),
        }
        i = i + 1;
    }
    r
}

/// Whether a display-name index leads into the side table.
pub open spec fn slot_wanted(index: i32, module_base: u64) -> bool {
    index > 0 && module_base != 0
}

/// The side-table slot of a positive display-name index.
pub open spec fn name_slot_of(module_base: u64, index: i32) -> u64 {
    module_base.wrapping_add(GlobalOffsets::NAME_LIST).wrapping_add(
        ((index - 1) * NAME_ENTRY_STRIDE) as u64,
    )
}

pub open spec fn slot_mask(indexes: Seq<i32>, module_base: u64) -> Seq<bool> {
    Seq::new(indexes.len(), |i: int| slot_wanted(indexes[i], module_base))
}

pub open spec fn slot_addrs(indexes: Seq<i32>, module_base: u64) -> Seq<u64> {
    Seq::new(
        indexes.len(),
        |i: int|
            if indexes[i] > 0 {
                name_slot_of(module_base, indexes[i])
            } else {
                0u64
            },
    )
}

fn slot_plan(indexes: &Vec<i32>, module_base: u64) -> (r: (Vec<bool>, Vec<u64>))
    ensures
        r.0@ == slot_mask(indexes@, module_base),
        r.1@ == slot_addrs(indexes@, module_base),
{
    let mut wanted: Vec<bool> = Vec::new();
    let mut addrs: Vec<u64> = Vec::new();
    let mut i: usize = 0;
    while i < indexes.len()
        invariant
            i <= indexes@.len(),
            wanted@.len() == i,
            addrs@.len() == i,
            forall|j: int| 0 <= j < i ==> wanted@[j] == slot_wanted(indexes@[j], module_base),
            forall|j: int|
                0 <= j < i ==> addrs@[j] == if indexes@[j] > 0 {
                    name_slot_of(module_base, indexes@[j])
                } else {
                    0u64
                },
        decreases indexes@.len() - i,
    {
        let idx = indexes[i];
        wanted.push(idx > 0 && module_base != 0);
        if idx > 0 {
            let step: u64 = (idx as u64 - 1) * NAME_ENTRY_STRIDE;
            addrs.push(module_base.wrapping_add(GlobalOffsets::NAME_LIST).wrapping_add(step));
        } else {
            addrs.push(0);
        }
        i = i + 1;
    }
    assert(wanted@ == slot_mask(indexes@, module_base));
    assert(addrs@ == slot_addrs(indexes@, module_base));
    (wanted, addrs)
}

/// The side-table slots to read: one for every positive index, none when the
/// module base is unknown (zero).
pub fn name_slot_requests(indexes: &Vec<i32>, module_base: u64) -> (r: Vec<u64>)
    ensures
        requests_match(slot_mask(indexes@, module_base), slot_addrs(indexes@, module_base), r@),
{
    let (wanted, addrs) = slot_plan(indexes, module_base);
    pick_requests(&wanted, &addrs)
}

/// Settles the side-table pass: the name pointer of every slot, null where
/// none was read or the read failed.
pub fn name_slot_results(indexes: &Vec<i32>, module_base: u64, reads: &Vec<Option<u64>>) -> (r:
    Vec<u64>)
    ensures
        r@.len() == indexes@.len(),
        forall|i: int|
            0 <= i < indexes@.len() ==> r@[i] == spread_at(
                slot_mask(indexes@, module_base),
                reads@,
                0u64,
                i,
            ),
{
    let (wanted, _addrs) = slot_plan(indexes, module_base);
    spread_reads(&wanted, reads, 0u64)
}

/// Entry `i` of a column, or `default` past its end.
pub open spec fn at_or<T>(s: Seq<T>, i: int, default: T) -> T {
    if 0 <= i < s.len() {
        s[i]
    } else {
        default
    }
}

/// The record assembled for slot `i`.
pub open spec fn record_at(
    bases: Seq<u64>,
    c: BaseColumns,
    class_names: Seq<Seq<char>>,
    names: Seq<Seq<char>>,
    i: int,
) -> EntityView {
    EntityView {
        base: bases[i],
        team: at_or(c.teams@, i, 0u32),
        health: at_or(c.healths@, i, 0u32),
        shield: at_or(c.shields@, i, 0u32),
        name_index: at_or(c.name_indexes@, i, -1i32),
        origin: at_or(c.origins@, i, zero_vec()),
        name: at_or(names, i, Seq::empty()),
        class_name: at_or(class_names, i, Seq::empty()),
    }
}

/// The texts of a list of strings.
pub open spec fn texts(s: Seq<String>) -> Seq<Seq<char>> {
    Seq::new(s.len(), |i: int| s[i]@)
}

/// Zips the per-pass columns into one record per base, in base order; a
/// column that is too short contributes its default.
pub fn assemble(
    bases: &Vec<u64>,
    cols: &BaseColumns,
    class_names: &Vec<String>,
    names: &Vec<String>,
) -> (r: Vec<Entity>)
    ensures
        r@.len() == bases@.len(),
        forall|i: int|
            0 <= i < bases@.len() ==> r@[i]@ == record_at(
                bases@,
                *cols,
                texts(class_names@),
                texts(names@),
                i,
            ),
{
    let mut r: Vec<Entity> = Vec::new();
    let mut i: usize = 0;
    while i < bases.len()
        invariant
            i <= bases@.len(),
            r@.len() == i,
            forall|j: int|
                0 <= j < i ==> r@[j]@ == record_at(
                    bases@,
                    *cols,
                    texts(class_names@),
                    texts(names@),
                    j,
                ),
        decreases bases@.len() - i,
    {
        let team: u32 = if i < cols.teams.len() {
            cols.teams[i]
        } else {
            0
        };
        let health: u32 = if i < cols.healths.len() {
            cols.healths[i]
        } else {
            0
        };
        let shield: u32 = if i < cols.shields.len() {
            cols.shields[i]
        } else {
            0
        };
        let name_index: i32 = if i < cols.name_indexes.len() {
            cols.name_indexes[i]
        } else {
            -1
        };
        let origin = if i < cols.origins.len() {
            cols.origins[i]
        } else {
            RawVec3::zero()
        };
        let name = if i < names.len() {
            names[i].clone()
        } else {
            String::new()
        };
        let class_name = if i < class_names.len() {
            class_names[i].clone()
        } else {
            String::new()
        };
        r.push(
            Entity {
                base: bases[i],
                team,
                health,
                shield,
                name_index,
                origin,
                name,
                class_name,
            },
        );
        i = i + 1;
    }
    r
}

/// The dispatch entries settled from the type pointers and the reads of
/// the type-dispatch pass.
pub open spec fn entries_of(type_ptrs: Seq<u64>, reads: Seq<Option<u64>>) -> Seq<u64> {
    Seq::new(type_ptrs.len(), |i: int| spread_at(nonnull_mask(type_ptrs), reads, 0u64, i))
}

/// The displacements settled from the entries and the reads of the
/// displacement pass.
pub open spec fn disps_of(entries: Seq<u64>, reads: Seq<Option<i32>>) -> Seq<i32> {
    Seq::new(entries.len(), |i: int| spread_at(nonnull_mask(entries), reads, 0i32, i))
}

/// The descriptor address of every slot.
pub open spec fn descriptors_of(entries: Seq<u64>, disps: Seq<i32>) -> Seq<u64> {
    Seq::new(entries.len(), |i: int| descriptor_of(entries[i], disps[i]))
}

/// The name pointers settled from the descriptors and the reads of the
/// descriptor-name-pointer pass.
pub open spec fn name_ptrs_of(descriptors: Seq<u64>, reads: Seq<Option<u64>>) -> Seq<u64> {
    Seq::new(descriptors.len(), |i: int| spread_at(nonnull_mask(descriptors), reads, 0u64, i))
}

/// The kind names that passes two to five yield from the type pointers,
/// given what each pass read.
pub open spec fn kind_names_of(
    type_ptrs: Seq<u64>,
    entry_reads: Seq<Option<u64>>,
    disp_reads: Seq<Option<i32>>,
    ptr_reads: Seq<Option<u64>>,
    buf_reads: Seq<Option<[u8; 32]>>,
) -> Seq<Seq<char>> {
    let entries = entries_of(type_ptrs, entry_reads);
    let descriptors = descriptors_of(entries, disps_of(entries, disp_reads));
    let name_ptrs = name_ptrs_of(descriptors, ptr_reads);
    Seq::new(
        type_ptrs.len(),
        |i: int| name_of_read(aligned_at(nonnull_mask(name_ptrs), buf_reads, i)),
    )
}

/// Index alignment: whatever each pass read (failures, nulls, too few or too
/// many values), every intermediate array has one entry per base, and the
/// assembled records follow the bases one to one.
pub proof fn lemma_index_alignment(
    bases: Seq<u64>,
    c: BaseColumns,
    entry_reads: Seq<Option<u64>>,
    disp_reads: Seq<Option<i32>>,
    ptr_reads: Seq<Option<u64>>,
    buf_reads: Seq<Option<[u8; 32]>>,
    names: Seq<Seq<char>>,
)
    requires
        c.type_ptrs@.len() == bases.len(),
    ensures
        ({
            let entries = entries_of(c.type_ptrs@, entry_reads);
            let descriptors = descriptors_of(entries, disps_of(entries, disp_reads));
            &&& entries.len() == bases.len()
            &&& disps_of(entries, disp_reads).len() == bases.len()
            &&& descriptors.len() == bases.len()
            &&& name_ptrs_of(descriptors, ptr_reads).len() == bases.len()
        }),
        kind_names_of(c.type_ptrs@, entry_reads, disp_reads, ptr_reads, buf_reads).len()
            == bases.len(),
        forall|i: int|
            0 <= i < bases.len() ==> #[trigger] record_at(
                bases,
                c,
                kind_names_of(c.type_ptrs@, entry_reads, disp_reads, ptr_reads, buf_reads),
                names,
                i,
            ).base == bases[i],
{
}

/// Null propagation: an entity whose type pointer is null is read in none of
/// passes two to five, every later pointer of its chain stays null, and its
/// kind name is empty, whatever the passes read for other entities.
pub proof fn lemma_null_type_pointer(
    type_ptrs: Seq<u64>,
    entry_reads: Seq<Option<u64>>,
    disp_reads: Seq<Option<i32>>,
    ptr_reads: Seq<Option<u64>>,
    buf_reads: Seq<Option<[u8; 32]>>,
    i: int,
)
    requires
        0 <= i < type_ptrs.len(),
        type_ptrs[i] == 0,
    ensures
        ({
            let entries = entries_of(type_ptrs, entry_reads);
            let descriptors = descriptors_of(entries, disps_of(entries, disp_reads));
            let name_ptrs = name_ptrs_of(descriptors, ptr_reads);
            &&& !nonnull_mask(type_ptrs)[i]
            &&& entries[i] == 0 && !nonnull_mask(entries)[i]
            &&& descriptors[i] == 0 && !nonnull_mask(descriptors)[i]
            &&& name_ptrs[i] == 0 && !nonnull_mask(name_ptrs)[i]
        }),
        kind_names_of(type_ptrs, entry_reads, disp_reads, ptr_reads, buf_reads)[i] == Seq::<
            char,
        >::empty(),
{
}

/// Zero-displacement policy: a zero displacement gives a null descriptor,
/// whatever the entry address.
pub proof fn lemma_zero_displacement(entry: u64)
    ensures
        descriptor_of(entry, 0) == 0,
{
}

/// Incremental and full refreshes agree on positions: both read the same
/// address of each base, and from the same value read there both settle the
/// same position, the zero vector standing in for a failed read.
pub proof fn lemma_incremental_matches_full(
    bases: Seq<u64>,
    full_reads: Seq<BaseFieldReads>,
    c: BaseColumns,
    origin_reads: Seq<Option<RawVec3>>,
    origins: Seq<RawVec3>,
)
    requires
        full_reads.len() == bases.len(),
        origin_reads.len() == bases.len(),
        columns_settle(c, full_reads),
        origins.len() == origin_reads.len(),
        forall|i: int|
            0 <= i < origins.len() ==> origins[i] == or_default(origin_reads[i], zero_vec()),
        forall|i: int| 0 <= i < bases.len() ==> full_reads[i].origin == origin_reads[i],
    ensures
        forall|i: int|
            0 <= i < bases.len() ==> base_field_addrs_of(bases[i]).origin == origin_addr_of(
                bases[i],
            ),
        c.origins@ == origins,
{
    assert(c.origins@ =~= origins);
}

} // verus!
