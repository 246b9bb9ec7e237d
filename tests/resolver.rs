use std::collections::HashMap;

use dma_sampler::batch::spread_reads;
use dma_sampler::entities::{decode_name, Entity, RawVec3};
use dma_sampler::enumerate::{collect_bases, entity_slot_requests};
use dma_sampler::offsets::{EntityOffsets, GlobalOffsets, PositionOffsets};
use dma_sampler::resolution::{ReadKind, Resolution, Stage};
use dma_sampler::resolver::{
    assemble, base_field_requests, chain_requests, chain_results, descriptor_address,
    descriptor_addresses, name_slot_requests, name_slot_results, settle_base_fields,
    settle_names, BaseFieldReads, DESCRIPTOR_NAME_OFFSET, DISPATCH_ENTRY_OFFSET,
    DISPLACEMENT_OFFSET, TYPE_PTR_OFFSET,
};

/// A simulated memory image: typed values at addresses; anything else fails.
#[derive(Default)]
struct Image {
    u64s: HashMap<u64, u64>,
    u32s: HashMap<u64, u32>,
    i32s: HashMap<u64, i32>,
    vecs: HashMap<u64, RawVec3>,
    names: HashMap<u64, [u8; 32]>,
}

fn name_buf(s: &str) -> [u8; 32] {
    let mut b = [0u8; 32];
    b[..s.len()].copy_from_slice(s.as_bytes());
    b
}

fn base_reads(img: &Image, bases: &Vec<u64>) -> Vec<BaseFieldReads> {
    base_field_requests(bases)
        .iter()
        .map(|a| BaseFieldReads {
            origin: img.vecs.get(&a.origin).copied(),
            team: img.u32s.get(&a.team).copied(),
            health: img.u32s.get(&a.health).copied(),
            shield: img.u32s.get(&a.shield).copied(),
            name_index: img.i32s.get(&a.name_index).copied(),
            type_ptr: img.u64s.get(&a.type_ptr).copied(),
        })
        .collect()
}

/// Runs every pass of the resolver against the image, one pass at a time,
/// counting the requests queued by passes two to five.
fn resolve(img: &Image, bases: &Vec<u64>, module_base: u64) -> (Vec<Entity>, usize) {
    let reads = base_reads(img, bases);
    let mut res = Resolution::start(bases.clone(), &reads, module_base);
    let mut queued = 0;
    let mut stages = Vec::new();
    while let Some(kind) = res.read_kind() {
        let stage = res.stage();
        stages.push(stage);
        let req = res.requests();
        if matches!(
            stage,
            Stage::Dispatch | Stage::Displacement | Stage::DescriptorName | Stage::KindName
        ) {
            queued += req.len();
        }
        match kind {
            ReadKind::Pointer => {
                let rd: Vec<Option<u64>> = req.iter().map(|a| img.u64s.get(a).copied()).collect();
                res.absorb_pointers(&rd);
            }
            ReadKind::Displacement => {
                let rd: Vec<Option<i32>> = req.iter().map(|a| img.i32s.get(a).copied()).collect();
                res.absorb_displacements(&rd);
            }
            ReadKind::NameBytes => {
                let rd: Vec<Option<[u8; 32]>> =
                    req.iter().map(|a| img.names.get(a).copied()).collect();
                res.absorb_names(&rd);
            }
        }
    }
    assert_eq!(
        stages,
        vec![
            Stage::Dispatch,
            Stage::Displacement,
            Stage::DescriptorName,
            Stage::KindName,
            Stage::NameSlot,
            Stage::DisplayName
        ]
    );
    assert_eq!(res.stage(), Stage::Done);
    assert!(res.requests().is_empty());
    (res.finish(), queued)
}

/// The same passes driven by hand through the building blocks.
fn resolve_by_pass(img: &Image, bases: &Vec<u64>, module_base: u64) -> Vec<Entity> {
    let cols = settle_base_fields(&base_reads(img, bases));
    let req = chain_requests(&cols.type_ptrs, DISPATCH_ENTRY_OFFSET);
    let rd: Vec<Option<u64>> = req.iter().map(|a| img.u64s.get(a).copied()).collect();
    let entries = chain_results(&cols.type_ptrs, &rd, 0u64);
    let req = chain_requests(&entries, DISPLACEMENT_OFFSET);
    let rd: Vec<Option<i32>> = req.iter().map(|a| img.i32s.get(a).copied()).collect();
    let disps = chain_results(&entries, &rd, 0i32);
    let descriptors = descriptor_addresses(&entries, &disps);
    let req = chain_requests(&descriptors, DESCRIPTOR_NAME_OFFSET);
    let rd: Vec<Option<u64>> = req.iter().map(|a| img.u64s.get(a).copied()).collect();
    let name_ptrs = chain_results(&descriptors, &rd, 0u64);
    let req = chain_requests(&name_ptrs, 0);
    let rd: Vec<Option<[u8; 32]>> = req.iter().map(|a| img.names.get(a).copied()).collect();
    let class_names = settle_names(&name_ptrs, &rd);
    let req = name_slot_requests(&cols.name_indexes, module_base);
    let rd: Vec<Option<u64>> = req.iter().map(|a| img.u64s.get(a).copied()).collect();
    let slot_ptrs = name_slot_results(&cols.name_indexes, module_base, &rd);
    let req = chain_requests(&slot_ptrs, 0);
    let rd: Vec<Option<[u8; 32]>> = req.iter().map(|a| img.names.get(a).copied()).collect();
    let names = settle_names(&slot_ptrs, &rd);
    assemble(bases, &cols, &class_names, &names)
}

const MODULE: u64 = 0x1_4000_0000;

/// Entity at `base` with every field and a full kind-name chain.
fn add_full_entity(img: &mut Image, base: u64, kind: &str, index: i32, name: &str) {
    img.vecs.insert(base + PositionOffsets::ORIGIN, RawVec3 { x: 1, y: 2, z: 3 });
    img.u32s.insert(base + EntityOffsets::TEAM, 7);
    img.u32s.insert(base + EntityOffsets::HEALTH, 100);
    img.u32s.insert(base + EntityOffsets::SHIELD, 50);
    img.i32s.insert(base + EntityOffsets::NAME_INDEX, index);
    let vtable = base + 0x10_0000;
    img.u64s.insert(base + TYPE_PTR_OFFSET, vtable);
    let entry = base + 0x20_0000;
    img.u64s.insert(vtable + DISPATCH_ENTRY_OFFSET, entry);
    img.i32s.insert(entry + DISPLACEMENT_OFFSET, 0x100);
    let descriptor = entry + 0x100 + 7;
    let name_ptr = base + 0x30_0000;
    img.u64s.insert(descriptor + DESCRIPTOR_NAME_OFFSET, name_ptr);
    img.names.insert(name_ptr, name_buf(kind));
    let slot = MODULE + GlobalOffsets::NAME_LIST + (index as u64 - 1) * 0x18;
    let display = base + 0x40_0000;
    img.u64s.insert(slot, display);
    img.names.insert(display, name_buf(name));
}

#[test]
fn end_to_end_null_slot_and_null_type_pointer() {
    let root: u64 = 0x5000;
    let a: u64 = 0x10_0000_0000;
    let b: u64 = 0x20_0000_0000;
    let slots = entity_slot_requests(root, 3);
    let mut img = Image::default();
    img.u64s.insert(slots[0], a);
    img.u64s.insert(slots[1], 0);
    img.u64s.insert(slots[2], b);
    let reads: Vec<Option<u64>> = slots.iter().map(|s| img.u64s.get(s).copied()).collect();
    let bases = collect_bases(&reads);
    assert_eq!(bases, vec![a, b]);

    add_full_entity(&mut img, a, "CPlayer", 1, "alpha");
    img.vecs.insert(b + PositionOffsets::ORIGIN, RawVec3 { x: 9, y: 8, z: 7 });
    img.i32s.insert(b + EntityOffsets::NAME_INDEX, 2);
    img.u64s.insert(b + TYPE_PTR_OFFSET, 0);
    let slot_b = MODULE + GlobalOffsets::NAME_LIST + 0x18;
    img.u64s.insert(slot_b, 0x7000);
    img.names.insert(0x7000, name_buf("bravo"));

    let (ents, queued) = resolve(&img, &bases, MODULE);
    assert_eq!(ents.len(), 2);
    assert_eq!(ents[0].base, a);
    assert_eq!(ents[0].class_name, "CPlayer");
    assert_eq!(ents[0].name, "alpha");
    assert_eq!(ents[0].origin, RawVec3 { x: 1, y: 2, z: 3 });
    assert_eq!(ents[0].team, 7);
    assert_eq!(ents[0].health, 100);
    assert_eq!(ents[0].shield, 50);
    assert_eq!(ents[1].base, b);
    assert_eq!(ents[1].class_name, "");
    assert_eq!(ents[1].name, "bravo");
    assert_eq!(ents[1].origin, RawVec3 { x: 9, y: 8, z: 7 });
    // Only entity A is read in passes two to five: one request each.
    assert_eq!(queued, 4);
}

#[test]
fn records_stay_aligned_when_reads_fail() {
    let bases: Vec<u64> = vec![0x1000_0000, 0x2000_0000, 0x3000_0000];
    let mut img = Image::default();
    add_full_entity(&mut img, bases[1], "CWeapon", 3, "middle");
    let (ents, _) = resolve(&img, &bases, MODULE);
    assert_eq!(ents.len(), 3);
    for (e, b) in ents.iter().zip(bases.iter()) {
        assert_eq!(e.base, *b);
    }
    assert_eq!(ents[0].class_name, "");
    assert_eq!(ents[0].name_index, -1);
    assert_eq!(ents[0].origin, RawVec3 { x: 0, y: 0, z: 0 });
    assert_eq!(ents[1].class_name, "CWeapon");
    assert_eq!(ents[1].name, "middle");
    assert_eq!(ents[2].team, 0);
    assert_eq!(ents[2].name, "");
    let by_pass = resolve_by_pass(&img, &bases, MODULE);
    for (a, b) in ents.iter().zip(by_pass.iter()) {
        assert_eq!(a.base, b.base);
        assert_eq!(a.class_name, b.class_name);
        assert_eq!(a.name, b.name);
        assert_eq!(a.origin, b.origin);
    }
}

#[test]
fn empty_base_list_gives_no_records() {
    let img = Image::default();
    let (ents, queued) = resolve(&img, &Vec::new(), MODULE);
    assert!(ents.is_empty());
    assert_eq!(queued, 0);
}

#[test]
fn null_type_pointer_queues_nothing() {
    let ptrs: Vec<u64> = vec![0, 0x4000, 0, 0x8000];
    let req = chain_requests(&ptrs, DISPATCH_ENTRY_OFFSET);
    assert_eq!(req, vec![0x4000 + 24, 0x8000 + 24]);
    let settled = chain_results(&ptrs, &vec![Some(11u64), None], 0u64);
    assert_eq!(settled, vec![0, 11, 0, 0]);
}

#[test]
fn zero_displacement_gives_null_descriptor() {
    assert_eq!(descriptor_address(0x7fff_0000_1000, 0), 0);
    assert_eq!(descriptor_address(u64::MAX, 0), 0);
    assert_eq!(descriptor_address(0x1000, 0x20), 0x1000 + 0x20 + 7);
    assert_eq!(descriptor_address(0x1000, -0x10), 0x1000 - 0x10 + 7);
}

#[test]
fn descriptor_of_missing_displacement_is_null() {
    let d = descriptor_addresses(&vec![0x1000, 0x2000], &vec![5]);
    assert_eq!(d, vec![0x1000 + 5 + 7, 0]);
}

#[test]
fn partial_batch_keeps_valid_values() {
    let wanted = vec![true, true, false, true, true];
    let reads = vec![Some(10u32), None, Some(30), None];
    let r = spread_reads(&wanted, &reads, 0u32);
    assert_eq!(r, vec![10, 0, 0, 30, 0]);
}

#[test]
fn missing_reads_become_defaults() {
    let wanted = vec![true, true, true];
    let r = spread_reads(&wanted, &vec![Some(4u64)], 9u64);
    assert_eq!(r, vec![4, 9, 9]);
}

#[test]
fn base_field_defaults() {
    let reads = vec![
        BaseFieldReads {
            origin: None,
            team: None,
            health: Some(5),
            shield: None,
            name_index: None,
            type_ptr: None,
        },
    ];
    let c = settle_base_fields(&reads);
    assert_eq!(c.origins, vec![RawVec3 { x: 0, y: 0, z: 0 }]);
    assert_eq!(c.teams, vec![0]);
    assert_eq!(c.healths, vec![5]);
    assert_eq!(c.name_indexes, vec![-1]);
    assert_eq!(c.type_ptrs, vec![0]);
}

#[test]
fn base_field_addresses() {
    let r = base_field_requests(&vec![0x1000]);
    assert_eq!(r[0].origin, 0x1000 + 0x17c);
    assert_eq!(r[0].team, 0x1000 + 0x334);
    assert_eq!(r[0].health, 0x1000 + 0x324);
    assert_eq!(r[0].shield, 0x1000 + 0x1a0);
    assert_eq!(r[0].name_index, 0x1000 + 0x38);
    assert_eq!(r[0].type_ptr, 0x1000 + 24);
}

#[test]
fn name_slots_only_for_positive_indexes() {
    let idx = vec![-1, 0, 1, 3];
    let r = name_slot_requests(&idx, MODULE);
    assert_eq!(
        r,
        vec![MODULE + 0x8cbe910, MODULE + 0x8cbe910 + 2 * 0x18]
    );
    assert!(name_slot_requests(&idx, 0).is_empty());
    let p = name_slot_results(&idx, MODULE, &vec![Some(0x99), None]);
    assert_eq!(p, vec![0, 0, 0x99, 0]);
}

#[test]
fn name_buffer_stops_at_first_zero() {
    let mut b = name_buf("abc");
    b[5] = b'x';
    assert_eq!(decode_name(&b), "abc");
}

#[test]
fn name_buffer_without_zero_uses_all_bytes() {
    let b = [b'z'; 32];
    assert_eq!(decode_name(&b), "z".repeat(32));
}

#[test]
fn name_buffer_invalid_utf8_is_replaced() {
    let mut b = [0u8; 32];
    b[0] = b'a';
    b[1] = 0xff;
    b[2] = b'b';
    assert_eq!(decode_name(&b), "a\u{fffd}b");
    assert_eq!(decode_name(&[0u8; 32]), "");
}

#[test]
fn failed_name_read_is_empty() {
    let names = settle_names(&vec![0x10, 0x20, 0], &vec![None, Some(name_buf("ok"))]);
    assert_eq!(names, vec!["".to_string(), "ok".to_string(), "".to_string()]);
}

#[test]
fn enumeration_slot_addresses() {
    assert_eq!(entity_slot_requests(0x1000, 3), vec![0x1020, 0x1040, 0x1060]);
    assert!(entity_slot_requests(0x1000, 0).is_empty());
}

#[test]
fn enumeration_skips_null_and_failed_slots() {
    let reads = vec![Some(0xa), None, Some(0), Some(0xb)];
    assert_eq!(collect_bases(&reads), vec![0xa, 0xb]);
}

#[test]
fn assemble_tolerates_short_columns() {
    let c = settle_base_fields(&vec![]);
    let ents = assemble(&vec![0x10, 0x20], &c, &vec!["k".to_string()], &vec![]);
    assert_eq!(ents.len(), 2);
    assert_eq!(ents[0].class_name, "k");
    assert_eq!(ents[1].class_name, "");
    assert_eq!(ents[1].name_index, -1);
    assert_eq!(ents[1].base, 0x20);
}
