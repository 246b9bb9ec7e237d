use dma_sampler::dtb::{dtb_candidates, scan_complete};
use dma_sampler::entities::{Entity, RawVec3};
use dma_sampler::geometry::{
    bounds_requests, follow, origin_requests, settle_bounds, settle_origins, settle_view,
    view_render_slot, BoundsReads, RawBounds, RawMat4,
};
use dma_sampler::globals::{get_module_base, set_module_base, ModuleBaseCell};
use dma_sampler::sampler::{Refresh, Sampler, SamplerConfig};
use dma_sampler::snapshot::{Snapshot, SnapshotSlot};

fn v(x: u32) -> RawVec3 {
    RawVec3 { x, y: x + 1, z: x + 2 }
}

fn entity(base: u64, origin: RawVec3) -> Entity {
    Entity {
        base,
        team: 2,
        health: 80,
        shield: 25,
        name_index: 4,
        origin,
        name: "n".to_string(),
        class_name: "k".to_string(),
    }
}

fn empty_snapshot() -> Snapshot {
    Snapshot { view: RawMat4::identity(), entities: Vec::new(), aabbs: Vec::new() }
}

fn config(n: u32) -> SamplerConfig {
    SamplerConfig { base_tick_ms: 2, max_entries: 128, full_refresh_every_n: n }
}

#[test]
fn first_tick_is_full_refresh() {
    let mut s = Sampler::new(&config(20), empty_snapshot());
    assert_eq!(s.max_entries(), 128);
    assert_eq!(s.begin_tick(), Refresh::Full);
}

#[test]
fn refresh_schedule() {
    let mut s = Sampler::new(&config(3), empty_snapshot());
    assert_eq!(s.begin_tick(), Refresh::Full);
    s.apply_full(Some((vec![0x10], vec![entity(0x10, v(1))])));
    assert_eq!(s.begin_tick(), Refresh::Incremental);
    assert_eq!(s.begin_tick(), Refresh::Full);
    assert_eq!(s.begin_tick(), Refresh::Incremental);
}

#[test]
fn bases_without_entities_keep_the_cache() {
    let mut s = Sampler::new(&config(5), empty_snapshot());
    s.begin_tick();
    s.apply_full(Some((vec![0x10], vec![])));
    assert_eq!(s.begin_tick(), Refresh::Keep);
}

#[test]
fn failed_full_refresh_keeps_previous_cache() {
    let mut s = Sampler::new(&config(2), empty_snapshot());
    s.begin_tick();
    s.apply_full(Some((vec![0x10, 0x20], vec![entity(0x10, v(1)), entity(0x20, v(5))])));
    s.begin_tick();
    s.begin_tick();
    s.apply_full(None);
    assert_eq!(s.cached_bases(), &vec![0x10, 0x20]);
    s.publish(RawMat4::identity(), Vec::new());
    assert_eq!(s.latest().entities.len(), 2);
}

#[test]
fn incremental_refresh_moves_only_positions() {
    let mut s = Sampler::new(&config(10), empty_snapshot());
    s.begin_tick();
    s.apply_full(Some((vec![0x10, 0x20], vec![entity(0x10, v(1)), entity(0x20, v(5))])));
    assert_eq!(s.begin_tick(), Refresh::Incremental);
    s.apply_positions(Some(vec![v(100)]));
    s.publish(RawMat4::identity(), Vec::new());
    let e = &s.latest().entities;
    assert_eq!(e[0].origin, v(100));
    assert_eq!(e[0].team, 2);
    assert_eq!(e[0].health, 80);
    assert_eq!(e[0].shield, 25);
    assert_eq!(e[0].name_index, 4);
    assert_eq!(e[0].name, "n");
    assert_eq!(e[0].class_name, "k");
    assert_eq!(e[1].origin, v(5));
}

#[test]
fn failed_incremental_refresh_leaves_positions_stale() {
    let mut s = Sampler::new(&config(10), empty_snapshot());
    s.begin_tick();
    s.apply_full(Some((vec![0x10], vec![entity(0x10, v(1))])));
    s.begin_tick();
    s.apply_positions(None);
    s.publish(RawMat4::identity(), Vec::new());
    assert_eq!(s.latest().entities[0].origin, v(1));
}

#[test]
fn incremental_positions_match_full_refresh_reads() {
    let bases = vec![0x1000u64, 0x2000];
    let full = dma_sampler::resolver::base_field_requests(&bases);
    let inc = origin_requests(&bases);
    assert_eq!(inc, vec![full[0].origin, full[1].origin]);
    let reads = vec![Some(v(3)), None];
    assert_eq!(settle_origins(&reads), vec![v(3), RawVec3 { x: 0, y: 0, z: 0 }]);
}

#[test]
fn latest_publication_wins() {
    let mut slot = SnapshotSlot::new(empty_snapshot());
    for i in 0..5u64 {
        slot.publish(Snapshot {
            view: RawMat4::identity(),
            entities: vec![entity(i + 1, v(0))],
            aabbs: Vec::new(),
        });
    }
    assert_eq!(slot.version(), 5);
    assert_eq!(slot.latest().entities[0].base, 5);
}

#[test]
fn sampler_publishes_every_tick() {
    let mut s = Sampler::new(&config(4), empty_snapshot());
    let b = RawBounds { origin: v(1), mins: v(2), maxs: v(3) };
    s.begin_tick();
    s.publish(RawMat4::identity(), vec![b]);
    s.publish(settle_view(Some([7; 16])), Vec::new());
    assert_eq!(s.latest().view.cols, [7; 16]);
    assert!(s.latest().aabbs.is_empty());
}

#[test]
fn view_chain_falls_back_to_identity() {
    let m = settle_view(None);
    let mut want = [0u32; 16];
    for i in [0, 5, 10, 15] {
        want[i] = 1.0f32.to_bits();
    }
    assert_eq!(m.cols, want);
    assert_eq!(RawMat4::identity().cols, want);
}

#[test]
fn view_chain_steps() {
    assert_eq!(view_render_slot(0x1_0000), 0x1_0000 + 0x3d3e018);
    assert_eq!(follow(Some(0x500), 0x11a350), Some(0x500 + 0x11a350));
    assert_eq!(follow(Some(0), 0x11a350), None);
    assert_eq!(follow(None, 0), None);
}

#[test]
fn bounds_addresses_and_defaults() {
    let r = bounds_requests(&vec![0x1000]);
    assert_eq!(r[0].origin, 0x1000 + 0x17c);
    assert_eq!(r[0].mins, 0x1000 + 0x3b8 + 0x10);
    assert_eq!(r[0].maxs, 0x1000 + 0x3b8 + 0x1c);
    let b = settle_bounds(&vec![BoundsReads { origin: Some(v(1)), mins: None, maxs: Some(v(9)) }]);
    assert_eq!(b[0].origin, v(1));
    assert_eq!(b[0].mins, RawVec3 { x: 0, y: 0, z: 0 });
    assert_eq!(b[0].maxs, v(9));
}

#[test]
fn module_base_is_set_once() {
    let mut cell = ModuleBaseCell::new();
    assert!(get_module_base(&cell).is_err());
    assert_eq!(set_module_base(&mut cell, 0x1400), Ok(()));
    assert_eq!(get_module_base(&cell), Ok(0x1400));
    assert_eq!(set_module_base(&mut cell, 0x9999), Err("Module base already set"));
    assert_eq!(get_module_base(&cell), Ok(0x1400));
}

#[test]
fn unset_module_base_error() {
    let cell = ModuleBaseCell::new();
    assert_eq!(get_module_base(&cell), Err("Module base not initialized"));
}

#[test]
fn dtb_listing_candidates() {
    let text = b"0004 0 1a2b\n0008 1 ff\n000c 0 zz\n  0010   0 +10 extra\r\n0014 0\n0018 0 AbC";
    assert_eq!(dtb_candidates(&text.to_vec()), vec![0x1a2b, 0x10, 0xabc]);
}

#[test]
fn dtb_listing_edge_cases() {
    assert!(dtb_candidates(&Vec::new()).is_empty());
    let big = b"x 0 ffffffffffffffff\nx 0 10000000000000000\nx 0 +\nx 00 5\n";
    assert_eq!(dtb_candidates(&big.to_vec()), vec![u64::MAX]);
    let no_newline = b"a 0 7";
    assert_eq!(dtb_candidates(&no_newline.to_vec()), vec![7]);
}

#[test]
fn scan_progress() {
    assert!(scan_complete(&b"100".to_vec()));
    assert!(!scan_complete(&b"42".to_vec()));
}
