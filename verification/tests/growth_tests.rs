use voxelcore::coords::{ChunkPos, WorldPos};
use voxelcore::growth::{
    scan_chunk_for_saplings, update_crop_growth, update_sapling_growth, GrowthTimers,
    SAPLING_GROW_MAX_MS, SAPLING_GROW_MIN_MS,
};
use voxelcore::store::ChunkStore;
use voxelcore::stream::StreamingManager;
use voxelcore::world::{read_block, write_block};
use voxelcore::{BlockType, Chunk};

#[test]
fn register_is_idempotent() {
    let mut t = GrowthTimers::new();
    let p = WorldPos::new(1, 2, 3);
    t.register(p, 5000);
    assert_eq!(t.len(), 1);
    // Registering again neither duplicates nor resets the timer.
    t.register(p, 9999);
    assert_eq!(t.len(), 1);
    let ready = t.tick(5000);
    assert_eq!(ready, vec![p]);
    assert_eq!(t.len(), 0);
}

#[test]
fn tick_decrements_and_saturates() {
    let mut t = GrowthTimers::new();
    let a = WorldPos::new(0, 0, 0);
    let b = WorldPos::new(1, 0, 0);
    t.register(a, 1000);
    t.register(b, 3000);
    let ready = t.tick(1500);
    assert_eq!(ready, vec![a]);
    assert_eq!(t.len(), 1);
    let ready = t.tick(1500);
    assert_eq!(ready, vec![b]);
    assert_eq!(t.len(), 0);
}

fn loaded_world() -> (StreamingManager, ChunkStore) {
    let mut manager = StreamingManager::new(1, 2, 10000, 8);
    let mut store = ChunkStore::new();
    let viewer = ChunkPos::new(0, 4, 0);
    loop {
        let plan = manager.plan_tick(&mut store, viewer);
        if plan.to_load.is_empty() {
            break;
        }
        for p in plan.to_load {
            manager.complete_load(&mut store, p, Chunk::default());
        }
    }
    (manager, store)
}

#[test]
fn scan_registers_saplings_once() {
    let (_, mut store) = loaded_world();
    write_block(&mut store, WorldPos::new(3, 65, 3), BlockType::OakSapling);
    let mut t = GrowthTimers::new();
    scan_chunk_for_saplings(&mut t, &store, ChunkPos::new(0, 4, 0));
    assert_eq!(t.len(), 1);
    assert!(t.contains(WorldPos::new(3, 65, 3)));
    // The chunk is remembered as scanned; a second scan adds nothing.
    scan_chunk_for_saplings(&mut t, &store, ChunkPos::new(0, 4, 0));
    assert_eq!(t.len(), 1);
}

#[test]
fn sapling_grows_into_tree_when_ripe() {
    let (mut manager, mut store) = loaded_world();
    // Grass underfoot, sapling on top, open sky above.
    write_block(&mut store, WorldPos::new(8, 64, 8), BlockType::Grass);
    let sapling = WorldPos::new(8, 65, 8);
    write_block(&mut store, sapling, BlockType::OakSapling);
    let mut t = GrowthTimers::new();
    t.register(sapling, 1000);
    update_sapling_growth(&mut t, &mut store, &mut manager, SAPLING_GROW_MAX_MS);
    let base = read_block(&store, sapling);
    assert!(base == BlockType::OakLog || base == BlockType::BirchLog);
    // The trunk rises at least five cells.
    for dy in 0..5 {
        let b = read_block(&store, WorldPos::new(8, 65 + dy, 8));
        assert!(b == BlockType::OakLog || b == BlockType::BirchLog);
    }
    assert_eq!(t.len(), 0);
}

#[test]
fn blocked_sapling_defers_growth() {
    let (mut manager, mut store) = loaded_world();
    let sapling = WorldPos::new(8, 65, 8);
    write_block(&mut store, sapling, BlockType::OakSapling);
    // A stone ceiling directly above blocks growth.
    write_block(&mut store, WorldPos::new(8, 67, 8), BlockType::Stone);
    let mut t = GrowthTimers::new();
    t.register(sapling, 1000);
    update_sapling_growth(&mut t, &mut store, &mut manager, 2000);
    assert_eq!(read_block(&store, sapling), BlockType::OakSapling);
    // Still tracked, with a fresh delay in the configured band.
    assert_eq!(t.len(), 1);
    let ready = t.tick(SAPLING_GROW_MIN_MS - 1);
    assert!(ready.is_empty());
}

#[test]
fn broken_sapling_stops_being_tracked() {
    let (mut manager, mut store) = loaded_world();
    let sapling = WorldPos::new(4, 65, 4);
    write_block(&mut store, sapling, BlockType::OakSapling);
    let mut t = GrowthTimers::new();
    t.register(sapling, 1000);
    write_block(&mut store, sapling, BlockType::Air);
    update_sapling_growth(&mut t, &mut store, &mut manager, 10);
    assert_eq!(t.len(), 0);
}

#[test]
fn wheat_advances_one_stage_per_ripening() {
    let (mut manager, mut store) = loaded_world();
    let crop = WorldPos::new(5, 65, 5);
    write_block(&mut store, crop, BlockType::WheatStage0);
    let mut t = GrowthTimers::new();
    t.register(crop, 100);
    update_crop_growth(&mut t, &mut store, &mut manager, 200);
    assert_eq!(read_block(&store, crop), BlockType::WheatStage1);
    assert_eq!(t.len(), 1);
    // Ripen twice more: fully grown wheat stops being tracked.
    update_crop_growth(&mut t, &mut store, &mut manager, 40000);
    assert_eq!(read_block(&store, crop), BlockType::WheatStage2);
    update_crop_growth(&mut t, &mut store, &mut manager, 40000);
    assert_eq!(read_block(&store, crop), BlockType::WheatStage3);
    assert_eq!(t.len(), 0);
}

#[test]
fn covered_wheat_waits() {
    let (mut manager, mut store) = loaded_world();
    let crop = WorldPos::new(5, 65, 5);
    write_block(&mut store, crop, BlockType::WheatStage1);
    write_block(&mut store, WorldPos::new(5, 66, 5), BlockType::Stone);
    let mut t = GrowthTimers::new();
    t.register(crop, 100);
    update_crop_growth(&mut t, &mut store, &mut manager, 200);
    assert_eq!(read_block(&store, crop), BlockType::WheatStage1);
    assert_eq!(t.len(), 1);
}
