use voxelcore::coords::{ChunkPos, WorldPos};
use voxelcore::store::ChunkStore;
use voxelcore::stream::StreamingManager;
use voxelcore::world::{read_block, request_remesh, write_block};
use voxelcore::{BlockType, Chunk};
use voxelcore::codec::decode_chunk_payload;
use voxelcore::mesh::build_chunk_mesh;

fn drain_loads(manager: &mut StreamingManager, store: &mut ChunkStore, viewer: ChunkPos) -> usize {
    let mut ticks = 0;
    loop {
        let plan = manager.plan_tick(store, viewer);
        ticks += 1;
        if plan.to_load.is_empty() {
            return ticks;
        }
        for p in plan.to_load {
            let r = manager.complete_load(store, p, Chunk::default());
            assert!(r.is_some());
        }
        assert!(ticks < 10000);
    }
}

#[test]
fn streaming_converges_to_candidate_set() {
    // For a stationary viewer, once the load queue drains the loaded set
    // equals exactly the candidate set: every coordinate within the render
    // distance and the world's vertical span, nothing else, no duplicates.
    let rd = 2;
    let wh = 2;
    let mut manager = StreamingManager::new(rd, 3, 4, wh);
    let mut store = ChunkStore::new();
    let viewer = ChunkPos::new(10, 0, -7);
    drain_loads(&mut manager, &mut store, viewer);
    let mut count = 0;
    for x in (viewer.x - rd - 2)..=(viewer.x + rd + 2) {
        for z in (viewer.z - rd - 2)..=(viewer.z + rd + 2) {
            for y in -2..(wh + 2) {
                let p = ChunkPos::new(x, y, z);
                let candidate = (x - viewer.x).abs() <= rd
                    && (z - viewer.z).abs() <= rd
                    && 0 <= y
                    && y < wh;
                assert_eq!(manager.is_loaded(p), candidate);
                assert_eq!(store.contains(p), candidate);
                if candidate {
                    count += 1;
                }
            }
        }
    }
    assert_eq!(count, 5 * 5 * 2);
}

#[test]
fn load_cap_bounds_each_tick() {
    let mut manager = StreamingManager::new(2, 3, 4, 2);
    let mut store = ChunkStore::new();
    let viewer = ChunkPos::new(0, 0, 0);
    let plan = manager.plan_tick(&mut store, viewer);
    assert_eq!(plan.to_load.len(), 4);
    assert!(plan.despawned.is_empty());
    assert!(plan.to_persist.is_empty());
}

#[test]
fn loads_come_closest_first() {
    let mut manager = StreamingManager::new(2, 3, 100, 1);
    let mut store = ChunkStore::new();
    let viewer = ChunkPos::new(0, 0, 0);
    let plan = manager.plan_tick(&mut store, viewer);
    assert_eq!(plan.to_load.len(), 25);
    let d2 = |p: &ChunkPos| (p.x as i64).pow(2) + (p.z as i64).pow(2);
    for w in plan.to_load.windows(2) {
        assert!(d2(&w[0]) <= d2(&w[1]));
    }
    assert_eq!(plan.to_load[0], ChunkPos::new(0, 0, 0));
}

#[test]
fn moving_viewer_despawns_far_chunks() {
    let mut manager = StreamingManager::new(2, 3, 100, 1);
    let mut store = ChunkStore::new();
    let home = ChunkPos::new(0, 0, 0);
    drain_loads(&mut manager, &mut store, home);
    assert!(manager.is_loaded(ChunkPos::new(0, 0, 0)));

    // A viewer one chunk away keeps everything: hysteresis band.
    let nearby = ChunkPos::new(1, 0, 0);
    let plan = manager.plan_tick(&mut store, nearby);
    assert!(plan.despawned.is_empty());

    // A viewer far away despawns the lot.
    let far = ChunkPos::new(100, 0, 100);
    let plan = manager.plan_tick(&mut store, far);
    assert_eq!(plan.despawned.len(), 25);
    assert!(!manager.is_loaded(ChunkPos::new(0, 0, 0)));
    assert!(!store.contains(ChunkPos::new(0, 0, 0)));
}

#[test]
fn eviction_persists_dirty_chunks() {
    let mut manager = StreamingManager::new(1, 2, 100, 1);
    let mut store = ChunkStore::new();
    let home = ChunkPos::new(0, 0, 0);
    drain_loads(&mut manager, &mut store, home);

    // Edit a block: the owning chunk becomes dirty.
    write_block(&mut store, WorldPos::new(1, 2, 3), BlockType::Stone);
    assert!(store.is_dirty(ChunkPos::new(0, 0, 0)));

    let plan = manager.plan_tick(&mut store, ChunkPos::new(50, 0, 50));
    assert_eq!(plan.to_persist.len(), 1);
    let (pos, payload) = &plan.to_persist[0];
    assert_eq!(*pos, ChunkPos::new(0, 0, 0));
    let back = decode_chunk_payload(payload).expect("payload must decode");
    assert_eq!(back.get(1, 2, 3), BlockType::Stone);
}

#[test]
fn complete_load_is_idempotent_per_coordinate() {
    let mut manager = StreamingManager::new(2, 3, 8, 2);
    let mut store = ChunkStore::new();
    let p = ChunkPos::new(0, 0, 0);
    let first = manager.complete_load(&mut store, p, Chunk::default());
    assert!(first.is_some());
    let second = manager.complete_load(&mut store, p, Chunk::default());
    assert!(second.is_none());
}

#[test]
fn read_write_block_roundtrip() {
    let mut manager = StreamingManager::new(1, 2, 100, 1);
    let mut store = ChunkStore::new();
    drain_loads(&mut manager, &mut store, ChunkPos::new(0, 0, 0));
    let wp = WorldPos::new(-3, 7, 12);
    assert_eq!(read_block(&store, wp), BlockType::Air);
    write_block(&mut store, wp, BlockType::Furnace);
    assert_eq!(read_block(&store, wp), BlockType::Furnace);
    // Unloaded chunks read as air and ignore writes.
    let outside = WorldPos::new(1000, 0, 1000);
    write_block(&mut store, outside, BlockType::Stone);
    assert_eq!(read_block(&store, outside), BlockType::Air);
}

#[test]
fn remesh_tags_owner_and_boundary_neighbors() {
    let mut manager = StreamingManager::new(2, 3, 1000, 2);
    let mut store = ChunkStore::new();
    drain_loads(&mut manager, &mut store, ChunkPos::new(0, 0, 0));
    // Drain the load-time tags first.
    let jobs = manager.take_mesh_jobs(&store);
    assert!(!jobs.is_empty());

    // An interior edit tags only the owning chunk.
    request_remesh(&mut manager, WorldPos::new(5, 5, 5));
    let jobs = manager.take_mesh_jobs(&store);
    assert_eq!(jobs.len(), 1);
    assert_eq!(jobs[0].pos, ChunkPos::new(0, 0, 0));

    // An edit on the shared face tags the neighbor too.
    request_remesh(&mut manager, WorldPos::new(16, 5, 5));
    let jobs = manager.take_mesh_jobs(&store);
    let mut tagged: Vec<ChunkPos> = jobs.iter().map(|j| j.pos).collect();
    tagged.sort_by_key(|p| (p.x, p.y, p.z));
    assert_eq!(tagged, vec![ChunkPos::new(0, 0, 0), ChunkPos::new(1, 0, 0)]);
}

#[test]
fn mesh_jobs_snapshot_store_contents() {
    let mut manager = StreamingManager::new(1, 2, 100, 1);
    let mut store = ChunkStore::new();
    drain_loads(&mut manager, &mut store, ChunkPos::new(0, 0, 0));
    write_block(&mut store, WorldPos::new(8, 8, 8), BlockType::Stone);
    request_remesh(&mut manager, WorldPos::new(8, 8, 8));
    let jobs = manager.take_mesh_jobs(&store);
    let job = jobs.iter().find(|j| j.pos == ChunkPos::new(0, 0, 0)).expect("owner tagged");
    assert_eq!(job.chunk.get(8, 8, 8), BlockType::Stone);
    assert!(job.neighbors.east.is_some());
    // Stale results are discarded: the entity gate only accepts the
    // current handle.
    assert!(manager.should_apply_mesh(job.pos, job.entity));
    assert!(!manager.should_apply_mesh(job.pos, job.entity + 12345));
    let mesh = build_chunk_mesh(&job.chunk, &job.neighbors);
    assert!(mesh.vertices.len() > 0);
}

#[test]
fn store_dirty_is_subset_of_resident() {
    let mut store = ChunkStore::new();
    let p = ChunkPos::new(4, 0, 4);
    // Marking an absent coordinate does nothing.
    store.mark_dirty(p);
    assert!(!store.is_dirty(p));
    store.insert(p, Chunk::default());
    store.mark_dirty(p);
    assert!(store.is_dirty(p));
    assert_eq!(store.dirty_positions(), vec![p]);
    store.clear_dirty(p);
    assert!(!store.is_dirty(p));
    store.mark_dirty(p);
    store.remove(p);
    assert!(!store.is_dirty(p));
    assert!(!store.contains(p));
}
