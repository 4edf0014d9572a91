use voxelcore::coords::{world_to_chunk_pos, world_to_local_pos, ChunkPos, WorldPos};

#[test]
fn positive_coords_chunk_pos() {
    let chunk = world_to_chunk_pos(WorldPos::new(0, 0, 0));
    assert_eq!(chunk, ChunkPos::new(0, 0, 0));

    let chunk = world_to_chunk_pos(WorldPos::new(15, 15, 15));
    assert_eq!(chunk, ChunkPos::new(0, 0, 0));

    let chunk = world_to_chunk_pos(WorldPos::new(16, 0, 0));
    assert_eq!(chunk, ChunkPos::new(1, 0, 0));

    let chunk = world_to_chunk_pos(WorldPos::new(32, 48, 64));
    assert_eq!(chunk, ChunkPos::new(2, 3, 4));
}

#[test]
fn negative_coords_chunk_pos_uses_div_euclid() {
    // Cell -1 lies in chunk -1, not chunk 0.
    let chunk = world_to_chunk_pos(WorldPos::new(-1, 0, 0));
    assert_eq!(chunk, ChunkPos::new(-1, 0, 0));

    let chunk = world_to_chunk_pos(WorldPos::new(-16, 0, 0));
    assert_eq!(chunk, ChunkPos::new(-1, 0, 0));

    let chunk = world_to_chunk_pos(WorldPos::new(-17, 0, 0));
    assert_eq!(chunk, ChunkPos::new(-2, 0, 0));
}

#[test]
fn positive_coords_local_pos() {
    let local = world_to_local_pos(WorldPos::new(0, 0, 0));
    assert_eq!(local, (0, 0, 0));

    let local = world_to_local_pos(WorldPos::new(15, 15, 15));
    assert_eq!(local, (15, 15, 15));

    let local = world_to_local_pos(WorldPos::new(16, 0, 0));
    assert_eq!(local, (0, 0, 0));

    let local = world_to_local_pos(WorldPos::new(17, 18, 19));
    assert_eq!(local, (1, 2, 3));
}

#[test]
fn negative_coords_local_pos_uses_rem_euclid() {
    // Cell -1 maps to local 15.
    let local = world_to_local_pos(WorldPos::new(-1, -1, -1));
    assert_eq!(local, (15, 15, 15));

    let local = world_to_local_pos(WorldPos::new(-16, 0, 0));
    assert_eq!(local, (0, 0, 0));

    let local = world_to_local_pos(WorldPos::new(-17, 0, 0));
    assert_eq!(local, (15, 0, 0));
}

#[test]
fn boundary_values() {
    let chunk = world_to_chunk_pos(WorldPos::new(0, 0, 0));
    let local = world_to_local_pos(WorldPos::new(0, 0, 0));
    assert_eq!(chunk, ChunkPos::new(0, 0, 0));
    assert_eq!(local, (0, 0, 0));

    let local = world_to_local_pos(WorldPos::new(15, 15, 15));
    assert_eq!(local, (15, 15, 15));

    let chunk = world_to_chunk_pos(WorldPos::new(16, 16, 16));
    let local = world_to_local_pos(WorldPos::new(16, 16, 16));
    assert_eq!(chunk, ChunkPos::new(1, 1, 1));
    assert_eq!(local, (0, 0, 0));
}
