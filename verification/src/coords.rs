//! World and chunk coordinates. A chunk at coordinate `c` occupies world
//! cells `[c*16, c*16+16)` per axis; conversion from a world cell uses
//! floor-division, so negative coordinates map to the correct chunk.

use vstd::prelude::*;

use crate::chunk::CHUNK_SIZE;

verus! {

/// An integer world cell position.
#[derive(Debug, Clone, Copy, PartialEq, Eq, Structural, Hash)]
pub struct WorldPos {
    pub x: i32,
    pub y: i32,
    pub z: i32,
}

/// A chunk coordinate: the world grid divided into 16-cell cubes.
#[derive(Debug, Clone, Copy, PartialEq, Eq, Structural, Hash)]
pub struct ChunkPos {
    pub x: i32,
    pub y: i32,
    pub z: i32,
}

impl WorldPos {
    /// Make a world position from its components.
    pub fn new(x: i32, y: i32, z: i32) -> (r: Self)
        ensures
            r == (WorldPos { x, y, z }),
    {
        WorldPos { x, y, z }
    }
}

impl ChunkPos {
    /// Make a chunk coordinate from its components.
    pub fn new(x: i32, y: i32, z: i32) -> (r: Self)
        ensures
            r == (ChunkPos { x, y, z }),
    {
        ChunkPos { x, y, z }
    }
}

/// The chunk that owns a world cell, on one axis: floor-division by 16.
pub open spec fn spec_chunk_axis(w: int) -> int {
    w / 16
}

/// A world cell's offset inside its chunk, on one axis: in `[0, 16)`.
pub open spec fn spec_local_axis(w: int) -> int {
    w % 16
}

/// Floor-divide one axis of a world position by the chunk size.
fn chunk_axis(w: i32) -> (r: i32)
    ensures
        r == spec_chunk_axis(w as int),
{
    match w.checked_div_euclid(CHUNK_SIZE as i32) {
        Some(q) => q,
        None => 0,
    }
}

/// One axis of a world position reduced into `[0, 16)`.
fn local_axis(w: i32) -> (r: usize)
    ensures
        r == spec_local_axis(w as int),
        r < CHUNK_SIZE,
{
    match w.checked_rem_euclid(CHUNK_SIZE as i32) {
        Some(m) => m as usize,
        None => 0,
    }
}

/// The chunk coordinate that owns a world cell; floor-division per axis, so
/// cell -1 lies in chunk -1, not chunk 0.
pub fn world_to_chunk_pos(world_pos: WorldPos) -> (r: ChunkPos)
    ensures
        r.x == spec_chunk_axis(world_pos.x as int),
        r.y == spec_chunk_axis(world_pos.y as int),
        r.z == spec_chunk_axis(world_pos.z as int),
{
    ChunkPos {
        x: chunk_axis(world_pos.x),
        y: chunk_axis(world_pos.y),
        z: chunk_axis(world_pos.z),
    }
}

/// A world cell's local position inside its chunk: each axis in `[0, 16)`,
/// so cell -1 maps to local 15.
pub fn world_to_local_pos(world_pos: WorldPos) -> (r: (usize, usize, usize))
    ensures
        r.0 == spec_local_axis(world_pos.x as int),
        r.1 == spec_local_axis(world_pos.y as int),
        r.2 == spec_local_axis(world_pos.z as int),
        r.0 < CHUNK_SIZE && r.1 < CHUNK_SIZE && r.2 < CHUNK_SIZE,
{
    (local_axis(world_pos.x), local_axis(world_pos.y), local_axis(world_pos.z))
}

/// Splitting a world coordinate into chunk and local parts loses nothing:
/// the chunk base plus the local offset gives the coordinate back.
pub proof fn lemma_chunk_local_decompose(w: int)
    ensures
        spec_chunk_axis(w) * 16 + spec_local_axis(w) == w,
        0 <= spec_local_axis(w) < 16,
{
    vstd::arithmetic::div_mod::lemma_fundamental_div_mod(w, 16);
    vstd::arithmetic::div_mod::lemma_mod_bound(w, 16);
}

} // verus!
